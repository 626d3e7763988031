//! The items list: which items pass the active filters and search, how they
//! are sorted, and which values the filter dropdown offers.
use vstd::prelude::*;
use crate::components::filter_chips::ActiveFilter;
use crate::services::items::{Item, ItemView};
use crate::sorting::{lemma_filter_keeps_all, lemma_filter_filter, lemma_lex_le_single, lemma_lex_le_pair, lex_le, sorted_by, is_stable_sort_of, lex_less, lex_lt, stable_sort_by_key, lemma_lex_total, lemma_lex_asym, lemma_lex_trans, lemma_lex_lt_le};
use crate::text::{string_of, char_codes, char_codes_of, contains_seq, lowercase, str_contains, str_equal, lemma_char_codes_injective};

verus! {

/// Rarity rank of the (case-insensitive) rarity name: higher is rarer,
/// unknown rarities rank 0.
pub open spec fn rarity_rank_spec(rarity: Seq<char>) -> u8 {
    let r = lowercase(rarity);
    if r == "common"@ {
        1
    } else if r == "uncommon"@ {
        2
    } else if r == "rare"@ {
        3
    } else if r == "epic"@ {
        4
    } else if r == "legendary"@ {
        5
    } else {
        0
    }
}

/// Rarity sort order: higher number = more rare.
pub fn rarity_rank(rarity: &str) -> (res: u8)
    ensures
        res == rarity_rank_spec(rarity@),
{
    let r = rarity.to_lowercase();
    if str_equal(r.as_str(), "common") {
        1
    } else if str_equal(r.as_str(), "uncommon") {
        2
    } else if str_equal(r.as_str(), "rare") {
        3
    } else if str_equal(r.as_str(), "epic") {
        4
    } else if str_equal(r.as_str(), "legendary") {
        5
    } else {
        0
    }
}

/// Next reveal count after the user scrolls to the sentinel, never exceeding
/// the total number of matching items.
pub fn next_visible_count(current: usize, total: usize, step: usize) -> (res: usize)
    requires
        current + step <= usize::MAX,
    ensures
        res == if current + step <= total { current + step } else { total as int },
{
    let next = current + step;
    if next <= total {
        next
    } else {
        total
    }
}

/// Some filter of the category `cat` is active.
pub open spec fn has_category(filters: Seq<ActiveFilter>, cat: Seq<char>) -> bool {
    exists|i: int| 0 <= i < filters.len() && (#[trigger] filters[i]).category@ == cat
}

/// The value `v` is selected in the category `cat`.
pub open spec fn is_selected(filters: Seq<ActiveFilter>, cat: Seq<char>, v: Seq<char>) -> bool {
    exists|i: int| 0 <= i < filters.len() && (#[trigger] filters[i]).category@ == cat && filters[i].value@ == v
}

/// The category `cat` lets `v` through: no filter of that category is
/// active, or `v` is one of its selected values.
pub open spec fn admits(filters: Seq<ActiveFilter>, cat: Seq<char>, v: Seq<char>) -> bool {
    !has_category(filters, cat) || is_selected(filters, cat, v)
}

/// An item passes the search and the filters: its lower-cased name contains
/// the lower-cased search (when that is not empty); within a category the
/// selected values are alternatives, and every active category must match.
pub open spec fn item_passes(item: ItemView, filters: Seq<ActiveFilter>, search_lower: Seq<char>) -> bool {
    &&& (search_lower.len() == 0 || contains_seq(lowercase(item.name), search_lower))
    &&& admits(filters, "type"@, item.item_type)
    &&& admits(filters, "rarity"@, item.rarity)
    &&& (!has_category(filters, "workbench"@) || (item.workbench matches Some(wb) && is_selected(
        filters,
        "workbench"@,
        wb,
    )))
    &&& (!has_category(filters, "slot"@) || exists|j: int|
        0 <= j < item.loadout_slots.len() && is_selected(filters, "slot"@, #[trigger] item.loadout_slots[j]))
}

pub open spec fn passes(filters: Seq<ActiveFilter>, search_lower: Seq<char>) -> spec_fn(ItemView) -> bool {
    |item: ItemView| item_passes(item, filters, search_lower)
}

pub open spec fn item_view() -> spec_fn(Item) -> ItemView {
    |i: Item| i@
}

/// Whether a filter of category `cat` is active, and whether `v` is selected in it.
fn scan_category(filters: &[ActiveFilter], cat: &str, v: &str) -> (res: (bool, bool))
    ensures
        res.0 == has_category(filters@, cat@),
        res.1 == is_selected(filters@, cat@, v@),
{
    let mut found_cat = false;
    let mut found_value = false;
    let mut i: usize = 0;
    while i < filters.len()
        invariant
            i <= filters.len(),
            found_cat == exists|k: int| 0 <= k < i && (#[trigger] filters@[k]).category@ == cat@,
            found_value == exists|k: int|
                0 <= k < i && (#[trigger] filters@[k]).category@ == cat@ && filters@[k].value@ == v@,
        decreases filters.len() - i,
    {
        if str_equal(filters[i].category.as_str(), cat) {
            found_cat = true;
            if str_equal(filters[i].value.as_str(), v) {
                found_value = true;
            }
        }
        i = i + 1;
    }
    (found_cat, found_value)
}

/// Whether the item passes the lower-cased search and the filters.
fn item_passes_exec(item: &Item, filters: &[ActiveFilter], search_lower: &str) -> (res: bool)
    ensures
        res == item_passes(item@, filters@, search_lower@),
{
    if !search_lower.is_empty() {
        let name_lower = item.name.to_lowercase();
        if !str_contains(name_lower.as_str(), search_lower) {
            return false;
        }
    }
    let (has_type, type_ok) = scan_category(filters, "type", item.item_type.as_str());
    if has_type && !type_ok {
        return false;
    }
    let (has_rarity, rarity_ok) = scan_category(filters, "rarity", item.rarity.as_str());
    if has_rarity && !rarity_ok {
        return false;
    }
    let (has_workbench, _) = scan_category(filters, "workbench", "");
    if has_workbench {
        match &item.workbench {
            Some(wb) => {
                let (_, wb_ok) = scan_category(filters, "workbench", wb.as_str());
                if !wb_ok {
                    return false;
                }
            },
            None => {
                return false;
            },
        }
    }
    let (has_slot, _) = scan_category(filters, "slot", "");
    if has_slot {
        let mut any = false;
        let mut j: usize = 0;
        while j < item.loadout_slots.len()
            invariant
                j <= item.loadout_slots.len(),
                any == exists|k: int|
                    0 <= k < j && is_selected(filters@, "slot"@, #[trigger] item@.loadout_slots[k]),
            decreases item.loadout_slots.len() - j,
        {
            let (_, ok) = scan_category(filters, "slot", item.loadout_slots[j].as_str());
            assert(item@.loadout_slots[j as int] == item.loadout_slots@[j as int]@);
            if ok {
                any = true;
            }
            j = j + 1;
        }
        if !any {
            return false;
        }
    }
    true
}

/// Filters items by the active filters and the search text. Within a
/// category, values are OR'd; across categories, they are AND'd. The search
/// is a case-insensitive substring test on the name.
pub fn apply_filters(items: &[Item], filters: &[ActiveFilter], search: &str) -> (res: Vec<Item>)
    ensures
        res@.map_values(item_view()) == items@.map_values(item_view()).filter(
            passes(filters@, lowercase(search@)),
        ),
{
    let search_lower = search.to_lowercase();
    let ghost pred = passes(filters@, lowercase(search@));
    let mut out: Vec<Item> = Vec::new();
    let mut i: usize = 0;
    while i < items.len()
        invariant
            i <= items.len(),
            search_lower@ == lowercase(search@),
            pred == passes(filters@, lowercase(search@)),
            out@.map_values(item_view()) == items@.take(i as int).map_values(item_view()).filter(pred),
        decreases items.len() - i,
    {
        let ghost before = out@;
        let keep = item_passes_exec(&items[i], filters, search_lower.as_str());
        proof {
            assert(items@.take(i + 1).map_values(item_view()) =~= items@.take(i as int).map_values(
                item_view(),
            ).push(items@[i as int]@));
            items@.take(i as int).map_values(item_view()).lemma_filter_push(items@[i as int]@, pred);
        }
        if keep {
            let c = items[i].clone();
            out.push(c);
            assert(out@.map_values(item_view()) =~= before.map_values(item_view()).push(items@[i as int]@));
        }
        i = i + 1;
    }
    assert(items@.take(items.len() as int) =~= items@);
    out
}

/// Law: the search keeps exactly the items whose name contains it. Filtering
/// with a search gives the items that the same filters keep without one,
/// less those whose lower-cased name is not of the form `p + q + r` with `q`
/// the lower-cased search (an empty search keeps them all).
pub proof fn lemma_search_finds_names_containing_it(
    items: Seq<Item>,
    filters: Seq<ActiveFilter>,
    search: Seq<char>,
    unsearched: Seq<Item>,
    searched: Seq<Item>,
)
    requires
        unsearched.map_values(item_view()) == items.map_values(item_view()).filter(
            passes(filters, lowercase(Seq::empty())),
        ),
        searched.map_values(item_view()) == items.map_values(item_view()).filter(passes(filters, lowercase(search))),
    ensures
        searched.map_values(item_view()) == unsearched.map_values(item_view()).filter(
            |v: ItemView|
                lowercase(search).len() == 0 || exists|p: Seq<char>, r: Seq<char>|
                    #[trigger] (p + lowercase(search) + r) == lowercase(v.name),
        ),
{
    let q = lowercase(search);
    let has = |v: ItemView|
        q.len() == 0 || exists|p: Seq<char>, r: Seq<char>| #[trigger] (p + q + r) == lowercase(v.name);
    assert forall|v: ItemView| #[trigger] passes(filters, q)(v) == (passes(filters, lowercase(Seq::empty()))(v)
        && has(v)) by {
        let h = lowercase(v.name);
        if q.len() > 0 {
            if contains_seq(h, q) {
                let i = choose|i: int| 0 <= i && i + q.len() <= h.len() && #[trigger] h.subrange(i, i + q.len()) == q;
                let p = h.take(i);
                let r = h.skip(i + q.len());
                assert(p + q + r =~= h);
            }
            if exists|p: Seq<char>, r: Seq<char>| #[trigger] (p + q + r) == h {
                let (p, r) = choose|p: Seq<char>, r: Seq<char>| #[trigger] (p + q + r) == h;
                assert(h.subrange(p.len() as int, (p.len() + q.len()) as int) =~= q);
            }
        }
    }
    lemma_filter_filter(items.map_values(item_view()), passes(filters, lowercase(Seq::empty())), has, passes(filters, q));
}

/// Items ordered by value, highest first.
pub open spec fn value_desc_key() -> spec_fn(Item) -> Seq<i64> {
    |i: Item| seq![(-(i.value as int)) as i64]
}

/// Items ordered by rarity rank, rarest first, then by value, highest first.
pub open spec fn rarity_desc_key() -> spec_fn(Item) -> Seq<i64> {
    |i: Item| seq![(-(rarity_rank_spec(i.rarity@) as int)) as i64, (-(i.value as int)) as i64]
}

/// Items ordered by lower-cased name, A to Z.
pub open spec fn name_asc_key() -> spec_fn(Item) -> Seq<i64> {
    |i: Item| char_codes(lowercase(i.name@))
}

/// The order selected by the sort key: `"value_desc"`, `"rarity_desc"`, and
/// by name for `"name_asc"` and anything else.
pub open spec fn sort_key_for(sort_by: Seq<char>) -> spec_fn(Item) -> Seq<i64> {
    if sort_by == "value_desc"@ {
        value_desc_key()
    } else if sort_by == "rarity_desc"@ {
        rarity_desc_key()
    } else {
        name_asc_key()
    }
}

/// Sorts items in place, stably, by the selected sort key.
pub fn sort_items(items: &mut Vec<Item>, sort_by: &str)
    ensures
        is_stable_sort_of(final(items)@, old(items)@, sort_key_for(sort_by@)),
{
    let by_value = str_equal(sort_by, "value_desc");
    let by_rarity = str_equal(sort_by, "rarity_desc");
    let ghost key = sort_key_for(sort_by@);
    let mut taken: Vec<Item> = Vec::new();
    std::mem::swap(items, &mut taken);
    let mut keys: Vec<Vec<i64>> = Vec::new();
    let mut i: usize = 0;
    while i < taken.len()
        invariant
            i <= taken.len(),
            keys.len() == i,
            key == sort_key_for(sort_by@),
            by_value == (sort_by@ == "value_desc"@),
            by_rarity == (sort_by@ == "rarity_desc"@),
            forall|j: int| 0 <= j < i ==> (#[trigger] keys[j])@ == key(taken@[j]),
        decreases taken.len() - i,
    {
        let it = &taken[i];
        let k: Vec<i64> = if by_value {
            let neg_value: i64 = -(it.value as i64);
            let k = vec![neg_value];
            assert(k@ =~= value_desc_key()(*it));
            k
        } else if by_rarity {
            let rank = rarity_rank(it.rarity.as_str());
            let neg_rank: i64 = -(rank as i64);
            let neg_value: i64 = -(it.value as i64);
            let k = vec![neg_rank, neg_value];
            assert(k@ =~= rarity_desc_key()(*it));
            k
        } else {
            let lower = it.name.to_lowercase();
            char_codes_of(lower.as_str())
        };
        keys.push(k);
        i = i + 1;
    }
    let sorted = stable_sort_by_key(taken, keys, Ghost(key));
    *items = sorted;
}

/// Law: what each sort order means for neighbours in the sorted list. By
/// value, every item is worth at least as much as the ones after it; by
/// rarity, every item is at least as rare as the ones after it, and among
/// equally rare items worth at least as much; by name (any other choice),
/// the whole lower-cased name of every item comes no later in string order
/// than those of the items after it.
pub proof fn lemma_sorted_items_order(before: Seq<Item>, after: Seq<Item>, sort_by: Seq<char>)
    requires
        is_stable_sort_of(after, before, sort_key_for(sort_by)),
    ensures
        forall|i: int, j: int| #![trigger after[i], after[j]] 0 <= i < j < after.len() ==> {
            &&& (sort_by == "value_desc"@ ==> after[i].value >= after[j].value)
            &&& (sort_by == "rarity_desc"@ ==> rarity_rank_spec(after[i].rarity@) > rarity_rank_spec(
                after[j].rarity@) || (rarity_rank_spec(after[i].rarity@) == rarity_rank_spec(after[j].rarity@)
                && after[i].value >= after[j].value))
            &&& (sort_by != "value_desc"@ && sort_by != "rarity_desc"@ ==> lex_le(
                char_codes(lowercase(after[i].name@)),
                char_codes(lowercase(after[j].name@)),
            ))
        },
{
    assert forall|i: int, j: int| #![trigger after[i], after[j]] 0 <= i < j < after.len() implies {
        &&& (sort_by == "value_desc"@ ==> after[i].value >= after[j].value)
        &&& (sort_by == "rarity_desc"@ ==> rarity_rank_spec(after[i].rarity@) > rarity_rank_spec(
            after[j].rarity@) || (rarity_rank_spec(after[i].rarity@) == rarity_rank_spec(after[j].rarity@)
            && after[i].value >= after[j].value))
        &&& (sort_by != "value_desc"@ && sort_by != "rarity_desc"@ ==> lex_le(
            char_codes(lowercase(after[i].name@)),
            char_codes(lowercase(after[j].name@)),
        ))
    } by {
        reveal_strlit("value_desc");
        reveal_strlit("rarity_desc");
        assert("value_desc"@ != "rarity_desc"@) by {
            assert("value_desc"@[0] != "rarity_desc"@[0]);
        }
        let key = sort_key_for(sort_by);
        assert(lex_le(key(after[i]), key(after[j])));
        if sort_by == "value_desc"@ {
            assert(key(after[i]) == seq![(-(after[i].value as int)) as i64]);
            assert(key(after[j]) == seq![(-(after[j].value as int)) as i64]);
            lemma_lex_le_single((-(after[i].value as int)) as i64, (-(after[j].value as int)) as i64);
            assert(after[i].value >= after[j].value);
        } else if sort_by == "rarity_desc"@ {
            assert(sort_by != "value_desc"@);
            lemma_lex_le_pair(
                (-(rarity_rank_spec(after[i].rarity@) as int)) as i64,
                (-(after[i].value as int)) as i64,
                (-(rarity_rank_spec(after[j].rarity@) as int)) as i64,
                (-(after[j].value as int)) as i64,
            );
        }
    }
}

/// `s` is strictly increasing in string order (so it holds no duplicates).
pub open spec fn strictly_sorted(s: Seq<String>) -> bool {
    forall|i: int, j: int| 0 <= i < j < s.len() ==> lex_lt(char_codes(#[trigger] s[i]@), char_codes(#[trigger] s[j]@))
}

/// `s` holds the string `v`.
pub open spec fn holds(s: Seq<String>, v: Seq<char>) -> bool {
    exists|i: int| 0 <= i < s.len() && #[trigger] s[i]@ == v
}

/// Adds `v` to the strictly sorted `out` unless it is already there.
fn insert_unique(out: &mut Vec<String>, keys: &mut Vec<Vec<i64>>, v: &String)
    requires
        strictly_sorted(old(out)@),
        old(keys).len() == old(out).len(),
        forall|i: int| 0 <= i < old(out).len() ==> (#[trigger] old(keys)[i])@ == char_codes(old(out)@[i]@),
    ensures
        strictly_sorted(final(out)@),
        final(keys).len() == final(out).len(),
        forall|i: int| 0 <= i < final(out).len() ==> (#[trigger] final(keys)[i])@ == char_codes(final(out)@[i]@),
        forall|w: Seq<char>| #[trigger] holds(final(out)@, w) <==> (holds(old(out)@, w) || w == v@),
{
    let kv = char_codes_of(v.as_str());
    let mut p: usize = 0;
    loop
        invariant
            p <= out.len(),
            keys.len() == out.len(),
            forall|i: int| 0 <= i < out.len() ==> (#[trigger] keys[i])@ == char_codes(out@[i]@),
            kv@ == char_codes(v@),
            forall|j: int| 0 <= j < p ==> lex_lt(#[trigger] char_codes(out@[j]@), kv@),
            out@ == old(out)@,
            keys@ == old(keys)@,
        ensures
            p <= out.len(),
            out@ == old(out)@,
            keys@ == old(keys)@,
            forall|j: int| 0 <= j < p ==> lex_lt(#[trigger] char_codes(out@[j]@), kv@),
            p == out.len() || !lex_lt(char_codes(out@[p as int]@), kv@),
        decreases out.len() - p,
    {
        if p == out.len() {
            break;
        }
        if !lex_less(&keys[p], &kv) {
            break;
        }
        p = p + 1;
    }
    if p < out.len() && !lex_less(&kv, &keys[p]) {
        proof {
            lemma_lex_total(kv@, keys@[p as int]@);
            lemma_char_codes_injective(out@[p as int]@, v@);
            assert(holds(out@, v@)) by {
                assert(out@[p as int]@ == v@);
            }
        }
        return;
    }
    let ghost old_out = out@;
    assert(old_out == old(out)@);
    proof {
        assert forall|j: int| p <= j < old_out.len() implies lex_lt(kv@, #[trigger] char_codes(old_out[j]@)) by {
            if j == p {
                lemma_lex_total(kv@, char_codes(old_out[j]@));
            } else {
                lemma_lex_total(kv@, char_codes(old_out[p as int]@));
                lemma_lex_trans(kv@, char_codes(old_out[p as int]@), char_codes(old_out[j]@));
            }
        }
    }
    out.insert(p, v.clone());
    keys.insert(p, kv);
    proof {
        let np = p as int;
        assert forall|i: int, j: int| 0 <= i < j < out@.len() implies lex_lt(
            char_codes(#[trigger] out@[i]@),
            char_codes(#[trigger] out@[j]@),
        ) by {
            if j < np {
            } else if j == np {
            } else if i < np {
                lemma_lex_trans(char_codes(old_out[i]@), kv@, char_codes(old_out[j - 1]@));
            } else if i == np {
            } else {
            }
        }
        assert forall|w: Seq<char>| #[trigger] holds(out@, w) <==> (holds(old_out, w) || w == v@) by {
            if holds(out@, w) {
                let i = choose|i: int| 0 <= i < out@.len() && #[trigger] out@[i]@ == w;
                if i < np {
                    assert(old_out[i]@ == w);
                } else if i > np {
                    assert(old_out[i - 1]@ == w);
                }
            }
            if holds(old_out, w) {
                let i = choose|i: int| 0 <= i < old_out.len() && #[trigger] old_out[i]@ == w;
                if i < np {
                    assert(out@[i]@ == w);
                } else {
                    assert(out@[i + 1]@ == w);
                }
            }
            if w == v@ {
                assert(out@[np]@ == w);
            }
        }
    }
}

/// Some item has the type `v`.
pub open spec fn is_item_type(items: Seq<Item>) -> spec_fn(Seq<char>) -> bool {
    |v: Seq<char>| exists|i: int| 0 <= i < items.len() && (#[trigger] items[i]).item_type@ == v
}

/// Some item has the rarity `v`.
pub open spec fn is_item_rarity(items: Seq<Item>) -> spec_fn(Seq<char>) -> bool {
    |v: Seq<char>| exists|i: int| 0 <= i < items.len() && (#[trigger] items[i]).rarity@ == v
}

/// Some item is crafted at the workbench `v`.
pub open spec fn is_item_workbench(items: Seq<Item>) -> spec_fn(Seq<char>) -> bool {
    |v: Seq<char>| exists|i: int| 0 <= i < items.len() && opt_is(#[trigger] items[i].workbench, v)
}

/// Some item fits the loadout slot `v`.
pub open spec fn is_item_slot(items: Seq<Item>) -> spec_fn(Seq<char>) -> bool {
    |v: Seq<char>| exists|i: int, j: int|
        0 <= i < items.len() && 0 <= j < items[i].loadout_slots.len() && (#[trigger] items[i].loadout_slots@[j])@ == v
}

/// The optional string is present and equal to `v`.
pub open spec fn opt_is(s: Option<String>, v: Seq<char>) -> bool {
    s matches Some(x) && x@ == v
}

/// Extracts the distinct values of each filter category (types, rarities,
/// workbenches, loadout slots), each list sorted ascending without duplicates.
pub fn extract_filter_values(items: &[Item]) -> (res: (Vec<String>, Vec<String>, Vec<String>, Vec<String>))
    ensures
        strictly_sorted(res.0@),
        strictly_sorted(res.1@),
        strictly_sorted(res.2@),
        strictly_sorted(res.3@),
        forall|v: Seq<char>| #[trigger] holds(res.0@, v) <==> is_item_type(items@)(v),
        forall|v: Seq<char>| #[trigger] holds(res.1@, v) <==> is_item_rarity(items@)(v),
        forall|v: Seq<char>| #[trigger] holds(res.2@, v) <==> is_item_workbench(items@)(v),
        forall|v: Seq<char>| #[trigger] holds(res.3@, v) <==> is_item_slot(items@)(v),
{
    let mut types: Vec<String> = Vec::new();
    let mut type_keys: Vec<Vec<i64>> = Vec::new();
    let mut rarities: Vec<String> = Vec::new();
    let mut rarity_keys: Vec<Vec<i64>> = Vec::new();
    let mut workbenches: Vec<String> = Vec::new();
    let mut workbench_keys: Vec<Vec<i64>> = Vec::new();
    let mut slots: Vec<String> = Vec::new();
    let mut slot_keys: Vec<Vec<i64>> = Vec::new();
    let mut i: usize = 0;
    while i < items.len()
        invariant
            i <= items.len(),
            strictly_sorted(types@),
            strictly_sorted(rarities@),
            strictly_sorted(workbenches@),
            strictly_sorted(slots@),
            type_keys.len() == types.len(),
            rarity_keys.len() == rarities.len(),
            workbench_keys.len() == workbenches.len(),
            slot_keys.len() == slots.len(),
            forall|k: int| 0 <= k < types.len() ==> (#[trigger] type_keys[k])@ == char_codes(types@[k]@),
            forall|k: int| 0 <= k < rarities.len() ==> (#[trigger] rarity_keys[k])@ == char_codes(rarities@[k]@),
            forall|k: int|
                0 <= k < workbenches.len() ==> (#[trigger] workbench_keys[k])@ == char_codes(workbenches@[k]@),
            forall|k: int| 0 <= k < slots.len() ==> (#[trigger] slot_keys[k])@ == char_codes(slots@[k]@),
            forall|v: Seq<char>| #[trigger] holds(types@, v) <==> is_item_type(items@.take(i as int))(v),
            forall|v: Seq<char>| #[trigger] holds(rarities@, v) <==> is_item_rarity(items@.take(i as int))(v),
            forall|v: Seq<char>| #[trigger] holds(workbenches@, v) <==> is_item_workbench(items@.take(i as int))(v),
            forall|v: Seq<char>| #[trigger] holds(slots@, v) <==> is_item_slot(items@.take(i as int))(v),
        decreases items.len() - i,
    {
        let item = &items[i];
        let ghost prev = items@.take(i as int);
        let ghost next = items@.take(i + 1);
        assert(next =~= prev.push(*item));
        let ghost old_types = types@;
        let ghost old_rarities = rarities@;
        let ghost old_workbenches = workbenches@;
        insert_unique(&mut types, &mut type_keys, &item.item_type);
        insert_unique(&mut rarities, &mut rarity_keys, &item.rarity);
        assert forall|v: Seq<char>| #[trigger] holds(types@, v) <==> is_item_type(next)(v) by {
            if is_item_type(next)(v) {
                let k = choose|k: int| 0 <= k < next.len() && (#[trigger] next[k]).item_type@ == v;
                if k < i {
                    assert(prev[k] == next[k]);
                    assert(is_item_type(prev)(v));
                }
            }
            if is_item_type(prev)(v) {
                let k = choose|k: int| 0 <= k < prev.len() && (#[trigger] prev[k]).item_type@ == v;
                assert(next[k] == prev[k]);
            }
            if v == item.item_type@ {
                assert(next[i as int] == *item);
            }
        }
        assert forall|v: Seq<char>| #[trigger] holds(rarities@, v) <==> is_item_rarity(next)(v) by {
            if is_item_rarity(next)(v) {
                let k = choose|k: int| 0 <= k < next.len() && (#[trigger] next[k]).rarity@ == v;
                if k < i {
                    assert(prev[k] == next[k]);
                    assert(is_item_rarity(prev)(v));
                }
            }
            if is_item_rarity(prev)(v) {
                let k = choose|k: int| 0 <= k < prev.len() && (#[trigger] prev[k]).rarity@ == v;
                assert(next[k] == prev[k]);
            }
            if v == item.rarity@ {
                assert(next[i as int] == *item);
            }
        }
        match &item.workbench {
            Some(wb) => {
                insert_unique(&mut workbenches, &mut workbench_keys, wb);
            },
            None => {},
        }
        assert forall|v: Seq<char>| #[trigger] holds(workbenches@, v) <==> is_item_workbench(next)(v) by {
            if is_item_workbench(next)(v) {
                let k = choose|k: int| 0 <= k < next.len() && opt_is(#[trigger] next[k].workbench, v);
                if k < i {
                    assert(prev[k] == next[k]);
                    assert(is_item_workbench(prev)(v));
                }
            }
            if is_item_workbench(prev)(v) {
                let k = choose|k: int| 0 <= k < prev.len() && opt_is(#[trigger] prev[k].workbench, v);
                assert(next[k] == prev[k]);
            }
            if opt_is(item.workbench, v) {
                assert(next[i as int] == *item);
            }
        }
        let ghost slots_before = slots@;
        let mut j: usize = 0;
        while j < item.loadout_slots.len()
            invariant
                j <= item.loadout_slots.len(),
                strictly_sorted(slots@),
                slot_keys.len() == slots.len(),
                forall|k: int| 0 <= k < slots.len() ==> (#[trigger] slot_keys[k])@ == char_codes(slots@[k]@),
                forall|v: Seq<char>| #[trigger] holds(slots@, v) <==> (holds(slots_before, v) || exists|k: int|
                    0 <= k < j && (#[trigger] item.loadout_slots@[k])@ == v),
            decreases item.loadout_slots.len() - j,
        {
            let ghost slots_mid = slots@;
            insert_unique(&mut slots, &mut slot_keys, &item.loadout_slots[j]);
            assert forall|v: Seq<char>| #[trigger] holds(slots@, v) <==> (holds(slots_before, v) || exists|k: int|
                0 <= k < j + 1 && (#[trigger] item.loadout_slots@[k])@ == v) by {
                if exists|k: int| 0 <= k < j + 1 && (#[trigger] item.loadout_slots@[k])@ == v {
                    let k = choose|k: int| 0 <= k < j + 1 && (#[trigger] item.loadout_slots@[k])@ == v;
                    if k < j {
                        assert(holds(slots_mid, v));
                    }
                }
                if holds(slots_mid, v) && !holds(slots_before, v) {
                    let k = choose|k: int| 0 <= k < j && (#[trigger] item.loadout_slots@[k])@ == v;
                    assert(0 <= k < j + 1);
                }
                if v == item.loadout_slots@[j as int]@ {
                    assert(item.loadout_slots@[j as int]@ == v);
                }
            }
            j = j + 1;
        }
        assert forall|v: Seq<char>| #[trigger] holds(slots@, v) <==> is_item_slot(next)(v) by {
            if is_item_slot(next)(v) {
                let (k, m) = choose|k: int, m: int|
                    0 <= k < next.len() && 0 <= m < next[k].loadout_slots.len() && (#[trigger] next[k].loadout_slots@[m])@ == v;
                if k < i {
                    assert(prev[k] == next[k]);
                    assert(is_item_slot(prev)(v));
                } else {
                    assert(next[k] == *item);
                }
            }
            if is_item_slot(prev)(v) {
                let (k, m) = choose|k: int, m: int|
                    0 <= k < prev.len() && 0 <= m < prev[k].loadout_slots.len() && (#[trigger] prev[k].loadout_slots@[m])@ == v;
                assert(next[k] == prev[k]);
            }
            if exists|k: int| 0 <= k < item.loadout_slots.len() && (#[trigger] item.loadout_slots@[k])@ == v {
                let k = choose|k: int| 0 <= k < item.loadout_slots.len() && (#[trigger] item.loadout_slots@[k])@ == v;
                assert(next[i as int] == *item);
                assert(next[i as int].loadout_slots@[k]@ == v);
            }
        }
        i = i + 1;
    }
    assert(items@.take(items.len() as int) =~= items@);
    (types, rarities, workbenches, slots)
}

/// Cosmetics are the items without a rarity.
pub open spec fn is_cosmetic(item: ItemView) -> bool {
    item.rarity.len() == 0
}

pub open spec fn in_section(cosmetics: bool) -> spec_fn(ItemView) -> bool {
    |item: ItemView| is_cosmetic(item) == cosmetics
}

/// The items of the selected section: cosmetics (no rarity) or game items
/// (with a rarity), in their order.
pub fn section_items(all: &[Item], cosmetics: bool) -> (res: Vec<Item>)
    ensures
        res@.map_values(item_view()) == all@.map_values(item_view()).filter(in_section(cosmetics)),
{
    let ghost pred = in_section(cosmetics);
    let mut out: Vec<Item> = Vec::new();
    let mut i: usize = 0;
    while i < all.len()
        invariant
            i <= all.len(),
            pred == in_section(cosmetics),
            out@.map_values(item_view()) == all@.take(i as int).map_values(item_view()).filter(pred),
        decreases all.len() - i,
    {
        let ghost before = out@;
        proof {
            assert(all@.take(i + 1).map_values(item_view()) =~= all@.take(i as int).map_values(item_view()).push(
                all@[i as int]@,
            ));
            all@.take(i as int).map_values(item_view()).lemma_filter_push(all@[i as int]@, pred);
        }
        if all[i].rarity.as_str().is_empty() == cosmetics {
            out.push(all[i].clone());
            assert(out@.map_values(item_view()) =~= before.map_values(item_view()).push(all@[i as int]@));
        }
        i = i + 1;
    }
    assert(all@.take(all.len() as int) =~= all@);
    out
}

/// Two filters select the same category and value.
pub open spec fn same_filter(a: ActiveFilter, b: ActiveFilter) -> bool {
    a.category@ == b.category@ && a.value@ == b.value@
}

/// Some filter in `filters` selects the same as `f`.
pub open spec fn has_filter(filters: Seq<ActiveFilter>, f: ActiveFilter) -> bool {
    exists|i: int| 0 <= i < filters.len() && same_filter(#[trigger] filters[i], f)
}

/// The filters after asking to add `f`: unchanged if an equal filter is
/// already active, else `f` appended.
pub open spec fn add_filter_spec(filters: Seq<ActiveFilter>, f: ActiveFilter) -> Seq<ActiveFilter> {
    if has_filter(filters, f) {
        filters
    } else {
        filters.push(f)
    }
}

pub open spec fn differs_from(f: ActiveFilter) -> spec_fn(ActiveFilter) -> bool {
    |x: ActiveFilter| !same_filter(x, f)
}

fn filter_matches(a: &ActiveFilter, b: &ActiveFilter) -> (res: bool)
    ensures
        res == same_filter(*a, *b),
{
    str_equal(a.category.as_str(), b.category.as_str()) && str_equal(a.value.as_str(), b.value.as_str())
}

/// Adds a filter chip unless an equal one is already active.
pub fn add_filter(filters: Vec<ActiveFilter>, f: ActiveFilter) -> (res: Vec<ActiveFilter>)
    ensures
        res@ == add_filter_spec(filters@, f),
{
    let mut i: usize = 0;
    while i < filters.len()
        invariant
            i <= filters.len(),
            forall|k: int| 0 <= k < i ==> !same_filter(#[trigger] filters@[k], f),
        decreases filters.len() - i,
    {
        if filter_matches(&filters[i], &f) {
            return filters;
        }
        i = i + 1;
    }
    let mut filters = filters;
    filters.push(f);
    filters
}

/// Removes every active filter equal to `f`, keeping the others in order.
pub fn remove_filter(filters: Vec<ActiveFilter>, f: &ActiveFilter) -> (res: Vec<ActiveFilter>)
    ensures
        res@ == filters@.filter(differs_from(*f)),
{
    let ghost pred = differs_from(*f);
    let mut out: Vec<ActiveFilter> = Vec::new();
    let mut rest = filters;
    let ghost orig = rest@;
    let ghost mut n: int = 0;
    assert(orig.skip(0) =~= orig);
    assert(orig.take(0).filter(pred) =~= Seq::<ActiveFilter>::empty()) by {
        reveal(Seq::filter);
    }
    while rest.len() > 0
        invariant
            0 <= n <= orig.len(),
            rest@ == orig.skip(n),
            pred == differs_from(*f),
            out@ == orig.take(n).filter(pred),
        decreases rest.len(),
    {
        let x = rest.remove(0);
        proof {
            assert(orig.take(n + 1) =~= orig.take(n).push(x));
            orig.take(n).lemma_filter_push(x, pred);
        }
        if !filter_matches(&x, f) {
            out.push(x);
        }
        proof {
            assert(rest@ =~= orig.skip(n + 1));
            n = n + 1;
        }
    }
    assert(orig.take(n) =~= orig);
    out
}

/// Law: adding a filter that is already active changes nothing, so adding
/// the same filter twice is the same as adding it once.
pub proof fn lemma_add_filter_idempotent(filters: Seq<ActiveFilter>, f: ActiveFilter)
    ensures
        add_filter_spec(add_filter_spec(filters, f), f) == add_filter_spec(filters, f),
{
    if !has_filter(filters, f) {
        let added = filters.push(f);
        assert(same_filter(added[filters.len() as int], f));
        assert(has_filter(added, f));
    }
}

/// Law: after removing a filter, no filter equal to it is active, and the
/// other filters keep their order.
pub proof fn lemma_remove_filter_removes(filters: Seq<ActiveFilter>, f: ActiveFilter)
    ensures
        !has_filter(filters.filter(differs_from(f)), f),
{
    broadcast use vstd::seq_lib::group_filter_ensures;
    let kept = filters.filter(differs_from(f));
    assert forall|i: int| 0 <= i < kept.len() implies !same_filter(#[trigger] kept[i], f) by {
        filters.lemma_filter_pred(differs_from(f), i);
    }
}

/// The sort choices of a section: by name only for cosmetics; by name, value
/// or rarity for game items.
pub fn sort_options(is_cosmetics: bool) -> (res: Vec<(String, String)>)
    ensures
        res@.map_values(|p: (String, String)| (p.0@, p.1@)) == (if is_cosmetics {
            seq![("name_asc"@, "Name (A-Z)"@)]
        } else {
            seq![("name_asc"@, "Name (A-Z)"@), ("value_desc"@, "Value (High-Low)"@), ("rarity_desc"@, "Rarity (High-Low)"@)]
        }),
{
    let mut res: Vec<(String, String)> = Vec::new();
    res.push((string_of("name_asc"), string_of("Name (A-Z)")));
    if !is_cosmetics {
        res.push((string_of("value_desc"), string_of("Value (High-Low)")));
        res.push((string_of("rarity_desc"), string_of("Rarity (High-Low)")));
    }
    assert(res@.map_values(|p: (String, String)| (p.0@, p.1@)) =~= (if is_cosmetics {
        seq![("name_asc"@, "Name (A-Z)"@)]
    } else {
        seq![("name_asc"@, "Name (A-Z)"@), ("value_desc"@, "Value (High-Low)"@), ("rarity_desc"@, "Rarity (High-Low)"@)]
    }));
    res
}

/// Law: without active filters and with an empty search every item is kept.
pub proof fn lemma_no_filters_keep_all(items: Seq<ItemView>)
    ensures
        items.filter(passes(Seq::empty(), lowercase(Seq::empty()))) == items,
{
    assert forall|item: ItemView| #[trigger] passes(Seq::empty(), lowercase(Seq::empty()))(item) by {
        assert(!has_category(Seq::<ActiveFilter>::empty(), "type"@));
        assert(!has_category(Seq::<ActiveFilter>::empty(), "rarity"@));
        assert(!has_category(Seq::<ActiveFilter>::empty(), "workbench"@));
        assert(!has_category(Seq::<ActiveFilter>::empty(), "slot"@));
    }
    lemma_filter_keeps_all(items, passes(Seq::empty(), lowercase(Seq::empty())));
}

} // verus!
