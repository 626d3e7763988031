//! The item filter chips: the options of the "Add Filter" dropdown and the
//! filter a selected option stands for.
use vstd::prelude::*;
use crate::text::{chars_of, push_str, str_starts_with, string_from_range, string_of};

verus! {

/// A single active filter, identified by its category and value.
#[derive(Debug, PartialEq, Eq)]
pub struct ActiveFilter {
    pub category: String,
    pub value: String,
}

impl Clone for ActiveFilter {
    fn clone(&self) -> (res: Self)
        ensures
            res == *self,
    {
        ActiveFilter { category: self.category.clone(), value: self.value.clone() }
    }
}

/// A dropdown option as the pair of its value and its label.
pub open spec fn option_view(p: (String, String)) -> (Seq<char>, Seq<char>) {
    (p.0@, p.1@)
}

/// One category's options: a non-selectable header, then one option per
/// value whose value is `prefix` followed by the value; nothing if there are
/// no values.
pub open spec fn group_options(
    header_value: Seq<char>,
    header_label: Seq<char>,
    prefix: Seq<char>,
    vals: Seq<String>,
) -> Seq<(Seq<char>, Seq<char>)> {
    if vals.len() == 0 {
        Seq::empty()
    } else {
        seq![(header_value, header_label)] + vals.map_values(|v: String| (prefix + v@, v@))
    }
}

/// The options of the "Add Filter" dropdown, type, rarity, workbench and
/// loadout slot in that order.
pub open spec fn filter_options_spec(
    types: Seq<String>,
    rarities: Seq<String>,
    workbenches: Seq<String>,
    loadout_slots: Seq<String>,
) -> Seq<(Seq<char>, Seq<char>)> {
    group_options("__header_type"@, "-- Type --"@, "type:"@, types)
        + group_options("__header_rarity"@, "-- Rarity --"@, "rarity:"@, rarities)
        + group_options("__header_workbench"@, "-- Workbench --"@, "workbench:"@, workbenches)
        + group_options("__header_slot"@, "-- Loadout Slot --"@, "slot:"@, loadout_slots)
}

fn push_group(
    options: &mut Vec<(String, String)>,
    header_value: &str,
    header_label: &str,
    prefix: &str,
    vals: &[String],
)
    ensures
        final(options)@.map_values(|p: (String, String)| option_view(p)) == old(options)@.map_values(
            |p: (String, String)| option_view(p),
        ) + group_options(header_value@, header_label@, prefix@, vals@),
{
    let ghost start = old(options)@.map_values(|p: (String, String)| option_view(p));
    if vals.len() == 0 {
        assert(options@.map_values(|p: (String, String)| option_view(p)) =~= start + Seq::empty());
        return;
    }
    options.push((string_of(header_value), string_of(header_label)));
    let ghost with_header = start + seq![(header_value@, header_label@)];
    assert(options@.map_values(|p: (String, String)| option_view(p)) =~= with_header);
    let mut i: usize = 0;
    while i < vals.len()
        invariant
            i <= vals.len(),
            options@.map_values(|p: (String, String)| option_view(p)) == with_header
                + vals@.take(i as int).map_values(|v: String| (prefix@ + v@, v@)),
        decreases vals.len() - i,
    {
        let mut value = string_of(prefix);
        push_str(&mut value, vals[i].as_str());
        let ghost before = options@;
        options.push((value, vals[i].clone()));
        assert(options@.map_values(|p: (String, String)| option_view(p)) =~= before.map_values(
            |p: (String, String)| option_view(p),
        ).push((prefix@ + vals@[i as int]@, vals@[i as int]@)));
        assert(vals@.take(i + 1).map_values(|v: String| (prefix@ + v@, v@)) =~= vals@.take(
            i as int,
        ).map_values(|v: String| (prefix@ + v@, v@)).push((prefix@ + vals@[i as int]@, vals@[i as int]@)));
        i = i + 1;
    }
    assert(vals@.take(vals.len() as int) =~= vals@);
    assert(with_header + vals@.map_values(|v: String| (prefix@ + v@, v@)) =~= start + group_options(
        header_value@,
        header_label@,
        prefix@,
        vals@,
    ));
}

/// Builds the options list for the "Add Filter" dropdown. Each option is
/// `(value, display_label)` where value encodes `"category:value"`; each
/// non-empty category is preceded by a non-selectable header entry.
pub fn build_filter_options(
    types: &[String],
    rarities: &[String],
    workbenches: &[String],
    loadout_slots: &[String],
) -> (res: Vec<(String, String)>)
    ensures
        res@.map_values(|p: (String, String)| option_view(p)) == filter_options_spec(
            types@,
            rarities@,
            workbenches@,
            loadout_slots@,
        ),
{
    let mut options: Vec<(String, String)> = Vec::new();
    assert(options@.map_values(|p: (String, String)| option_view(p)) =~= Seq::empty());
    push_group(&mut options, "__header_type", "-- Type --", "type:", types);
    push_group(&mut options, "__header_rarity", "-- Rarity --", "rarity:", rarities);
    push_group(&mut options, "__header_workbench", "-- Workbench --", "workbench:", workbenches);
    push_group(&mut options, "__header_slot", "-- Loadout Slot --", "slot:", loadout_slots);
    assert(options@.map_values(|p: (String, String)| option_view(p)) =~= filter_options_spec(
        types@,
        rarities@,
        workbenches@,
        loadout_slots@,
    ));
    options
}

/// `i` is the position of the first `':'` in `s`.
pub open spec fn first_colon_at(s: Seq<char>, i: int) -> bool {
    &&& 0 <= i < s.len()
    &&& s[i] == ':'
    &&& forall|j: int| 0 <= j < i ==> s[j] != ':'
}

/// Parses a dropdown selection value like `"type:Weapon"` into an
/// `ActiveFilter`, splitting at the first `':'`; `None` without a `':'`.
pub fn parse_filter_selection(selection: &str) -> (res: Option<ActiveFilter>)
    ensures
        res is None <==> !selection@.contains(':'),
        res matches Some(f) ==> exists|i: int|
            first_colon_at(selection@, i) && f.category@ == selection@.take(i) && f.value@
                == selection@.skip(i + 1),
{
    let cs = chars_of(selection);
    let mut i: usize = 0;
    while i < cs.len()
        invariant
            i <= cs.len(),
            cs@ == selection@,
            forall|j: int| 0 <= j < i ==> cs@[j] != ':',
        decreases cs.len() - i,
    {
        if cs[i] == ':' {
            let category = string_from_range(&cs, 0, i);
            let value = string_from_range(&cs, i + 1, cs.len());
            assert(first_colon_at(selection@, i as int));
            assert(category@ =~= selection@.take(i as int));
            assert(value@ =~= selection@.skip(i + 1));
            assert(selection@.contains(':')) by {
                assert(selection@[i as int] == ':');
            }
            return Some(ActiveFilter { category, value });
        }
        i = i + 1;
    }
    None
}

/// The filter a chosen dropdown value stands for: none for a category
/// header (a value starting with `"__header_"`), else the parsed selection.
pub fn selection_to_filter(value: &str) -> (res: Option<ActiveFilter>)
    ensures
        ({
            let header = "__header_"@;
            if header.len() <= value@.len() && value@.take(header.len() as int) == header {
                res is None
            } else {
                &&& (res is None <==> !value@.contains(':'))
                &&& res matches Some(f) ==> exists|i: int|
                    first_colon_at(value@, i) && f.category@ == value@.take(i) && f.value@
                        == value@.skip(i + 1)
            }
        }),
{
    if str_starts_with(value, "__header_") {
        None
    } else {
        parse_filter_selection(value)
    }
}

/// The value of a category header option starts with `"__header_"`.
pub open spec fn is_header_value(v: Seq<char>) -> bool {
    let header = "__header_"@;
    header.len() <= v.len() && v.take(header.len() as int) == header
}

/// The categories the item filters know.
pub open spec fn is_filter_category(cat: Seq<char>) -> bool {
    cat == "type"@ || cat == "rarity"@ || cat == "workbench"@ || cat == "slot"@
}

/// Choosing the option `(value, label)` selects nothing (a header, without a
/// `':'`), or the filter of a known category with the label as value: the
/// value is not a header and its first `':'` ends the category.
pub open spec fn option_selects(value: Seq<char>, label: Seq<char>) -> bool {
    ||| is_header_value(value) && !value.contains(':')
    ||| exists|cat: Seq<char>|
        is_filter_category(cat) && !is_header_value(value) && first_colon_at(value, cat.len() as int)
            && #[trigger] value.take(cat.len() as int) == cat && value.skip(cat.len() as int + 1) == label
}

proof fn lemma_group_selects(hv: Seq<char>, hl: Seq<char>, cat: Seq<char>, vals: Seq<String>, j: int)
    requires
        is_header_value(hv),
        !hv.contains(':'),
        is_filter_category(cat),
        cat.len() > 0,
        cat[0] != '_',
        forall|k: int| 0 <= k < cat.len() ==> cat[k] != ':',
        0 <= j < group_options(hv, hl, cat + seq![':'], vals).len(),
    ensures
        option_selects(
            group_options(hv, hl, cat + seq![':'], vals)[j].0,
            group_options(hv, hl, cat + seq![':'], vals)[j].1,
        ),
{
    let g = group_options(hv, hl, cat + seq![':'], vals);
    if j > 0 {
        let v = vals[j - 1]@;
        let value = cat + seq![':'] + v;
        assert(g[j] == (cat + seq![':'] + v, v));
        assert(value[0] == cat[0]);
        assert(!is_header_value(value)) by {
            reveal_strlit("__header_");
            if is_header_value(value) {
                assert(value.take(9)[0] == '_');
            }
        }
        assert(first_colon_at(value, cat.len() as int));
        assert(value.take(cat.len() as int) =~= cat);
        assert(value.skip(cat.len() as int + 1) =~= v);
    }
}

/// Law: every option of the "Add Filter" dropdown selects what it shows: a
/// category header selects nothing, and any other option selects its
/// category with its label as the value.
pub proof fn lemma_option_selects_its_filter(
    types: Seq<String>,
    rarities: Seq<String>,
    workbenches: Seq<String>,
    loadout_slots: Seq<String>,
    i: int,
)
    requires
        0 <= i < filter_options_spec(types, rarities, workbenches, loadout_slots).len(),
    ensures
        option_selects(
            filter_options_spec(types, rarities, workbenches, loadout_slots)[i].0,
            filter_options_spec(types, rarities, workbenches, loadout_slots)[i].1,
        ),
{
    reveal_strlit("type");
    reveal_strlit("type:");
    reveal_strlit("rarity");
    reveal_strlit("rarity:");
    reveal_strlit("workbench");
    reveal_strlit("workbench:");
    reveal_strlit("slot");
    reveal_strlit("slot:");
    reveal_strlit("__header_");
    reveal_strlit("__header_type");
    reveal_strlit("__header_rarity");
    reveal_strlit("__header_workbench");
    reveal_strlit("__header_slot");
    assert("type:"@ =~= "type"@ + seq![':']);
    assert("rarity:"@ =~= "rarity"@ + seq![':']);
    assert("workbench:"@ =~= "workbench"@ + seq![':']);
    assert("slot:"@ =~= "slot"@ + seq![':']);
    assert("__header_type"@.take(9) =~= "__header_"@);
    assert("__header_rarity"@.take(9) =~= "__header_"@);
    assert("__header_workbench"@.take(9) =~= "__header_"@);
    assert("__header_slot"@.take(9) =~= "__header_"@);
    let g1 = group_options("__header_type"@, "-- Type --"@, "type:"@, types);
    let g2 = group_options("__header_rarity"@, "-- Rarity --"@, "rarity:"@, rarities);
    let g3 = group_options("__header_workbench"@, "-- Workbench --"@, "workbench:"@, workbenches);
    let g4 = group_options("__header_slot"@, "-- Loadout Slot --"@, "slot:"@, loadout_slots);
    let all = filter_options_spec(types, rarities, workbenches, loadout_slots);
    assert(all == g1 + g2 + g3 + g4);
    if i < g1.len() {
        assert(all[i] == g1[i]);
        lemma_group_selects("__header_type"@, "-- Type --"@, "type"@, types, i);
    } else if i < g1.len() + g2.len() {
        assert(all[i] == g2[i - g1.len()]);
        lemma_group_selects("__header_rarity"@, "-- Rarity --"@, "rarity"@, rarities, i - g1.len());
    } else if i < g1.len() + g2.len() + g3.len() {
        assert(all[i] == g3[i - g1.len() - g2.len()]);
        lemma_group_selects("__header_workbench"@, "-- Workbench --"@, "workbench"@, workbenches, i - g1.len() - g2.len());
    } else {
        assert(all[i] == g4[i - g1.len() - g2.len() - g3.len()]);
        lemma_group_selects("__header_slot"@, "-- Loadout Slot --"@, "slot"@, loadout_slots, i - g1.len() - g2.len() - g3.len());
    }
}

} // verus!
