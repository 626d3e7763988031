//! The Arcs list: name search and alphabetical order.
use vstd::prelude::*;
use crate::services::bots::{Bot, BotView};
use crate::sorting::{lemma_filter_keeps_all, lemma_stable_sort_unique, lex_le, is_stable_sort_of, lemma_stable_sort_map, reversed, stable_sort_by_key};
use crate::text::{char_codes, char_codes_of, contains_seq, lowercase, str_contains, trim_spec};

verus! {

/// A name is kept for a query when the trimmed, lower-cased query is empty
/// or occurs in the lower-cased name.
pub open spec fn name_matches_spec(name: Seq<char>, query: Seq<char>) -> bool {
    let q = lowercase(trim_spec(query));
    q.len() == 0 || contains_seq(lowercase(name), q)
}

/// Returns true if `name` should be kept for the given search `query`.
/// An empty / whitespace-only query matches everything; otherwise matching is
/// a case-insensitive substring test.
pub fn name_matches(name: &str, query: &str) -> (res: bool)
    ensures
        res == name_matches_spec(name@, query@),
{
    let q = query.trim().to_lowercase();
    if q.as_str().is_empty() {
        return true;
    }
    let n = name.to_lowercase();
    str_contains(n.as_str(), q.as_str())
}

/// Law: a name matches a query exactly when the query, trimmed and
/// lower-cased, is empty or occurs somewhere in the lower-cased name: the
/// name is `p + q + r` for some `p` and `r`.
pub proof fn lemma_name_match_is_substring(name: Seq<char>, query: Seq<char>, matched: bool)
    requires
        matched == name_matches_spec(name, query),
    ensures
        matched == (lowercase(trim_spec(query)).len() == 0 || exists|p: Seq<char>, r: Seq<char>|
            #[trigger] (p + lowercase(trim_spec(query)) + r) == lowercase(name)),
{
    let q = lowercase(trim_spec(query));
    let h = lowercase(name);
    if q.len() > 0 {
        if contains_seq(h, q) {
            let i = choose|i: int| 0 <= i && i + q.len() <= h.len() && #[trigger] h.subrange(i, i + q.len()) == q;
            assert(h.take(i) + q + h.skip(i + q.len()) =~= h);
        }
        if exists|p: Seq<char>, r: Seq<char>| #[trigger] (p + q + r) == h {
            let (p, r) = choose|p: Seq<char>, r: Seq<char>| #[trigger] (p + q + r) == h;
            assert(h.subrange(p.len() as int, (p.len() + q.len()) as int) =~= q);
        }
    }
}

pub open spec fn bot_view() -> spec_fn(Bot) -> BotView {
    |b: Bot| b@
}

pub open spec fn bot_matches(search: Seq<char>) -> spec_fn(BotView) -> bool {
    |b: BotView| name_matches_spec(b.name, search)
}

/// Bots ordered by lower-cased name.
pub open spec fn bot_name_key() -> spec_fn(BotView) -> Seq<i64> {
    |b: BotView| char_codes(lowercase(b.name))
}

pub open spec fn bot_key() -> spec_fn(Bot) -> Seq<i64> {
    |b: Bot| char_codes(lowercase(b.name@))
}

/// Filters bots by name search, then sorts them alphabetically by their
/// lower-cased names (A–Z; stable), reversed when `sort_desc`.
pub fn filter_and_sort_bots(bots: &[Bot], search: &str, sort_desc: bool) -> (res: Vec<Bot>)
    ensures
        ({
            let views = res@.map_values(bot_view());
            let ascending = if sort_desc { views.reverse() } else { views };
            is_stable_sort_of(
                ascending,
                bots@.map_values(bot_view()).filter(bot_matches(search@)),
                bot_name_key(),
            )
        }),
{
    let ghost pred = bot_matches(search@);
    let mut kept: Vec<Bot> = Vec::new();
    let mut keys: Vec<Vec<i64>> = Vec::new();
    let mut i: usize = 0;
    while i < bots.len()
        invariant
            i <= bots.len(),
            pred == bot_matches(search@),
            kept@.map_values(bot_view()) == bots@.take(i as int).map_values(bot_view()).filter(pred),
            keys.len() == kept.len(),
            forall|j: int| 0 <= j < kept.len() ==> (#[trigger] keys[j])@ == bot_key()(kept@[j]),
        decreases bots.len() - i,
    {
        let ghost before = kept@;
        let keep = name_matches(bots[i].name.as_str(), search);
        proof {
            assert(bots@.take(i + 1).map_values(bot_view()) =~= bots@.take(i as int).map_values(
                bot_view(),
            ).push(bots@[i as int]@));
            bots@.take(i as int).map_values(bot_view()).lemma_filter_push(bots@[i as int]@, pred);
        }
        if keep {
            let c = bots[i].clone();
            let lower = c.name.to_lowercase();
            let k = char_codes_of(lower.as_str());
            kept.push(c);
            keys.push(k);
            assert(kept@.map_values(bot_view()) =~= before.map_values(bot_view()).push(bots@[i as int]@));
        }
        i = i + 1;
    }
    assert(bots@.take(bots.len() as int) =~= bots@);
    let ghost kept_all = kept@;
    let sorted = stable_sort_by_key(kept, keys, Ghost(bot_key()));
    proof {
        assert forall|b: Bot| #[trigger] bot_key()(b) == bot_name_key()(bot_view()(b)) by {}
        lemma_stable_sort_map(sorted@, kept_all, bot_view(), bot_name_key(), bot_key());
    }
    if sort_desc {
        let res = reversed(sorted);
        assert(res@.map_values(bot_view()).reverse() =~= sorted@.map_values(bot_view()));
        res
    } else {
        sorted
    }
}

/// Law: the Z–A list is the A–Z list reversed. Given what
/// `filter_and_sort_bots` ensures of an ascending call (`asc`) and of a
/// descending call (`desc`) on the same bots and search, the descending list
/// is the ascending one in reverse order.
pub proof fn lemma_descending_reverses_ascending(bots: Seq<Bot>, search: Seq<char>, asc: Seq<Bot>, desc: Seq<Bot>)
    requires
        is_stable_sort_of(asc.map_values(bot_view()), bots.map_values(bot_view()).filter(bot_matches(search)), bot_name_key()),
        is_stable_sort_of(
            desc.map_values(bot_view()).reverse(),
            bots.map_values(bot_view()).filter(bot_matches(search)),
            bot_name_key(),
        ),
    ensures
        desc.map_values(bot_view()) == asc.map_values(bot_view()).reverse(),
{
    let inp = bots.map_values(bot_view()).filter(bot_matches(search));
    let d = desc.map_values(bot_view());
    lemma_stable_sort_unique(asc.map_values(bot_view()), d.reverse(), inp, bot_name_key());
    assert(d.reverse().reverse() =~= d);
}

/// Law: the list is in name order. Without `sort_desc` the whole lower-cased
/// name of every bot comes no later in string order than those of the bots
/// after it; with `sort_desc` no earlier.
pub proof fn lemma_bots_in_name_order(bots: Seq<Bot>, search: Seq<char>, sort_desc: bool, res: Seq<Bot>)
    requires
        ({
            let views = res.map_values(bot_view());
            let ascending = if sort_desc { views.reverse() } else { views };
            is_stable_sort_of(ascending, bots.map_values(bot_view()).filter(bot_matches(search)), bot_name_key())
        }),
    ensures
        forall|i: int, j: int| #![trigger res[i], res[j]] 0 <= i < j < res.len() ==> if sort_desc {
            lex_le(char_codes(lowercase(res[j].name@)), char_codes(lowercase(res[i].name@)))
        } else {
            lex_le(char_codes(lowercase(res[i].name@)), char_codes(lowercase(res[j].name@)))
        },
{
    let views = res.map_values(bot_view());
    let n = res.len() as int;
    assert forall|i: int, j: int| #![trigger res[i], res[j]] 0 <= i < j < res.len() implies if sort_desc {
        lex_le(char_codes(lowercase(res[j].name@)), char_codes(lowercase(res[i].name@)))
    } else {
        lex_le(char_codes(lowercase(res[i].name@)), char_codes(lowercase(res[j].name@)))
    } by {
        assert(views[i] == res[i]@ && views[j] == res[j]@);
        if sort_desc {
            let r = views.reverse();
            assert(r[n - 1 - j] == views[j] && r[n - 1 - i] == views[i]);
            assert(lex_le(bot_name_key()(r[n - 1 - j]), bot_name_key()(r[n - 1 - i])));
        } else {
            assert(lex_le(bot_name_key()(views[i]), bot_name_key()(views[j])));
        }
    }
}

/// The card to expand after a click on `id`: clicking the expanded card
/// collapses it, clicking another card expands that one.
pub fn toggle_expanded(current: Option<String>, id: String) -> (res: Option<String>)
    ensures
        res == (if current matches Some(c) && c@ == id@ { None } else { Some(id) }),
{
    match current {
        Some(c) => {
            if crate::text::str_equal(c.as_str(), id.as_str()) {
                None
            } else {
                Some(id)
            }
        },
        None => Some(id),
    }
}

/// Law: an empty or whitespace-only query matches every name.
pub proof fn lemma_blank_query_matches(name: Seq<char>, query: Seq<char>)
    requires
        trim_spec(query).len() == 0,
    ensures
        name_matches_spec(name, query),
{
}

/// Law: with an empty or whitespace-only search every bot is kept, so the
/// list is only sorted.
pub proof fn lemma_blank_search_keeps_all(bots: Seq<BotView>, search: Seq<char>)
    requires
        trim_spec(search).len() == 0,
    ensures
        bots.filter(bot_matches(search)) == bots,
{
    assert forall|b: BotView| #[trigger] bot_matches(search)(b) by {
        lemma_blank_query_matches(b.name, search);
    }
    lemma_filter_keeps_all(bots, bot_matches(search));
}

} // verus!
