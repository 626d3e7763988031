//! The trader selector: which trader names the dropdown offers.
use vstd::prelude::*;
use crate::services::traders::{fallback_trader_names, strings_view, trader_names_spec};

verus! {

/// Each name as a `(value, label)` option.
pub open spec fn name_options(names: Seq<Seq<char>>) -> Seq<(Seq<char>, Seq<char>)> {
    names.map_values(|n: Seq<char>| (n, n))
}

pub open spec fn options_view(s: Seq<(String, String)>) -> Seq<(Seq<char>, Seq<char>)> {
    s.map_values(|p: (String, String)| (p.0@, p.1@))
}

/// Returns the fallback trader names as `(value, label)` options: the names
/// the traders service falls back to.
pub fn fallback_options() -> (res: Vec<(String, String)>)
    ensures
        options_view(res@) == name_options(trader_names_spec()),
{
    let names = fallback_trader_names();
    let mut res: Vec<(String, String)> = Vec::new();
    let mut i: usize = 0;
    while i < names.len()
        invariant
            i <= names.len(),
            strings_view(names@) == trader_names_spec(),
            options_view(res@) == name_options(trader_names_spec().take(i as int)),
        decreases names.len() - i,
    {
        let ghost before = res@;
        res.push((names[i].clone(), names[i].clone()));
        assert(strings_view(names@)[i as int] == names@[i as int]@);
        assert(options_view(res@) =~= options_view(before).push((names@[i as int]@, names@[i as int]@)));
        assert(trader_names_spec().take(i + 1) =~= trader_names_spec().take(i as int).push(
            trader_names_spec()[i as int],
        ));
        i = i + 1;
    }
    assert(trader_names_spec().take(names.len() as int) =~= trader_names_spec());
    res
}

/// The dropdown options: each loaded name as `(name, name)`, or the fallback
/// options when no names were loaded.
pub fn trader_options(names: &[String]) -> (res: Vec<(String, String)>)
    ensures
        options_view(res@) == (if names@.len() == 0 {
            name_options(trader_names_spec())
        } else {
            name_options(names@.map_values(|s: String| s@))
        }),
{
    if names.len() == 0 {
        return fallback_options();
    }
    let mut res: Vec<(String, String)> = Vec::new();
    let mut i: usize = 0;
    while i < names.len()
        invariant
            i <= names.len(),
            options_view(res@) == name_options(names@.take(i as int).map_values(|s: String| s@)),
        decreases names.len() - i,
    {
        let ghost before = res@;
        res.push((names[i].clone(), names[i].clone()));
        assert(options_view(res@) =~= options_view(before).push((names@[i as int]@, names@[i as int]@)));
        assert(names@.take(i + 1).map_values(|s: String| s@) =~= names@.take(i as int).map_values(
            |s: String| s@,
        ).push(names@[i as int]@));
        i = i + 1;
    }
    assert(names@.take(names.len() as int) =~= names@);
    res
}

} // verus!
