//! Item and trader-item cards: the rarity colour class.
use vstd::prelude::*;
use crate::text::{chars_of, lowercase, push_str, string_of};

verus! {

/// `s` with every space replaced by a hyphen.
pub open spec fn hyphenate(s: Seq<char>) -> Seq<char> {
    s.map_values(|c: char| if c == ' ' { '-' } else { c })
}

/// The classes of a card: `"{block} {block}--{rarity}"`, the rarity
/// lower-cased with spaces turned into hyphens.
pub fn rarity_class(block: &str, rarity: &str) -> (res: String)
    ensures
        res@ == block@ + seq![' '] + block@ + seq!['-', '-'] + hyphenate(lowercase(rarity@)),
{
    let lower = rarity.to_lowercase();
    let cs = chars_of(lower.as_str());
    let mut s = string_of(block);
    s.push(' ');
    push_str(&mut s, block);
    s.push('-');
    s.push('-');
    let ghost prefix = s@;
    let mut i: usize = 0;
    while i < cs.len()
        invariant
            i <= cs.len(),
            cs@ == lowercase(rarity@),
            s@ == prefix + hyphenate(cs@.take(i as int)),
        decreases cs.len() - i,
    {
        let c = cs[i];
        s.push(if c == ' ' { '-' } else { c });
        assert(hyphenate(cs@.take(i + 1)) =~= hyphenate(cs@.take(i as int)).push(if c == ' ' { '-' } else { c }));
        i = i + 1;
    }
    assert(cs@.take(cs.len() as int) =~= cs@);
    assert(s@ =~= block@ + seq![' '] + block@ + seq!['-', '-'] + hyphenate(lowercase(rarity@)));
    s
}

} // verus!
