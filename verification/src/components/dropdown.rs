//! The dropdown: the label shown for the selected value.
use vstd::prelude::*;
use crate::text::str_equal;

verus! {

/// The label of the first option whose value is `selected`, or `selected`
/// itself when no option has that value.
pub open spec fn selected_label_spec(options: Seq<(String, String)>, selected: Seq<char>) -> Seq<char>
    decreases options.len(),
{
    if options.len() == 0 {
        selected
    } else if options[0].0@ == selected {
        options[0].1@
    } else {
        selected_label_spec(options.drop_first(), selected)
    }
}

/// Finds the display label for the currently selected value.
pub fn selected_label(options: &[(String, String)], selected: &str) -> (res: String)
    ensures
        res@ == selected_label_spec(options@, selected@),
{
    let mut i: usize = 0;
    assert(options@.skip(0) =~= options@);
    while i < options.len()
        invariant
            i <= options.len(),
            selected_label_spec(options@, selected@) == selected_label_spec(options@.skip(i as int), selected@),
        decreases options.len() - i,
    {
        if str_equal(options[i].0.as_str(), selected) {
            return options[i].1.clone();
        }
        assert(options@.skip(i as int).drop_first() =~= options@.skip(i + 1));
        i = i + 1;
    }
    crate::text::string_of(selected)
}

} // verus!
