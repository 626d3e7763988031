//! The Events page's multi-select chips: which chips are shown as active.
use vstd::prelude::*;
use crate::text::str_equal;

verus! {

/// `value` is one of the selected values.
pub open spec fn is_selected_value(selected: Seq<String>, value: Seq<char>) -> bool {
    exists|i: int| 0 <= i < selected.len() && #[trigger] selected[i]@ == value
}

/// The CSS class of a chip: active when its value is selected.
pub open spec fn chip_class_spec(selected: Seq<String>, value: Seq<char>) -> Seq<char> {
    if is_selected_value(selected, value) {
        "event-filters__chip event-filters__chip--active"@
    } else {
        "event-filters__chip"@
    }
}

/// Whether `value` is one of the selected values.
pub fn chip_is_active(selected: &[String], value: &str) -> (res: bool)
    ensures
        res == is_selected_value(selected@, value@),
{
    let mut i: usize = 0;
    while i < selected.len()
        invariant
            i <= selected.len(),
            forall|j: int| 0 <= j < i ==> (#[trigger] selected@[j])@ != value@,
        decreases selected.len() - i,
    {
        if str_equal(selected[i].as_str(), value) {
            assert(selected@[i as int]@ == value@);
            return true;
        }
        i = i + 1;
    }
    false
}

/// The CSS class of the chip for `value`, given the selected values.
pub fn chip_class(selected: &[String], value: &str) -> (res: &'static str)
    ensures
        res@ == chip_class_spec(selected@, value@),
{
    if chip_is_active(selected, value) {
        "event-filters__chip event-filters__chip--active"
    } else {
        "event-filters__chip"
    }
}

} // verus!
