//! How the navbar shows its links.
use vstd::prelude::*;
use crate::text::{str_equal, string_of};

verus! {

/// The display mode for the navbar, controlling whether icons, text, or both are shown.
#[derive(Debug, Clone, Copy, PartialEq, Eq, Structural)]
pub enum NavbarDisplayMode {
    Icons,
    Text,
    Both,
}

impl NavbarDisplayMode {
    /// Returns all available display modes for use in dropdowns and selectors.
    pub fn all() -> (res: Vec<NavbarDisplayMode>)
        ensures
            res@ == seq![NavbarDisplayMode::Icons, NavbarDisplayMode::Text, NavbarDisplayMode::Both],
    {
        let res = vec![NavbarDisplayMode::Icons, NavbarDisplayMode::Text, NavbarDisplayMode::Both];
        assert(res@ =~= seq![NavbarDisplayMode::Icons, NavbarDisplayMode::Text, NavbarDisplayMode::Both]);
        res
    }

    pub open spec fn label_spec(self) -> Seq<char> {
        match self {
            NavbarDisplayMode::Icons => "Icons"@,
            NavbarDisplayMode::Text => "Text"@,
            NavbarDisplayMode::Both => "Both"@,
        }
    }

    /// Returns a human-readable label for the display mode.
    pub fn label(&self) -> (res: &'static str)
        ensures
            res@ == self.label_spec(),
    {
        match self {
            NavbarDisplayMode::Icons => "Icons",
            NavbarDisplayMode::Text => "Text",
            NavbarDisplayMode::Both => "Both",
        }
    }

    /// Returns whether icons should be visible in this mode.
    pub fn show_icons(&self) -> (res: bool)
        ensures
            res == (*self == NavbarDisplayMode::Icons || *self == NavbarDisplayMode::Both),
    {
        match self {
            NavbarDisplayMode::Icons | NavbarDisplayMode::Both => true,
            NavbarDisplayMode::Text => false,
        }
    }

    /// Returns whether text labels should be visible in this mode.
    pub fn show_text(&self) -> (res: bool)
        ensures
            res == (*self == NavbarDisplayMode::Text || *self == NavbarDisplayMode::Both),
    {
        match self {
            NavbarDisplayMode::Text | NavbarDisplayMode::Both => true,
            NavbarDisplayMode::Icons => false,
        }
    }

    /// The mode a dropdown choice stands for: `"Icons"`, `"Text"`, and
    /// `Both` for anything else.
    pub open spec fn from_label_spec(label: Seq<char>) -> NavbarDisplayMode {
        if label == "Icons"@ {
            NavbarDisplayMode::Icons
        } else if label == "Text"@ {
            NavbarDisplayMode::Text
        } else {
            NavbarDisplayMode::Both
        }
    }

    /// The mode selected in the settings dropdown.
    pub fn from_label(label: &str) -> (res: NavbarDisplayMode)
        ensures
            res == Self::from_label_spec(label@),
    {
        if str_equal(label, "Icons") {
            NavbarDisplayMode::Icons
        } else if str_equal(label, "Text") {
            NavbarDisplayMode::Text
        } else {
            NavbarDisplayMode::Both
        }
    }

    /// The text the mode is displayed as: its label.
    pub fn to_string(&self) -> (res: String)
        ensures
            res@ == self.label_spec(),
    {
        string_of(self.label())
    }
}

/// The options of the navbar-mode dropdown: each mode's label as both value
/// and display text, in the order of `all()`.
pub fn navbar_options() -> (res: Vec<(String, String)>)
    ensures
        res@.len() == 3,
        forall|i: int| 0 <= i < 3 ==> {
            let m = seq![NavbarDisplayMode::Icons, NavbarDisplayMode::Text, NavbarDisplayMode::Both][i];
            (#[trigger] res@[i]).0@ == m.label_spec() && res@[i].1@ == m.label_spec()
        },
{
    let modes = NavbarDisplayMode::all();
    let mut res: Vec<(String, String)> = Vec::new();
    let mut i: usize = 0;
    while i < modes.len()
        invariant
            i <= modes.len(),
            modes@ == seq![NavbarDisplayMode::Icons, NavbarDisplayMode::Text, NavbarDisplayMode::Both],
            res.len() == i,
            forall|k: int| 0 <= k < i ==> (#[trigger] res@[k]).0@ == modes@[k].label_spec() && res@[k].1@
                == modes@[k].label_spec(),
        decreases modes.len() - i,
    {
        let l = modes[i].label();
        res.push((string_of(l), string_of(l)));
        i = i + 1;
    }
    res
}

/// Law: choosing a mode's label in the settings dropdown selects that mode.
pub proof fn lemma_label_round_trip(mode: NavbarDisplayMode)
    ensures
        NavbarDisplayMode::from_label_spec(mode.label_spec()) == mode,
{
    reveal_strlit("Icons");
    reveal_strlit("Text");
    reveal_strlit("Both");
    assert("Text"@.len() != "Icons"@.len());
    assert("Both"@.len() != "Icons"@.len());
    assert("Both"@[0] != "Text"@[0]);
}

} // verus!
