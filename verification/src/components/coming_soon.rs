//! The "Coming Soon" card: its subtitle.
use vstd::prelude::*;
use crate::text::{string_of, trim_spec};

verus! {

/// The subtitle shown when none (or only white space) is given.
pub const DEFAULT_SUBTITLE: &'static str = "This feature is in development.";

/// Returns the subtitle to display: the provided text, or the default copy
/// when `subtitle` is `None` or blank (only white space).
pub fn resolve_subtitle(subtitle: &Option<String>) -> (res: String)
    ensures
        res@ == (match subtitle {
            Some(s) => if trim_spec(s@).len() > 0 { s@ } else { DEFAULT_SUBTITLE@ },
            None => DEFAULT_SUBTITLE@,
        }),
{
    match subtitle {
        Some(s) => {
            if !s.as_str().trim().is_empty() {
                s.clone()
            } else {
                string_of(DEFAULT_SUBTITLE)
            }
        },
        None => string_of(DEFAULT_SUBTITLE),
    }
}

} // verus!
