//! Which tier of the cache cascade served a piece of data, and the state of
//! each tier for a key at probe time.
use vstd::prelude::*;
use crate::text::{decimal, push_decimal, push_str, string_of};

verus! {

/// Which tier of the cache cascade served a piece of data.
#[derive(Debug, Clone, Copy, PartialEq, Eq, Structural)]
pub enum CacheSource {
    /// Fetched live from the MetaForge API.
    Api,
    /// Served from the in-memory L1 cache.
    Memory,
    /// Served from the on-disk L2 cache (fresh or stale).
    Disk,
    /// Traders' hardcoded fallback list (API and both caches unavailable).
    Fallback,
}

impl CacheSource {
    /// Human-readable label of each tier.
    pub open spec fn label_spec(self) -> Seq<char> {
        match self {
            CacheSource::Api => "API"@,
            CacheSource::Memory => "Memory"@,
            CacheSource::Disk => "Disk"@,
            CacheSource::Fallback => "Fallback"@,
        }
    }

    /// Human-readable label for the UI badge.
    pub fn label(&self) -> (res: &'static str)
        ensures
            res@ == self.label_spec(),
    {
        match self {
            CacheSource::Api => "API",
            CacheSource::Memory => "Memory",
            CacheSource::Disk => "Disk",
            CacheSource::Fallback => "Fallback",
        }
    }

    /// CSS modifier of each tier.
    pub open spec fn css_class_spec(self) -> Seq<char> {
        match self {
            CacheSource::Api => "api"@,
            CacheSource::Memory => "memory"@,
            CacheSource::Disk => "disk"@,
            CacheSource::Fallback => "fallback"@,
        }
    }

    /// CSS modifier suffix for the `cache-badge--{}` class.
    pub fn css_class(&self) -> (res: &'static str)
        ensures
            res@ == self.css_class_spec(),
    {
        match self {
            CacheSource::Api => "api",
            CacheSource::Memory => "memory",
            CacheSource::Disk => "disk",
            CacheSource::Fallback => "fallback",
        }
    }

    /// The text the tier is displayed as: its label.
    pub fn to_string(&self) -> (res: String)
        ensures
            res@ == self.label_spec(),
    {
        string_of(self.label())
    }
}

/// State of the in-memory (L1) cache for a given key, at probe time.
#[derive(Debug, Clone, Copy, PartialEq, Eq, Structural)]
pub enum L1State {
    Hit,
    Miss,
}

impl L1State {
    pub open spec fn label_spec(self) -> Seq<char> {
        match self {
            L1State::Hit => "hit"@,
            L1State::Miss => "miss"@,
        }
    }

    /// Lowercase label for the diagnostic pill text.
    pub fn label(&self) -> (res: &'static str)
        ensures
            res@ == self.label_spec(),
    {
        match self {
            L1State::Hit => "hit",
            L1State::Miss => "miss",
        }
    }

    /// CSS modifier suffix for the `cache-pill--{}` class (same string as the label).
    pub fn css_class(&self) -> (res: &'static str)
        ensures
            res@ == self.label_spec(),
    {
        self.label()
    }

    /// The classes of the diagnostic pill: `cache-pill cache-pill--{css_class}`.
    pub fn pill_class(&self) -> (res: String)
        ensures
            res@ == "cache-pill cache-pill--"@ + self.label_spec(),
    {
        let mut s = string_of("cache-pill cache-pill--");
        push_str(&mut s, self.css_class());
        s
    }
}

/// State of the on-disk (L2) cache for a given key, at probe time.
#[derive(Debug, Clone, Copy, PartialEq, Eq, Structural)]
pub enum L2State {
    Fresh,
    Stale,
    Miss,
}

impl L2State {
    pub open spec fn label_spec(self) -> Seq<char> {
        match self {
            L2State::Fresh => "fresh"@,
            L2State::Stale => "stale"@,
            L2State::Miss => "miss"@,
        }
    }

    /// Lowercase label for the diagnostic pill text.
    pub fn label(&self) -> (res: &'static str)
        ensures
            res@ == self.label_spec(),
    {
        match self {
            L2State::Fresh => "fresh",
            L2State::Stale => "stale",
            L2State::Miss => "miss",
        }
    }

    /// CSS modifier suffix for the `cache-pill--{}` class (same string as the label).
    pub fn css_class(&self) -> (res: &'static str)
        ensures
            res@ == self.label_spec(),
    {
        self.label()
    }

    /// The classes of the diagnostic pill: `cache-pill cache-pill--{css_class}`.
    pub fn pill_class(&self) -> (res: String)
        ensures
            res@ == "cache-pill cache-pill--"@ + self.label_spec(),
    {
        let mut s = string_of("cache-pill cache-pill--");
        push_str(&mut s, self.css_class());
        s
    }
}

/// The pre-load state of both cache tiers for a key.
#[derive(Debug, Clone, Copy, PartialEq, Eq, Structural)]
pub struct CacheState {
    pub l1: L1State,
    pub l2: L2State,
}

/// The separator between the parts of a badge: space, middle dot, space.
pub open spec fn badge_separator() -> Seq<char> {
    seq![' ', '\u{b7}', ' ']
}

/// Text of the cache badge: an optional `"{label}: "` prefix, the tier's
/// label, then `" · {count}"` and `" · {error}"` when present.
pub open spec fn badge_text_spec(
    source: CacheSource,
    count: Option<usize>,
    label: Option<Seq<char>>,
    error: Option<Seq<char>>,
) -> Seq<char> {
    (match label {
        Some(l) => l + seq![':', ' '],
        None => Seq::empty(),
    }) + source.label_spec() + (match count {
        Some(c) => badge_separator() + decimal(c as nat),
        None => Seq::empty(),
    }) + (match error {
        Some(e) => badge_separator() + e,
        None => Seq::empty(),
    })
}

fn push_separator(s: &mut String)
    ensures
        final(s)@ == old(s)@ + badge_separator(),
{
    s.push(' ');
    s.push('\u{b7}');
    s.push(' ');
    assert(final(s)@ =~= old(s)@ + badge_separator());
}

/// The text of the small chip showing which cache tier served some data.
pub fn cache_badge_text(
    source: CacheSource,
    count: Option<usize>,
    label: &Option<String>,
    error: &Option<String>,
) -> (res: String)
    ensures
        res@ == badge_text_spec(
            source,
            count,
            match label {
                Some(l) => Some(l@),
                None => None,
            },
            match error {
                Some(e) => Some(e@),
                None => None,
            },
        ),
{
    let mut text = String::new();
    let ghost mut expected: Seq<char> = Seq::empty();
    match label {
        Some(l) => {
            push_str(&mut text, l.as_str());
            text.push(':');
            text.push(' ');
            proof {
                expected = l@ + seq![':', ' '];
            }
        },
        None => {},
    }
    assert(text@ =~= expected);
    push_str(&mut text, source.label());
    proof {
        expected = expected + source.label_spec();
    }
    match count {
        Some(c) => {
            push_separator(&mut text);
            push_decimal(&mut text, c as u64);
            proof {
                expected = expected + (badge_separator() + decimal(c as nat));
            }
        },
        None => {
            proof {
                expected = expected + Seq::<char>::empty();
            }
        },
    }
    assert(text@ =~= expected);
    match error {
        Some(e) => {
            push_separator(&mut text);
            push_str(&mut text, e.as_str());
            proof {
                expected = expected + (badge_separator() + e@);
            }
        },
        None => {
            proof {
                expected = expected + Seq::<char>::empty();
            }
        },
    }
    assert(text@ =~= expected);
    text
}

/// The classes of the cache badge: `cache-badge cache-badge--{css_class}`.
pub fn cache_badge_class(source: CacheSource) -> (res: String)
    ensures
        res@ == "cache-badge cache-badge--"@ + source.css_class_spec(),
{
    let mut s = string_of("cache-badge cache-badge--");
    push_str(&mut s, source.css_class());
    s
}

} // verus!
