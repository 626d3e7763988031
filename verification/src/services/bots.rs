//! The bots ("Arcs") service: the bot record and where a load came from.
use vstd::prelude::*;
use moka::sync::Cache;
use crate::services::cascade::{served_source, served_source_spec, Tier};
use crate::services::source::CacheSource;
use crate::services::db::DiskKey;
use crate::services::l1::l1_invalidate;
use crate::text::string_of;
use crate::services::items::{opt_view, clone_opt};

verus! {

/// A bot ("Arc") as the app shows it.
#[derive(Debug)]
pub struct Bot {
    pub id: String,
    pub name: String,
    /// Description paragraphs, if any.
    pub description: Option<Vec<String>>,
    pub icon: Option<String>,
    pub image: Option<String>,
}

/// The contents of a `Bot`, its strings as character sequences.
pub ghost struct BotView {
    pub id: Seq<char>,
    pub name: Seq<char>,
    pub description: Option<Seq<Seq<char>>>,
    pub icon: Option<Seq<char>>,
    pub image: Option<Seq<char>>,
}

/// The characters of each string of an optional list.
pub open spec fn opt_list_view(s: Option<Vec<String>>) -> Option<Seq<Seq<char>>> {
    match s {
        Some(v) => Some(v@.map_values(|x: String| x@)),
        None => None,
    }
}

impl View for Bot {
    type V = BotView;

    open spec fn view(&self) -> BotView {
        BotView {
            id: self.id@,
            name: self.name@,
            description: opt_list_view(self.description),
            icon: opt_view(self.icon),
            image: opt_view(self.image),
        }
    }
}

impl Clone for Bot {
    fn clone(&self) -> (res: Self)
        ensures
            res@ == self@,
    {
        let description = match &self.description {
            Some(v) => {
                let c = v.clone();
                assert(c@ =~= v@);
                Some(c)
            },
            None => None,
        };
        Bot {
            id: self.id.clone(),
            name: self.name.clone(),
            description,
            icon: clone_opt(&self.icon),
            image: clone_opt(&self.image),
        }
    }
}

/// Time-to-live of both cache tiers, in seconds (15 minutes).
pub const CACHE_TTL_SECS: u64 = 900;

/// Key of the bot list in both cache tiers.
pub const BOTS_CACHE_KEY: &'static str = "all_bots";

/// Table of the bot list in the on-disk cache.
pub const BOTS_TABLE: &'static str = "bots";

/// The two labels a bot list's origin can be displayed with: fetched from
/// the API, or taken from a cache.
#[derive(Debug, Clone, Copy, PartialEq, Eq, Structural)]
pub enum DataSource {
    Api,
    Cache,
}

impl DataSource {
    pub open spec fn text_spec(self) -> Seq<char> {
        match self {
            DataSource::Api => "API"@,
            DataSource::Cache => "Cache"@,
        }
    }

    /// The text the source is displayed as.
    pub fn to_string(&self) -> (res: String)
        ensures
            res@ == self.text_spec(),
    {
        match self {
            DataSource::Api => string_of("API"),
            DataSource::Cache => string_of("Cache"),
        }
    }
}

/// Which tier served a load of the bot list: `Memory` when the value was
/// already in the in-memory cache, `Disk` for a fresh or stale on-disk entry,
/// `Api` when it was fetched or when this caller waited on another caller's
/// load; the same tiers as every other service reports.
pub fn bots_source(is_fresh: bool, loaded: Option<Tier>) -> (res: CacheSource)
    ensures
        res == served_source_spec(is_fresh, loaded),
{
    served_source(is_fresh, loaded)
}

/// The bot list with where it came from.
#[derive(Debug)]
pub struct BotsResult {
    pub bots: Vec<Bot>,
    pub source: CacheSource,
    pub count: usize,
    pub error: Option<String>,
}

/// The result of a load: the bots and their count from `source`, or, when
/// the load failed, no bots, source `Api` and the error.
pub fn bots_result(outcome: Result<Vec<Bot>, String>, source: CacheSource) -> (res: BotsResult)
    ensures
        match outcome {
            Ok(bots) => res.bots == bots && res.source == source && res.count == bots.len()
                && res.error is None,
            Err(e) => res.bots@.len() == 0 && res.source == CacheSource::Api && res.count == 0
                && res.error == Some(e),
        },
{
    match outcome {
        Ok(bots) => {
            let count = bots.len();
            BotsResult { bots, source, count, error: None }
        },
        Err(e) => BotsResult { bots: Vec::new(), source: CacheSource::Api, count: 0, error: Some(e) },
    }
}

/// Invalidates the bot list in the in-memory cache and returns where it
/// lives on disk, for the caller to remove it there too.
pub fn invalidate_bots_cache(l1: &Cache<String, Vec<Bot>>) -> (res: DiskKey)
    ensures
        res.table@ == BOTS_TABLE@,
        res.key@ == BOTS_CACHE_KEY@,
{
    l1_invalidate(l1, &string_of(BOTS_CACHE_KEY));
    DiskKey { table: BOTS_TABLE, key: BOTS_CACHE_KEY }
}

} // verus!
