//! The scheduled-events service: its record types.
use vstd::prelude::*;
use moka::sync::Cache;
use crate::services::db::DiskKey;
use crate::services::l1::l1_invalidate;
use crate::services::source::CacheSource;
use crate::text::string_of;

verus! {

/// One scheduled in-game event. Times are epoch milliseconds.
#[derive(Debug, PartialEq, Eq)]
pub struct ScheduledEvent {
    pub name: String,
    pub map: String,
    pub icon: String,
    /// Epoch milliseconds.
    pub start_time: i64,
    /// Epoch milliseconds.
    pub end_time: i64,
}

impl Clone for ScheduledEvent {
    fn clone(&self) -> (res: Self)
        ensures
            res == *self,
    {
        ScheduledEvent {
            name: self.name.clone(),
            map: self.map.clone(),
            icon: self.icon.clone(),
            start_time: self.start_time,
            end_time: self.end_time,
        }
    }
}

/// The schedule as the API returns it: the events and the time the server
/// cached them.
#[derive(Debug)]
pub struct EventsSchedule {
    pub data: Vec<ScheduledEvent>,
    pub cached_at: i64,
}

impl Clone for EventsSchedule {
    fn clone(&self) -> (res: Self)
        ensures
            res.data@ == self.data@,
            res.cached_at == self.cached_at,
    {
        let data = self.data.clone();
        assert(data@ =~= self.data@);
        EventsSchedule { data, cached_at: self.cached_at }
    }
}

/// Time-to-live of both cache tiers, in seconds (15 minutes).
pub const CACHE_TTL_SECS: u64 = 900;

/// Key of the schedule in both cache tiers.
pub const EVENTS_CACHE_KEY: &'static str = "events_schedule";

/// Table of the schedule in the on-disk cache.
pub const EVENTS_TABLE: &'static str = "events";

/// The scheduled events with where they came from.
#[derive(Debug)]
pub struct EventsResult {
    pub events: Vec<ScheduledEvent>,
    pub cached_at: i64,
    pub source: CacheSource,
    pub count: usize,
    pub error: Option<String>,
}

/// The result of a load: the schedule's events, their count and its
/// `cached_at` from `source`, or, when the load failed, no events,
/// `cached_at` 0, source `Api` and the error.
pub fn events_result(outcome: Result<EventsSchedule, String>, source: CacheSource) -> (res: EventsResult)
    ensures
        match outcome {
            Ok(s) => res.events == s.data && res.cached_at == s.cached_at && res.source == source
                && res.count == s.data.len() && res.error is None,
            Err(e) => res.events@.len() == 0 && res.cached_at == 0 && res.source == CacheSource::Api
                && res.count == 0 && res.error == Some(e),
        },
{
    match outcome {
        Ok(s) => {
            let count = s.data.len();
            EventsResult { events: s.data, cached_at: s.cached_at, source, count, error: None }
        },
        Err(e) => EventsResult {
            events: Vec::new(),
            cached_at: 0,
            source: CacheSource::Api,
            count: 0,
            error: Some(e),
        },
    }
}

/// Invalidates the schedule in the in-memory cache and returns where it
/// lives on disk, for the caller to remove it there too.
pub fn invalidate_events_cache(l1: &Cache<String, EventsSchedule>) -> (res: DiskKey)
    ensures
        res.table@ == EVENTS_TABLE@,
        res.key@ == EVENTS_CACHE_KEY@,
{
    l1_invalidate(l1, &string_of(EVENTS_CACHE_KEY));
    DiskKey { table: EVENTS_TABLE, key: EVENTS_CACHE_KEY }
}

} // verus!
