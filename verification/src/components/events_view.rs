//! The events list: which events are shown, in which order.
use vstd::prelude::*;
use crate::components::event_card::EventState;
use crate::services::events::ScheduledEvent;
use crate::sorting::{is_stable_sort_of, lemma_lex_le_single, lemma_stable_sort_permutes, stable_sort_by_key};

verus! {

/// The event has ended at `now` (its end is not after `now`).
pub open spec fn is_expired(e: ScheduledEvent, now: i64) -> bool {
    e.end_time <= now
}

/// The event runs at `now`.
pub open spec fn is_active(e: ScheduledEvent, now: i64) -> bool {
    !is_expired(e, now) && e.start_time <= now
}

/// The event starts after `now`.
pub open spec fn is_upcoming(e: ScheduledEvent, now: i64) -> bool {
    !is_expired(e, now) && now < e.start_time
}

pub open spec fn active_at(now: i64) -> spec_fn(ScheduledEvent) -> bool {
    |e: ScheduledEvent| is_active(e, now)
}

pub open spec fn upcoming_at(now: i64) -> spec_fn(ScheduledEvent) -> bool {
    |e: ScheduledEvent| is_upcoming(e, now)
}

/// Active events are ordered by their end time.
pub open spec fn end_key() -> spec_fn(ScheduledEvent) -> Seq<i64> {
    |e: ScheduledEvent| seq![e.end_time]
}

/// Upcoming events are ordered by their start time.
pub open spec fn start_key() -> spec_fn(ScheduledEvent) -> Seq<i64> {
    |e: ScheduledEvent| seq![e.start_time]
}

pub open spec fn event_of() -> spec_fn((ScheduledEvent, EventState)) -> ScheduledEvent {
    |p: (ScheduledEvent, EventState)| p.0
}

/// `res` lists the events that run at `now`, tagged `Active` and stably
/// sorted by end time, then those that start later, tagged `Upcoming` and
/// stably sorted by start time; expired events are left out.
pub open spec fn is_partition_of(res: Seq<(ScheduledEvent, EventState)>, events: Seq<ScheduledEvent>, now: i64) -> bool {
    let active = events.filter(active_at(now));
    let upcoming = events.filter(upcoming_at(now));
    &&& res.len() == active.len() + upcoming.len()
    &&& forall|i: int| 0 <= i < active.len() ==> (#[trigger] res[i]).1 == EventState::Active
    &&& forall|i: int| active.len() <= i < res.len() ==> (#[trigger] res[i]).1 == EventState::Upcoming
    &&& is_stable_sort_of(res.take(active.len() as int).map_values(event_of()), active, end_key())
    &&& is_stable_sort_of(res.skip(active.len() as int).map_values(event_of()), upcoming, start_key())
}

/// Partitions events relative to `now` (epoch ms): drops expired events
/// (`end_time <= now`), lists active events first (stably sorted by
/// `end_time` ascending), then upcoming events (stably sorted by
/// `start_time` ascending).
pub fn partition_events(events: &[ScheduledEvent], now: i64) -> (res: Vec<(ScheduledEvent, EventState)>)
    ensures
        is_partition_of(res@, events@, now),
{
    let mut active: Vec<ScheduledEvent> = Vec::new();
    let mut active_keys: Vec<Vec<i64>> = Vec::new();
    let mut upcoming: Vec<ScheduledEvent> = Vec::new();
    let mut upcoming_keys: Vec<Vec<i64>> = Vec::new();
    let mut i: usize = 0;
    while i < events.len()
        invariant
            i <= events.len(),
            active@ == events@.take(i as int).filter(active_at(now)),
            upcoming@ == events@.take(i as int).filter(upcoming_at(now)),
            active_keys.len() == active.len(),
            upcoming_keys.len() == upcoming.len(),
            forall|j: int| 0 <= j < active.len() ==> (#[trigger] active_keys[j])@ == end_key()(active[j]),
            forall|j: int| 0 <= j < upcoming.len() ==> (#[trigger] upcoming_keys[j])@ == start_key()(upcoming[j]),
        decreases events.len() - i,
    {
        let e = &events[i];
        proof {
            assert(events@.take(i + 1) =~= events@.take(i as int).push(events@[i as int]));
            events@.take(i as int).lemma_filter_push(events@[i as int], active_at(now));
            events@.take(i as int).lemma_filter_push(events@[i as int], upcoming_at(now));
        }
        if e.end_time <= now {
        } else if e.start_time <= now {
            active.push(e.clone());
            active_keys.push(vec![e.end_time]);
            assert(active_keys[active_keys.len() - 1]@ =~= seq![e.end_time]);
        } else {
            upcoming.push(e.clone());
            upcoming_keys.push(vec![e.start_time]);
            assert(upcoming_keys[upcoming_keys.len() - 1]@ =~= seq![e.start_time]);
        }
        i = i + 1;
    }
    assert(events@.take(events.len() as int) =~= events@);
    let ghost active_all = active@;
    let ghost upcoming_all = upcoming@;
    let sorted_active = stable_sort_by_key(active, active_keys, Ghost(end_key()));
    let sorted_upcoming = stable_sort_by_key(upcoming, upcoming_keys, Ghost(start_key()));
    let mut res: Vec<(ScheduledEvent, EventState)> = Vec::new();
    let mut j: usize = 0;
    while j < sorted_active.len()
        invariant
            j <= sorted_active.len(),
            res.len() == j,
            forall|k: int| 0 <= k < j ==> #[trigger] res@[k] == (sorted_active@[k], EventState::Active),
        decreases sorted_active.len() - j,
    {
        res.push((sorted_active[j].clone(), EventState::Active));
        j = j + 1;
    }
    let n_active = j;
    let mut j: usize = 0;
    while j < sorted_upcoming.len()
        invariant
            j <= sorted_upcoming.len(),
            n_active == sorted_active.len(),
            res.len() == n_active + j,
            forall|k: int| 0 <= k < n_active ==> #[trigger] res@[k] == (sorted_active@[k], EventState::Active),
            forall|k: int| 0 <= k < j ==> #[trigger] res@[n_active + k] == (sorted_upcoming@[k], EventState::Upcoming),
        decreases sorted_upcoming.len() - j,
    {
        res.push((sorted_upcoming[j].clone(), EventState::Upcoming));
        j = j + 1;
    }
    proof {
        assert(res@.take(n_active as int).map_values(event_of()) =~= sorted_active@);
        assert forall|k: int| 0 <= k < sorted_upcoming.len() implies res@.skip(n_active as int)[k] == (sorted_upcoming@[k], EventState::Upcoming) by {
            assert(res@[n_active + k] == (sorted_upcoming@[k], EventState::Upcoming));
        }
        assert(res@.skip(n_active as int).map_values(event_of()) =~= sorted_upcoming@);
        assert forall|i: int| n_active <= i < res.len() implies (#[trigger] res@[i]).1 == EventState::Upcoming by {
            assert(res@[n_active + (i - n_active)] == (sorted_upcoming@[i - n_active], EventState::Upcoming));
        }
    }
    res
}

proof fn lemma_member_of_filter(s: Seq<ScheduledEvent>, p: spec_fn(ScheduledEvent) -> bool, out: Seq<ScheduledEvent>, key: spec_fn(ScheduledEvent) -> Seq<i64>, i: int)
    requires
        is_stable_sort_of(out, s.filter(p), key),
        0 <= i < out.len(),
    ensures
        p(out[i]),
{
    broadcast use vstd::seq_lib::group_to_multiset_ensures;

    lemma_stable_sort_permutes(out, s.filter(p), key);
    assert(out.contains(out[i]));
    assert(out.to_multiset().count(out[i]) > 0);
    assert(s.filter(p).contains(out[i]));
    let j = choose|j: int| 0 <= j < s.filter(p).len() && s.filter(p)[j] == out[i];
    s.lemma_filter_pred(p, j);
}

/// Law: the list only shows live events. An event tagged `Active` runs at
/// `now`, one tagged `Upcoming` starts after `now`; none has ended.
pub proof fn lemma_partition_shows_live_events(res: Seq<(ScheduledEvent, EventState)>, events: Seq<ScheduledEvent>, now: i64)
    requires
        is_partition_of(res, events, now),
    ensures
        forall|i: int| 0 <= i < res.len() ==> !is_expired(#[trigger] res[i].0, now) && (res[i].1
            == EventState::Active ==> is_active(res[i].0, now)) && (res[i].1 == EventState::Upcoming
            ==> is_upcoming(res[i].0, now)),
{
    let na = events.filter(active_at(now)).len() as int;
    assert forall|i: int| 0 <= i < res.len() implies !is_expired(#[trigger] res[i].0, now) && (res[i].1
        == EventState::Active ==> is_active(res[i].0, now)) && (res[i].1 == EventState::Upcoming
        ==> is_upcoming(res[i].0, now)) by {
        if i < na {
            let out = res.take(na).map_values(event_of());
            assert(out[i] == res[i].0);
            lemma_member_of_filter(events, active_at(now), out, end_key(), i);
        } else {
            let out = res.skip(na).map_values(event_of());
            assert(out[i - na] == res[i].0);
            lemma_member_of_filter(events, upcoming_at(now), out, start_key(), i - na);
        }
    }
}


/// Law: the list's order. Active events come before upcoming ones; among
/// the active events each ends no later than the ones listed after it, and
/// among the upcoming events each starts no later than the ones after it.
pub proof fn lemma_partition_order(res: Seq<(ScheduledEvent, EventState)>, events: Seq<ScheduledEvent>, now: i64)
    requires
        is_partition_of(res, events, now),
    ensures
        forall|i: int, j: int| #![trigger res[i], res[j]] 0 <= i < j < res.len() ==> {
            &&& (res[i].1 == EventState::Upcoming ==> res[j].1 == EventState::Upcoming)
            &&& (res[i].1 == EventState::Active && res[j].1 == EventState::Active ==> res[i].0.end_time
                <= res[j].0.end_time)
            &&& (res[i].1 == EventState::Upcoming && res[j].1 == EventState::Upcoming
                ==> res[i].0.start_time <= res[j].0.start_time)
        },
{
    let na = events.filter(active_at(now)).len() as int;
    let act = res.take(na).map_values(event_of());
    let upc = res.skip(na).map_values(event_of());
    assert forall|i: int, j: int| #![trigger res[i], res[j]] 0 <= i < j < res.len() implies {
        &&& (res[i].1 == EventState::Upcoming ==> res[j].1 == EventState::Upcoming)
        &&& (res[i].1 == EventState::Active && res[j].1 == EventState::Active ==> res[i].0.end_time
            <= res[j].0.end_time)
        &&& (res[i].1 == EventState::Upcoming && res[j].1 == EventState::Upcoming ==> res[i].0.start_time
            <= res[j].0.start_time)
    } by {
        if j < na {
            assert(act[i] == res[i].0 && act[j] == res[j].0);
            assert(end_key()(act[i]) =~= seq![res[i].0.end_time]);
            assert(end_key()(act[j]) =~= seq![res[j].0.end_time]);
            lemma_lex_le_single(res[i].0.end_time, res[j].0.end_time);
        } else if na <= i {
            assert(upc[i - na] == res[i].0 && upc[j - na] == res[j].0);
            assert(start_key()(upc[i - na]) =~= seq![res[i].0.start_time]);
            assert(start_key()(upc[j - na]) =~= seq![res[j].0.start_time]);
            lemma_lex_le_single(res[i].0.start_time, res[j].0.start_time);
        }
    }
}

} // verus!
