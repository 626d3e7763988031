//! The event card: whether an event runs or waits, and its countdown text.
use vstd::prelude::*;
use crate::text::{two_digits, push_two_digits};

verus! {

/// Whether an event is currently running or has not started yet.
#[derive(Debug, Clone, Copy, PartialEq, Eq, Structural)]
pub enum EventState {
    Active,
    Upcoming,
}

impl EventState {
    /// CSS classes of the card: upcoming events carry the faded modifier.
    pub fn card_class(&self) -> (res: &'static str)
        ensures
            res@ == (match self {
                EventState::Active => "event-card"@,
                EventState::Upcoming => "event-card event-card--upcoming"@,
            }),
    {
        match self {
            EventState::Active => "event-card",
            EventState::Upcoming => "event-card event-card--upcoming",
        }
    }

    /// The words in front of the countdown.
    pub fn countdown_label(&self) -> (res: &'static str)
        ensures
            res@ == (match self {
                EventState::Active => "Ends in:"@,
                EventState::Upcoming => "Starts in:"@,
            }),
    {
        match self {
            EventState::Active => "Ends in:",
            EventState::Upcoming => "Starts in:",
        }
    }
}

/// The milliseconds the countdown shows: until the end of an active event,
/// until the start of an upcoming one.
pub open spec fn remaining_spec(state: EventState, now: i64, start_time: i64, end_time: i64) -> int {
    match state {
        EventState::Active => end_time - now,
        EventState::Upcoming => start_time - now,
    }
}

/// Milliseconds left on the countdown of a card.
pub fn remaining_ms(state: EventState, now: i64, start_time: i64, end_time: i64) -> (res: i64)
    requires
        i64::MIN <= remaining_spec(state, now, start_time, end_time) <= i64::MAX,
    ensures
        res == remaining_spec(state, now, start_time, end_time),
{
    match state {
        EventState::Active => end_time - now,
        EventState::Upcoming => start_time - now,
    }
}

/// `ms` as a fixed `HHh:MMm:SSs` countdown: whole seconds of `max(ms, 0)`,
/// split into hours, minutes and seconds, each zero-padded to two digits
/// (hours may use more).
pub open spec fn countdown_text(ms: i64) -> Seq<char> {
    let total: int = (if ms < 0 { 0 } else { ms as int }) / 1000;
    two_digits((total / 3600) as nat) + seq!['h', ':'] + two_digits(((total % 3600) / 60) as nat)
        + seq!['m', ':'] + two_digits((total % 60) as nat) + seq!['s']
}

/// Formats a remaining duration in milliseconds as a fixed-width
/// `HHh:MMm:SSs` countdown (e.g. `00h:16m:49s`). Negative inputs clamp to zero.
pub fn format_remaining(ms: i64) -> (res: String)
    ensures
        res@ == countdown_text(ms),
{
    let clamped: i64 = if ms < 0 { 0 } else { ms };
    let total: u64 = (clamped / 1000) as u64;
    let hours: u64 = total / 3600;
    let minutes: u64 = (total % 3600) / 60;
    let seconds: u64 = total % 60;
    let mut s = String::new();
    push_two_digits(&mut s, hours);
    s.push('h');
    s.push(':');
    push_two_digits(&mut s, minutes);
    s.push('m');
    s.push(':');
    push_two_digits(&mut s, seconds);
    s.push('s');
    assert(s@ =~= countdown_text(ms));
    s
}

/// Law: every duration under one second, negative ones included, shows as
/// `00h:00m:00s`.
pub proof fn lemma_sub_second_is_zero(ms: i64)
    requires
        ms < 1000,
    ensures
        countdown_text(ms) == seq!['0', '0', 'h', ':', '0', '0', 'm', ':', '0', '0', 's'],
{
    let total: int = (if ms < 0 { 0 } else { ms as int }) / 1000;
    assert(total == 0);
    assert(countdown_text(ms) =~= seq!['0', '0', 'h', ':', '0', '0', 'm', ':', '0', '0', 's']);
}

} // verus!
