//! Freshness rules of the persistent (L2) cache.
//!
//! Every stored value carries the unix time (seconds) at which it was
//! written. A read serves an entry only while its age `now - cached_at` lies
//! between zero and the time-to-live, so an entry stamped in the future
//! (clock skew) is not served as fresh. The state probe shown in the cache
//! diagnostic reports `Fresh` whenever the age is at most the time-to-live.
use vstd::prelude::*;
use std::time::{Duration, SystemTime};
use crate::services::source::L2State;

verus! {

#[verifier::external_type_specification]
#[verifier::external_body]
pub struct ExSystemTime(SystemTime);

/// `SystemTime::now`: the current wall-clock time. Nothing is stated of it;
/// it depends on the machine's clock.
#[verifier::external_body]
fn clock_now() -> SystemTime {
    SystemTime::now()
}

/// `SystemTime::duration_since(UNIX_EPOCH)`: the time elapsed since the
/// epoch, `None` when `t` lies before it. Nothing is stated of the value.
#[verifier::external_body]
fn since_epoch(t: &SystemTime) -> Option<Duration> {
    t.duration_since(std::time::UNIX_EPOCH).ok()
}

/// `Duration::as_secs`: the whole seconds of `d`. Nothing is stated of the
/// value, as `d` is opaque here.
#[verifier::external_body]
fn whole_secs(d: &Duration) -> u64 {
    d.as_secs()
}

/// A clock reading in unix seconds as an `i64`: the whole seconds since the
/// epoch (cast, as Rust's `as` does), or 0 for a clock before the epoch.
pub open spec fn secs_or_zero_spec(s: Option<u64>) -> i64 {
    match s {
        Some(x) => x as i64,
        None => 0,
    }
}

/// Turns the whole seconds since the epoch (`None` before the epoch) into the
/// `i64` timestamp stored in cache entries.
pub fn secs_or_zero(s: Option<u64>) -> (r: i64)
    ensures
        r == secs_or_zero_spec(s),
{
    match s {
        Some(x) => {
            #[verifier::truncate]
            (x as i64)
        },
        None => 0,
    }
}

/// The whole seconds elapsed since the epoch on the machine's clock, `None`
/// when the clock reads a time before the epoch.
fn epoch_secs() -> Option<u64> {
    match since_epoch(&clock_now()) {
        Some(d) => Some(whole_secs(&d)),
        None => None,
    }
}

/// Current unix time in whole seconds (0 if the clock is before the epoch).
/// The reading itself comes from the machine's clock.
pub fn now_secs() -> (r: i64)
    ensures
        exists|s: Option<u64>| r == #[trigger] secs_or_zero_spec(s),
{
    let s = epoch_secs();
    let r = secs_or_zero(s);
    assert(r == secs_or_zero_spec(s));
    r
}

/// Where an entry lives in the on-disk cache: its table and key.
pub struct DiskKey {
    pub table: &'static str,
    pub key: &'static str,
}

/// `a - b`, clamped to the range of `i64`.
pub open spec fn saturating_diff(a: i64, b: i64) -> int {
    let d = a - b;
    if d > i64::MAX {
        i64::MAX as int
    } else if d < i64::MIN {
        i64::MIN as int
    } else {
        d
    }
}

/// The (saturating) age `now - cached_at` of an entry.
fn saturating_age(now: i64, cached_at: i64) -> (age: i64)
    ensures
        age == saturating_diff(now, cached_at),
{
    let d: i128 = now as i128 - cached_at as i128;
    if d > i64::MAX as i128 {
        i64::MAX
    } else if d < i64::MIN as i128 {
        i64::MIN
    } else {
        d as i64
    }
}

/// An entry written at `cached_at` may be read as fresh at `now`: its
/// (saturating) age is not negative and at most `ttl_secs`. An entry stamped
/// in the future is not fresh.
pub open spec fn is_fresh_spec(now: i64, cached_at: i64, ttl_secs: u64) -> bool {
    let age = saturating_diff(now, cached_at);
    0 <= age && age <= ttl_secs
}

/// Whether an entry written at `cached_at` may be read as fresh at `now`.
pub fn is_fresh(now: i64, cached_at: i64, ttl_secs: u64) -> (res: bool)
    ensures
        res == is_fresh_spec(now, cached_at, ttl_secs),
{
    let age = saturating_age(now, cached_at);
    age >= 0 && (age as u64) <= ttl_secs
}

/// The state probe counts an entry written at `cached_at` as fresh at `now`
/// when its (saturating) age is at most `ttl_secs`; a negative age is.
pub open spec fn within_ttl_spec(now: i64, cached_at: i64, ttl_secs: u64) -> bool {
    saturating_diff(now, cached_at) <= ttl_secs
}

/// Whether the age of an entry written at `cached_at` is at most `ttl_secs`
/// at `now`.
pub fn within_ttl(now: i64, cached_at: i64, ttl_secs: u64) -> (res: bool)
    ensures
        res == within_ttl_spec(now, cached_at, ttl_secs),
{
    let age = saturating_age(now, cached_at);
    age < 0 || (age as u64) <= ttl_secs
}

/// The L2 state of a key from the timestamp of its entry, if any.
pub open spec fn l2_state_spec(cached_at: Option<i64>, now: i64, ttl_secs: u64) -> L2State {
    match cached_at {
        Some(ts) => if within_ttl_spec(now, ts, ttl_secs) { L2State::Fresh } else { L2State::Stale },
        None => L2State::Miss,
    }
}

/// Classifies the L2 state of a key at `now`: `Miss` without an entry,
/// `Fresh` when its age is at most the time-to-live, `Stale` otherwise.
pub fn classify_l2(cached_at: Option<i64>, now: i64, ttl_secs: u64) -> (res: L2State)
    ensures
        res == l2_state_spec(cached_at, now, ttl_secs),
{
    match cached_at {
        Some(ts) => if within_ttl(now, ts, ttl_secs) {
            L2State::Fresh
        } else {
            L2State::Stale
        },
        None => L2State::Miss,
    }
}

/// The L2 state of a key at the current time, from the timestamp of its
/// entry (`None` when the key, its table or its bytes are missing).
pub fn l2_state_in(cached_at: Option<i64>, ttl_secs: u64) -> (res: L2State)
    ensures
        exists|s: Option<u64>| res == #[trigger] l2_state_spec(cached_at, secs_or_zero_spec(s), ttl_secs),
{
    let now = now_secs();
    let ghost s = choose|s: Option<u64>| now == #[trigger] secs_or_zero_spec(s);
    let res = classify_l2(cached_at, now, ttl_secs);
    assert(res == l2_state_spec(cached_at, secs_or_zero_spec(s), ttl_secs));
    res
}

/// The stored value, if its entry `(cached_at, data)` is fresh at `now`.
pub open spec fn fresh_value<T>(raw: Option<(i64, T)>, now: i64, ttl_secs: u64) -> Option<T> {
    match raw {
        Some((cached_at, data)) => if is_fresh_spec(now, cached_at, ttl_secs) { Some(data) } else { None },
        None => None,
    }
}

/// Keeps a stored entry `(cached_at, data)` only if it is fresh at `now`.
pub fn select_fresh<T>(raw: Option<(i64, T)>, now: i64, ttl_secs: u64) -> (res: Option<T>)
    ensures
        res == fresh_value(raw, now, ttl_secs),
{
    match raw {
        Some((cached_at, data)) => if is_fresh(now, cached_at, ttl_secs) {
            Some(data)
        } else {
            None
        },
        None => None,
    }
}

/// The value of a stored entry if it is within `ttl_secs` at the current
/// time; `None` for a missing entry. The current time comes from a clock
/// reading, so the result is the fresh read of the entry at the time that
/// reading gives.
pub fn read_fresh_in<T>(raw: Option<(i64, T)>, ttl_secs: u64) -> (res: Option<T>)
    ensures
        exists|s: Option<u64>| res == #[trigger] fresh_value(raw, secs_or_zero_spec(s), ttl_secs),
{
    let now = now_secs();
    let ghost s = choose|s: Option<u64>| now == #[trigger] secs_or_zero_spec(s);
    let res = select_fresh(raw, now, ttl_secs);
    assert(res == fresh_value(raw, secs_or_zero_spec(s), ttl_secs));
    res
}

/// The value of a stored entry regardless of its age (offline fallback).
pub fn read_stale_in<T>(raw: Option<(i64, T)>) -> (res: Option<T>)
    ensures
        res == (match raw {
            Some(e) => Some(e.1),
            None => None,
        }),
{
    match raw {
        Some((_, data)) => Some(data),
        None => None,
    }
}

/// Law: reading an entry that is not dated in the future and probing its
/// state agree. The fresh read yields a value exactly when the probe says
/// `Fresh`; the stale read yields one exactly when the probe does not say
/// `Miss` (so a stale entry is still served offline); and a fresh read's
/// value is the stale read's value.
pub proof fn lemma_reads_agree_with_probe<T>(raw: Option<(i64, T)>, now: i64, ttl_secs: u64)
    requires
        raw matches Some(e) ==> e.0 <= now,
    ensures
        ({
            let probe = l2_state_spec(
                match raw {
                    Some(e) => Some(e.0),
                    None => None,
                },
                now,
                ttl_secs,
            );
            let stale = match raw {
                Some(e) => Some(e.1),
                None => None,
            };
            &&& (fresh_value(raw, now, ttl_secs) is Some <==> probe == L2State::Fresh)
            &&& (stale is Some <==> probe != L2State::Miss)
            &&& (fresh_value(raw, now, ttl_secs) is Some ==> fresh_value(raw, now, ttl_secs) == stale)
        }),
{
}

/// Law: an entry is read as fresh exactly while its age lies between zero
/// and the time-to-live; it turns stale once older, and an entry from the
/// future is not read as fresh. The probe reports `Fresh` exactly while the
/// age is at most the time-to-live. (With a time-to-live of `i64::MAX`
/// seconds or more, an age that overflows `i64` saturates and counts as
/// fresh; those are left out.)
pub proof fn lemma_freshness_window(now: i64, cached_at: i64, ttl_secs: u64)
    requires
        ttl_secs < i64::MAX,
    ensures
        is_fresh_spec(now, cached_at, ttl_secs) <==> (cached_at <= now && now - cached_at <= ttl_secs),
        within_ttl_spec(now, cached_at, ttl_secs) <==> now - cached_at <= ttl_secs,
{
}

} // verus!
