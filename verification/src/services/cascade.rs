//! The load cascade shared by the items, bots and events services.
//!
//! On a miss of the in-memory (L1) cache the loader tries, in order: a fresh
//! entry of the on-disk (L2) cache; the API, writing a fetched value through
//! to disk; and, only when the API fails, a stale on-disk entry. The decisions
//! are a state machine; the caller performs each requested action and feeds
//! back what it produced.
use vstd::prelude::*;
use crate::services::source::CacheSource;

verus! {

/// Where the loader found its value.
#[derive(Debug, Clone, Copy, PartialEq, Eq, Structural)]
pub enum Tier {
    /// A fresh on-disk entry.
    FreshDisk,
    /// The API (written through to disk).
    Api,
    /// A stale on-disk entry, after the API failed.
    StaleDisk,
}

/// The loader's progress.
pub enum Loader<T> {
    /// Waiting for the fresh on-disk read.
    CheckFresh,
    /// Waiting for the API.
    Fetching,
    /// Waiting for the fetched value to be written to disk.
    Writing(T),
    /// Waiting for the stale on-disk read; the API failed with this error.
    CheckStale(String),
    /// Finished with a value from this tier.
    Loaded(T, Tier),
    /// Finished without a value; the API error.
    Failed(String),
}

/// What the caller reports back.
pub enum LoaderEvent<T> {
    /// The fresh on-disk entry, if any.
    FreshRead(Option<T>),
    /// The API's answer.
    Fetched(Result<T, String>),
    /// The write-through happened (its failure is only logged).
    Written,
    /// The on-disk entry of any age, if any.
    StaleRead(Option<T>),
}

/// What the caller must do next.
#[derive(Debug, Clone, Copy, PartialEq, Eq, Structural)]
pub enum LoaderAction {
    ReadFresh,
    Fetch,
    WriteThrough,
    ReadStale,
    Finish,
}

/// The state after `event`; an event the state does not wait for changes nothing.
pub open spec fn advance_spec<T>(state: Loader<T>, event: LoaderEvent<T>) -> Loader<T> {
    match (state, event) {
        (Loader::CheckFresh, LoaderEvent::FreshRead(Some(v))) => Loader::Loaded(v, Tier::FreshDisk),
        (Loader::CheckFresh, LoaderEvent::FreshRead(None)) => Loader::Fetching,
        (Loader::Fetching, LoaderEvent::Fetched(Ok(v))) => Loader::Writing(v),
        (Loader::Fetching, LoaderEvent::Fetched(Err(e))) => Loader::CheckStale(e),
        (Loader::Writing(v), LoaderEvent::Written) => Loader::Loaded(v, Tier::Api),
        (Loader::CheckStale(_), LoaderEvent::StaleRead(Some(v))) => Loader::Loaded(v, Tier::StaleDisk),
        (Loader::CheckStale(e), LoaderEvent::StaleRead(None)) => Loader::Failed(e),
        (s, _) => s,
    }
}

/// The action each state asks for.
pub open spec fn action_spec<T>(state: Loader<T>) -> LoaderAction {
    match state {
        Loader::CheckFresh => LoaderAction::ReadFresh,
        Loader::Fetching => LoaderAction::Fetch,
        Loader::Writing(_) => LoaderAction::WriteThrough,
        Loader::CheckStale(_) => LoaderAction::ReadStale,
        Loader::Loaded(..) | Loader::Failed(_) => LoaderAction::Finish,
    }
}

/// The state a load starts in.
pub fn start_load<T>() -> (res: Loader<T>)
    ensures
        res == Loader::<T>::CheckFresh,
{
    Loader::CheckFresh
}

/// The action the caller must perform next.
pub fn next_action<T>(state: &Loader<T>) -> (res: LoaderAction)
    ensures
        res == action_spec(*state),
{
    match state {
        Loader::CheckFresh => LoaderAction::ReadFresh,
        Loader::Fetching => LoaderAction::Fetch,
        Loader::Writing(_) => LoaderAction::WriteThrough,
        Loader::CheckStale(_) => LoaderAction::ReadStale,
        Loader::Loaded(..) => LoaderAction::Finish,
        Loader::Failed(_) => LoaderAction::Finish,
    }
}

/// Moves the loader on with what the caller reports.
pub fn advance<T>(state: Loader<T>, event: LoaderEvent<T>) -> (res: Loader<T>)
    ensures
        res == advance_spec(state, event),
{
    match state {
        Loader::CheckFresh => match event {
            LoaderEvent::FreshRead(Some(v)) => Loader::Loaded(v, Tier::FreshDisk),
            LoaderEvent::FreshRead(None) => Loader::Fetching,
            _ => Loader::CheckFresh,
        },
        Loader::Fetching => match event {
            LoaderEvent::Fetched(Ok(v)) => Loader::Writing(v),
            LoaderEvent::Fetched(Err(e)) => Loader::CheckStale(e),
            _ => Loader::Fetching,
        },
        Loader::Writing(v) => match event {
            LoaderEvent::Written => Loader::Loaded(v, Tier::Api),
            _ => Loader::Writing(v),
        },
        Loader::CheckStale(e) => match event {
            LoaderEvent::StaleRead(Some(v)) => Loader::Loaded(v, Tier::StaleDisk),
            LoaderEvent::StaleRead(None) => Loader::Failed(e),
            _ => Loader::CheckStale(e),
        },
        Loader::Loaded(v, t) => Loader::Loaded(v, t),
        Loader::Failed(e) => Loader::Failed(e),
    }
}

/// What a finished loader hands to the in-memory cache: its value and the
/// tier it came from, or the API error; `None` while it is still working.
pub fn finish<T>(state: Loader<T>) -> (res: Option<Result<(T, Tier), String>>)
    ensures
        res == (match state {
            Loader::Loaded(v, t) => Some(Ok((v, t))),
            Loader::Failed(e) => Some(Err(e)),
            _ => None,
        }),
{
    match state {
        Loader::Loaded(v, t) => Some(Ok((v, t))),
        Loader::Failed(e) => Some(Err(e)),
        _ => None,
    }
}

/// The answer the caller gives to the current request, taken from what the
/// fresh read, the API and the stale read produce.
pub open spec fn respond<T>(
    state: Loader<T>,
    fresh: Option<T>,
    fetched: Result<T, String>,
    stale: Option<T>,
) -> LoaderEvent<T> {
    match action_spec(state) {
        LoaderAction::ReadFresh => LoaderEvent::FreshRead(fresh),
        LoaderAction::Fetch => LoaderEvent::Fetched(fetched),
        LoaderAction::WriteThrough => LoaderEvent::Written,
        _ => LoaderEvent::StaleRead(stale),
    }
}

/// The loader after `steps` request/answer rounds.
pub open spec fn run<T>(
    state: Loader<T>,
    fresh: Option<T>,
    fetched: Result<T, String>,
    stale: Option<T>,
    steps: nat,
) -> Loader<T>
    decreases steps,
{
    if steps == 0 || action_spec(state) == LoaderAction::Finish {
        state
    } else {
        run(advance_spec(state, respond(state, fresh, fetched, stale)), fresh, fetched, stale, (steps - 1) as nat)
    }
}

/// The actions requested during the first `steps` rounds.
pub open spec fn actions<T>(
    state: Loader<T>,
    fresh: Option<T>,
    fetched: Result<T, String>,
    stale: Option<T>,
    steps: nat,
) -> Seq<LoaderAction>
    decreases steps,
{
    if steps == 0 || action_spec(state) == LoaderAction::Finish {
        Seq::empty()
    } else {
        seq![action_spec(state)] + actions(
            advance_spec(state, respond(state, fresh, fetched, stale)),
            fresh,
            fetched,
            stale,
            (steps - 1) as nat,
        )
    }
}

/// What the cascade yields: a fresh disk entry; else the API's value; else,
/// if the API failed, a stale disk entry; else the API error.
pub open spec fn cascade_outcome<T>(fresh: Option<T>, fetched: Result<T, String>, stale: Option<T>) -> Loader<T> {
    match fresh {
        Some(v) => Loader::Loaded(v, Tier::FreshDisk),
        None => match fetched {
            Ok(v) => Loader::Loaded(v, Tier::Api),
            Err(e) => match stale {
                Some(v) => Loader::Loaded(v, Tier::StaleDisk),
                None => Loader::Failed(e),
            },
        },
    }
}

/// The order in which the cascade works: a fresh disk hit ends it at once;
/// otherwise the API is asked, a fetched value is written through to disk,
/// and only a failed fetch leads to the stale disk read.
pub open spec fn cascade_actions<T>(fresh: Option<T>, fetched: Result<T, String>) -> Seq<LoaderAction> {
    match fresh {
        Some(_) => seq![LoaderAction::ReadFresh],
        None => match fetched {
            Ok(_) => seq![LoaderAction::ReadFresh, LoaderAction::Fetch, LoaderAction::WriteThrough],
            Err(_) => seq![LoaderAction::ReadFresh, LoaderAction::Fetch, LoaderAction::ReadStale],
        },
    }
}

/// Law of the cascade: started afresh and answered with what the fresh read,
/// the API and the stale read produce, the loader finishes within four rounds
/// with `cascade_outcome`, having requested exactly `cascade_actions`.
pub proof fn lemma_cascade<T>(fresh: Option<T>, fetched: Result<T, String>, stale: Option<T>)
    ensures
        run(Loader::CheckFresh, fresh, fetched, stale, 4) == cascade_outcome(fresh, fetched, stale),
        action_spec(run(Loader::CheckFresh, fresh, fetched, stale, 4)) == LoaderAction::Finish,
        actions(Loader::CheckFresh, fresh, fetched, stale, 4) == cascade_actions(fresh, fetched),
{
    reveal_with_fuel(run, 5);
    reveal_with_fuel(actions, 5);
    let s0 = Loader::<T>::CheckFresh;
    let s1 = advance_spec(s0, respond(s0, fresh, fetched, stale));
    let s2 = advance_spec(s1, respond(s1, fresh, fetched, stale));
    let s3 = advance_spec(s2, respond(s2, fresh, fetched, stale));
    match fresh {
        Some(v) => {
            assert(s1 == Loader::Loaded(v, Tier::FreshDisk));
            assert(actions(s1, fresh, fetched, stale, 3) =~= Seq::<LoaderAction>::empty());
            assert(actions(s0, fresh, fetched, stale, 4) =~= seq![LoaderAction::ReadFresh]);
        },
        None => {
            assert(s1 == Loader::<T>::Fetching);
            match fetched {
                Ok(v) => {
                    assert(s2 == Loader::Writing(v));
                    assert(s3 == Loader::Loaded(v, Tier::Api));
                    assert(actions(s3, fresh, fetched, stale, 1) =~= Seq::<LoaderAction>::empty());
                },
                Err(e) => {
                    assert(s2 == Loader::<T>::CheckStale(e));
                    match stale {
                        Some(v) => assert(s3 == Loader::Loaded(v, Tier::StaleDisk)),
                        None => assert(s3 == Loader::<T>::Failed(e)),
                    }
                    assert(actions(s3, fresh, fetched, stale, 1) =~= Seq::<LoaderAction>::empty());
                },
            }
            assert(actions(s0, fresh, fetched, stale, 4) =~= cascade_actions(fresh, fetched));
        },
    }
}

/// Which tier served a load: `Memory` when the value was already in the L1
/// cache; otherwise the tier the loader found it in (`Disk` for a fresh or a
/// stale on-disk entry), and `Api` when this caller waited on another
/// caller's load.
pub open spec fn served_source_spec(is_fresh: bool, loaded: Option<Tier>) -> CacheSource {
    if !is_fresh {
        CacheSource::Memory
    } else {
        match loaded {
            Some(Tier::FreshDisk) | Some(Tier::StaleDisk) => CacheSource::Disk,
            Some(Tier::Api) | None => CacheSource::Api,
        }
    }
}

/// Which tier served a load, from whether this call inserted the L1 entry
/// (`is_fresh`) and what its loader found (`None` if it never ran).
pub fn served_source(is_fresh: bool, loaded: Option<Tier>) -> (res: CacheSource)
    ensures
        res == served_source_spec(is_fresh, loaded),
{
    if !is_fresh {
        CacheSource::Memory
    } else {
        match loaded {
            Some(Tier::FreshDisk) => CacheSource::Disk,
            Some(Tier::StaleDisk) => CacheSource::Disk,
            Some(Tier::Api) => CacheSource::Api,
            None => CacheSource::Api,
        }
    }
}

} // verus!
