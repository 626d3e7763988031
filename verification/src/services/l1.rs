//! The in-memory (L1) caches, backed by `moka::sync::Cache`.
//!
//! Entries expire by time and may be evicted or changed by other threads at
//! any moment, so nothing is stated of what a lookup returns: the functions
//! that read the cache state what holds whatever came back.
use vstd::prelude::*;
use moka::sync::Cache;
use crate::services::source::L1State;

verus! {

#[verifier::external_type_specification]
#[verifier::external_body]
#[verifier::reject_recursive_types(K)]
#[verifier::reject_recursive_types(V)]
#[verifier::reject_recursive_types(S)]
pub struct ExMokaCache<K, V, S>(Cache<K, V, S>);

/// `moka::sync::Cache::get`: a clone of the value cached for `key`, if any.
/// What it returns depends on time-to-live expiry, eviction and other
/// threads; nothing is stated of it.
#[verifier::external_body]
pub(crate) fn l1_get<V: Clone + Send + Sync + 'static>(cache: &Cache<String, V>, key: &String) -> Option<V> {
    cache.get(key)
}

/// `moka::sync::Cache::insert`: caches `value` under `key`.
#[verifier::external_body]
pub(crate) fn l1_insert<V: Clone + Send + Sync + 'static>(cache: &Cache<String, V>, key: String, value: V) {
    cache.insert(key, value)
}

/// `moka::sync::Cache::invalidate`: discards any value cached for `key`.
#[verifier::external_body]
pub(crate) fn l1_invalidate<V: Clone + Send + Sync + 'static>(cache: &Cache<String, V>, key: &String) {
    cache.invalidate(key)
}

/// `moka::sync::Cache::contains_key`: whether a value is cached for `key`,
/// without touching its recency. Nothing is stated of the answer.
#[verifier::external_body]
pub(crate) fn l1_contains<V: Clone + Send + Sync + 'static>(cache: &Cache<String, V>, key: &String) -> bool {
    cache.contains_key(key)
}

/// The L1 state for a probe answer: `Hit` if the key is cached.
pub fn l1_state_of(contains: bool) -> (res: L1State)
    ensures
        res == (if contains { L1State::Hit } else { L1State::Miss }),
{
    if contains {
        L1State::Hit
    } else {
        L1State::Miss
    }
}

/// Probes the L1 cache for `key` without changing it.
pub fn l1_state<V: Clone + Send + Sync + 'static>(cache: &Cache<String, V>, key: &str) -> L1State {
    let k = crate::text::string_of(key);
    l1_state_of(l1_contains(cache, &k))
}

} // verus!
