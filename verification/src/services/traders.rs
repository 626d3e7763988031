//! The traders service: trader names and inventories, cached in memory, with
//! a hardcoded list of names when the API is unavailable.
use vstd::prelude::*;
use moka::sync::Cache;
use crate::services::l1::{l1_get, l1_insert, l1_invalidate};
use crate::services::source::CacheSource;
use crate::text::{push_str, string_of};

verus! {

/// Time-to-live of the trader caches, in seconds (15 minutes).
pub const CACHE_TTL_SECS: u64 = 900;

/// Cache key used for storing trader names.
pub const TRADER_NAMES_KEY: &'static str = "trader_names";

/// Cache key prefix for individual trader inventories.
pub const TRADER_ITEMS_PREFIX: &'static str = "trader_items_";

/// The three labels a trader result's origin can be displayed with.
#[derive(Debug, Clone, Copy, PartialEq, Eq, Structural)]
pub enum DataSource {
    /// Data was fetched live from the MetaForge API.
    Api,
    /// Data was served from the in-memory cache.
    Cache,
    /// Data came from the hardcoded fallback constants.
    Fallback,
}

impl DataSource {
    pub open spec fn text_spec(self) -> Seq<char> {
        match self {
            DataSource::Api => "API"@,
            DataSource::Cache => "Cache"@,
            DataSource::Fallback => "Fallback"@,
        }
    }

    /// The text the source is displayed as.
    pub fn to_string(&self) -> (res: String)
        ensures
            res@ == self.text_spec(),
    {
        match self {
            DataSource::Api => string_of("API"),
            DataSource::Cache => string_of("Cache"),
            DataSource::Fallback => string_of("Fallback"),
        }
    }
}

/// A single item sold by a trader.
#[derive(Debug, PartialEq, Eq)]
pub struct TraderItem {
    pub id: String,
    pub icon: String,
    pub name: String,
    pub value: i32,
    pub rarity: String,
    pub item_type: String,
    pub description: String,
    pub trader_price: i32,
}

impl Clone for TraderItem {
    fn clone(&self) -> (res: Self)
        ensures
            res == *self,
    {
        TraderItem {
            id: self.id.clone(),
            icon: self.icon.clone(),
            name: self.name.clone(),
            value: self.value,
            rarity: self.rarity.clone(),
            item_type: self.item_type.clone(),
            description: self.description.clone(),
            trader_price: self.trader_price,
        }
    }
}

/// Each trader's inventory, if the API listed one.
#[derive(Debug)]
pub struct TraderInventories {
    pub apollo: Option<Vec<TraderItem>>,
    pub celeste: Option<Vec<TraderItem>>,
    pub ermal: Option<Vec<TraderItem>>,
    pub lance: Option<Vec<TraderItem>>,
    pub shani: Option<Vec<TraderItem>>,
    pub tian_wen: Option<Vec<TraderItem>>,
}

/// The full traders response of the API.
#[derive(Debug)]
pub struct TradersResponse {
    pub success: bool,
    pub data: TraderInventories,
}

/// Trader names along with where they came from.
#[derive(Debug)]
pub struct TraderNamesResult {
    /// The list of trader names.
    pub names: Vec<String>,
    /// Where the names were sourced from.
    pub source: CacheSource,
    /// An error that occurred (e.g. API failure before fallback).
    pub error: Option<String>,
}

/// A trader's items along with where they came from.
#[derive(Debug)]
pub struct TraderItemsResult {
    /// The list of items for the requested trader.
    pub items: Vec<TraderItem>,
    /// Where the items were sourced from.
    pub source: CacheSource,
    /// The number of items returned.
    pub count: usize,
    /// An error that occurred (e.g. API failure).
    pub error: Option<String>,
}

/// The characters of each string.
pub open spec fn strings_view(s: Seq<String>) -> Seq<Seq<char>> {
    s.map_values(|x: String| x@)
}

/// The traders the app knows, in display order.
pub open spec fn trader_names_spec() -> Seq<Seq<char>> {
    seq!["Apollo"@, "Celeste"@, "Lance"@, "Shani"@, "Tian Wen"@]
}

/// Returns the hardcoded list of trader names.
pub fn fallback_trader_names() -> (res: Vec<String>)
    ensures
        strings_view(res@) == trader_names_spec(),
{
    let res = vec![
        string_of("Apollo"),
        string_of("Celeste"),
        string_of("Lance"),
        string_of("Shani"),
        string_of("Tian Wen"),
    ];
    assert(strings_view(res@) =~= trader_names_spec());
    res
}

/// The cache key of a trader's inventory: the prefix followed by the name.
pub fn trader_items_key(trader_name: &str) -> (res: String)
    ensures
        res@ == TRADER_ITEMS_PREFIX@ + trader_name@,
{
    let mut key = string_of(TRADER_ITEMS_PREFIX);
    push_str(&mut key, trader_name);
    key
}

/// An inventory as a list: the listed items, or none.
pub open spec fn inventory_spec(inv: Option<Vec<TraderItem>>) -> Seq<TraderItem> {
    match inv {
        Some(v) => v@,
        None => Seq::empty(),
    }
}

fn inventory_of(inv: &Option<Vec<TraderItem>>) -> (res: Vec<TraderItem>)
    ensures
        res@ == inventory_spec(*inv),
{
    match inv {
        Some(v) => {
            let c = v.clone();
            assert(c@ =~= v@);
            c
        },
        None => Vec::new(),
    }
}

/// The inventory of each trader in the response, in display order; Ermal's
/// listing is not used.
pub open spec fn inventories_spec(resp: TradersResponse) -> Seq<Seq<TraderItem>> {
    seq![
        inventory_spec(resp.data.apollo),
        inventory_spec(resp.data.celeste),
        inventory_spec(resp.data.lance),
        inventory_spec(resp.data.shani),
        inventory_spec(resp.data.tian_wen),
    ]
}

/// Each trader's name with its inventory (empty when the API listed none).
pub fn trader_inventories(resp: &TradersResponse) -> (res: Vec<(String, Vec<TraderItem>)>)
    ensures
        res@.len() == 5,
        forall|i: int| 0 <= i < 5 ==> (#[trigger] res@[i]).0@ == trader_names_spec()[i] && res@[i].1@
            == inventories_spec(*resp)[i],
{
    let res = vec![
        (string_of("Apollo"), inventory_of(&resp.data.apollo)),
        (string_of("Celeste"), inventory_of(&resp.data.celeste)),
        (string_of("Lance"), inventory_of(&resp.data.lance)),
        (string_of("Shani"), inventory_of(&resp.data.shani)),
        (string_of("Tian Wen"), inventory_of(&resp.data.tian_wen)),
    ];
    res
}

/// Law: every trader keeps its own inventory. The entry named after a
/// trader carries the items the response lists under that trader (none when
/// it lists none), and each of the five traders has an entry.
pub proof fn lemma_inventories_follow_names(resp: TradersResponse, res: Seq<(String, Vec<TraderItem>)>)
    requires
        res.len() == 5,
        forall|i: int| 0 <= i < 5 ==> (#[trigger] res[i]).0@ == trader_names_spec()[i] && res[i].1@
            == inventories_spec(resp)[i],
    ensures
        forall|i: int| 0 <= i < res.len() ==> {
            &&& (res[i].0@ == "Apollo"@ ==> res[i].1@ == match resp.data.apollo {
                Some(v) => v@,
                None => Seq::<TraderItem>::empty(),
            })
            &&& (res[i].0@ == "Celeste"@ ==> res[i].1@ == match resp.data.celeste {
                Some(v) => v@,
                None => Seq::<TraderItem>::empty(),
            })
            &&& (res[i].0@ == "Lance"@ ==> res[i].1@ == match resp.data.lance {
                Some(v) => v@,
                None => Seq::<TraderItem>::empty(),
            })
            &&& (res[i].0@ == "Shani"@ ==> res[i].1@ == match resp.data.shani {
                Some(v) => v@,
                None => Seq::<TraderItem>::empty(),
            })
            &&& (res[i].0@ == "Tian Wen"@ ==> res[i].1@ == match resp.data.tian_wen {
                Some(v) => v@,
                None => Seq::<TraderItem>::empty(),
            })
        },
        forall|n: Seq<char>| #![trigger trader_names_spec().contains(n)] trader_names_spec().contains(n)
            ==> exists|i: int| 0 <= i < res.len() && (#[trigger] res[i]).0@ == n,
{
    reveal_strlit("Apollo");
    reveal_strlit("Celeste");
    reveal_strlit("Lance");
    reveal_strlit("Shani");
    reveal_strlit("Tian Wen");
    assert("Apollo"@.len() == 6 && "Celeste"@.len() == 7 && "Lance"@.len() == 5 && "Shani"@.len() == 5
        && "Tian Wen"@.len() == 8);
    assert("Lance"@[0] != "Shani"@[0]);
    assert forall|i: int| 0 <= i < res.len() implies {
        &&& (res[i].0@ == "Apollo"@ ==> res[i].1@ == match resp.data.apollo {
                Some(v) => v@,
                None => Seq::<TraderItem>::empty(),
            })
        &&& (res[i].0@ == "Celeste"@ ==> res[i].1@ == match resp.data.celeste {
                Some(v) => v@,
                None => Seq::<TraderItem>::empty(),
            })
        &&& (res[i].0@ == "Lance"@ ==> res[i].1@ == match resp.data.lance {
                Some(v) => v@,
                None => Seq::<TraderItem>::empty(),
            })
        &&& (res[i].0@ == "Shani"@ ==> res[i].1@ == match resp.data.shani {
                Some(v) => v@,
                None => Seq::<TraderItem>::empty(),
            })
        &&& (res[i].0@ == "Tian Wen"@ ==> res[i].1@ == match resp.data.tian_wen {
                Some(v) => v@,
                None => Seq::<TraderItem>::empty(),
            })
    } by {
        assert(res[i].0@ == trader_names_spec()[i]);
    }
    assert forall|n: Seq<char>| #![trigger trader_names_spec().contains(n)] trader_names_spec().contains(n)
        implies exists|i: int| 0 <= i < res.len() && (#[trigger] res[i]).0@ == n by {
        let k = choose|k: int| 0 <= k < trader_names_spec().len() && trader_names_spec()[k] == n;
        assert(res[k].0@ == n);
    }
}

/// Caches each trader's inventory under its key and returns the trader
/// names, in display order.
pub fn process_and_cache_response(items_cache: &Cache<String, Vec<TraderItem>>, resp: &TradersResponse) -> (res: Vec<String>)
    ensures
        strings_view(res@) == trader_names_spec(),
{
    let traders = trader_inventories(resp);
    let mut names: Vec<String> = Vec::new();
    let mut i: usize = 0;
    while i < traders.len()
        invariant
            i <= traders.len(),
            traders@.len() == 5,
            forall|k: int| 0 <= k < 5 ==> (#[trigger] traders@[k]).0@ == trader_names_spec()[k],
            strings_view(names@) == trader_names_spec().take(i as int),
        decreases traders.len() - i,
    {
        let name = &traders[i].0;
        let items = traders[i].1.clone();
        l1_insert(items_cache, trader_items_key(name.as_str()), items);
        let ghost before = names@;
        names.push(name.clone());
        assert(strings_view(names@) =~= strings_view(before).push(name@));
        assert(trader_names_spec().take(i + 1) =~= trader_names_spec().take(i as int).push(trader_names_spec()[i as int]));
        i = i + 1;
    }
    assert(trader_names_spec().take(5) =~= trader_names_spec());
    if names.len() == 0 {
        fallback_trader_names()
    } else {
        names
    }
}

/// The result for what a lookup of the names in memory found: the names,
/// served from the cache, on a hit; `None` on a miss.
pub fn names_from_cache(lookup: Option<Vec<String>>) -> (res: Option<TraderNamesResult>)
    ensures
        match lookup {
            Some(names) => res matches Some(r) && r.names == names && r.source == CacheSource::Memory
                && r.error is None,
            None => res is None,
        },
{
    match lookup {
        Some(names) => Some(TraderNamesResult { names, source: CacheSource::Memory, error: None }),
        None => None,
    }
}

/// The names cached in memory, as a result served from the cache; `None` on
/// a miss. What the cache holds depends on expiry and other threads.
pub fn cached_trader_names(names_cache: &Cache<String, Vec<String>>) -> (res: Option<TraderNamesResult>)
    ensures
        res matches Some(r) ==> r.source == CacheSource::Memory && r.error is None,
{
    names_from_cache(l1_get(names_cache, &string_of(TRADER_NAMES_KEY)))
}

/// Finishes a names lookup after the API answered: on success the
/// inventories and names are cached and the names come from the API; on
/// failure the hardcoded names are cached and returned with the error.
pub fn complete_trader_names(
    names_cache: &Cache<String, Vec<String>>,
    items_cache: &Cache<String, Vec<TraderItem>>,
    fetched: Result<TradersResponse, String>,
) -> (res: TraderNamesResult)
    ensures
        strings_view(res.names@) == trader_names_spec(),
        match fetched {
            Ok(_) => res.source == CacheSource::Api && res.error is None,
            Err(e) => res.source == CacheSource::Fallback && res.error == Some(e),
        },
{
    match fetched {
        Ok(resp) => {
            let names = process_and_cache_response(items_cache, &resp);
            let cached = names.clone();
            l1_insert(names_cache, string_of(TRADER_NAMES_KEY), cached);
            TraderNamesResult { names, source: CacheSource::Api, error: None }
        },
        Err(err) => {
            let names = fallback_trader_names();
            let cached = names.clone();
            l1_insert(names_cache, string_of(TRADER_NAMES_KEY), cached);
            TraderNamesResult { names, source: CacheSource::Fallback, error: Some(err) }
        },
    }
}

/// The result for what a lookup of a trader's items in memory found: the
/// items with their count, served from the cache, on a hit; `None` on a miss.
pub fn items_from_cache(lookup: Option<Vec<TraderItem>>) -> (res: Option<TraderItemsResult>)
    ensures
        match lookup {
            Some(items) => res matches Some(r) && r.items == items && r.count == items.len()
                && r.source == CacheSource::Memory && r.error is None,
            None => res is None,
        },
{
    match lookup {
        Some(items) => {
            let count = items.len();
            Some(TraderItemsResult { items, source: CacheSource::Memory, count, error: None })
        },
        None => None,
    }
}

/// The items of a trader cached in memory, as a result served from the
/// cache; `None` on a miss.
pub fn cached_trader_items(items_cache: &Cache<String, Vec<TraderItem>>, trader_name: &str) -> (res: Option<TraderItemsResult>)
    ensures
        res matches Some(r) ==> r.source == CacheSource::Memory && r.error is None && r.count == r.items.len(),
{
    items_from_cache(l1_get(items_cache, &trader_items_key(trader_name)))
}

/// The message when nothing is cached for a trader and the API gave no error.
pub open spec fn no_items_message(trader_name: Seq<char>) -> Seq<char> {
    "No cached items found for trader '"@ + trader_name + "'"@
}

/// The result for a trader after the fetch attempt, from the second cache
/// lookup: the cached items (from the API if the fetch succeeded, else from
/// the cache, with the fetch error), or no items from the fallback with the
/// fetch error, or a message that nothing is cached.
pub fn trader_items_result(lookup: Option<Vec<TraderItem>>, fetch_error: Option<String>, trader_name: &str) -> (res: TraderItemsResult)
    ensures
        match lookup {
            Some(items) => res.items == items && res.count == items.len() && res.error == fetch_error
                && res.source == (if fetch_error is None { CacheSource::Api } else { CacheSource::Memory }),
            None => res.items@.len() == 0 && res.count == 0 && res.source == CacheSource::Fallback
                && match fetch_error {
                Some(e) => res.error == Some(e),
                None => res.error matches Some(m) && m@ == no_items_message(trader_name@),
            },
        },
{
    match lookup {
        Some(items) => {
            let count = items.len();
            let source = if fetch_error.is_none() {
                CacheSource::Api
            } else {
                CacheSource::Memory
            };
            TraderItemsResult { items, source, count, error: fetch_error }
        },
        None => {
            let error = match fetch_error {
                Some(e) => e,
                None => {
                    let mut m = string_of("No cached items found for trader '");
                    push_str(&mut m, trader_name);
                    push_str(&mut m, "'");
                    m
                },
            };
            TraderItemsResult { items: Vec::new(), source: CacheSource::Fallback, count: 0, error: Some(error) }
        },
    }
}

/// Finishes an items lookup after the API answered: a successful response
/// populates the inventory cache; then the cache is consulted again. What
/// that lookup finds depends on expiry and other threads; whatever it finds,
/// a result without items comes from the fallback and carries an error, and
/// the fetch error, if any, is reported.
pub fn complete_trader_items(
    items_cache: &Cache<String, Vec<TraderItem>>,
    trader_name: &str,
    fetched: Result<TradersResponse, String>,
) -> (res: TraderItemsResult)
    ensures
        res.count == res.items.len(),
        res.source == CacheSource::Fallback ==> res.items@.len() == 0 && res.error is Some,
        fetched is Err ==> res.error == Some(fetched->Err_0) && res.source != CacheSource::Api,
        fetched is Ok ==> res.source != CacheSource::Memory,
{
    let fetch_error = match fetched {
        Ok(resp) => {
            process_and_cache_response(items_cache, &resp);
            None
        },
        Err(err) => Some(err),
    };
    let lookup = l1_get(items_cache, &trader_items_key(trader_name));
    trader_items_result(lookup, fetch_error, trader_name)
}

/// The in-memory keys of the known traders' inventories, in display order.
pub fn trader_item_keys() -> (res: Vec<String>)
    ensures
        res@.len() == 5,
        forall|i: int| 0 <= i < 5 ==> (#[trigger] res@[i])@ == TRADER_ITEMS_PREFIX@ + trader_names_spec()[i],
{
    let names = fallback_trader_names();
    assert(names@.len() == 5) by {
        assert(strings_view(names@).len() == 5);
    }
    let mut res: Vec<String> = Vec::new();
    let mut i: usize = 0;
    while i < names.len()
        invariant
            i <= names.len(),
            names@.len() == 5,
            strings_view(names@) == trader_names_spec(),
            res@.len() == i,
            forall|k: int| 0 <= k < i ==> (#[trigger] res@[k])@ == TRADER_ITEMS_PREFIX@ + trader_names_spec()[k],
        decreases names.len() - i,
    {
        assert(strings_view(names@)[i as int] == names@[i as int]@);
        res.push(trader_items_key(names[i].as_str()));
        i = i + 1;
    }
    res
}

/// Invalidates all cached trader data (the names under `TRADER_NAMES_KEY`
/// and each key of `trader_item_keys`), forcing a fresh fetch on the next
/// call.
pub fn invalidate_trader_cache(names_cache: &Cache<String, Vec<String>>, items_cache: &Cache<String, Vec<TraderItem>>) {
    l1_invalidate(names_cache, &string_of(TRADER_NAMES_KEY));
    let keys = trader_item_keys();
    let mut i: usize = 0;
    while i < keys.len()
        decreases keys.len() - i,
    {
        l1_invalidate(items_cache, &keys[i]);
        i = i + 1;
    }
}

} // verus!
