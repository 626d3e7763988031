//! The items service: the item record the views work on.
use vstd::prelude::*;
use moka::sync::Cache;
use crate::services::db::DiskKey;
use crate::services::l1::l1_invalidate;
use crate::services::source::CacheSource;
use crate::text::string_of;

verus! {

/// An item as the app shows it: identity, text, classification and the
/// display pairs `(name, formatted value)` of its non-zero stats.
#[derive(Debug)]
pub struct Item {
    pub id: String,
    pub name: String,
    pub description: String,
    pub item_type: String,
    pub loadout_slots: Vec<String>,
    pub icon: String,
    pub rarity: String,
    pub value: i32,
    pub workbench: Option<String>,
    pub flavor_text: Option<String>,
    pub loot_area: Option<String>,
    pub ammo_type: Option<String>,
    pub stats: Vec<(String, String)>,
}

/// The contents of an `Item`, its strings as character sequences.
pub ghost struct ItemView {
    pub id: Seq<char>,
    pub name: Seq<char>,
    pub description: Seq<char>,
    pub item_type: Seq<char>,
    pub loadout_slots: Seq<Seq<char>>,
    pub icon: Seq<char>,
    pub rarity: Seq<char>,
    pub value: i32,
    pub workbench: Option<Seq<char>>,
    pub flavor_text: Option<Seq<char>>,
    pub loot_area: Option<Seq<char>>,
    pub ammo_type: Option<Seq<char>>,
    pub stats: Seq<(Seq<char>, Seq<char>)>,
}

/// The characters of an optional string.
pub open spec fn opt_view(s: Option<String>) -> Option<Seq<char>> {
    match s {
        Some(x) => Some(x@),
        None => None,
    }
}

impl View for Item {
    type V = ItemView;

    open spec fn view(&self) -> ItemView {
        ItemView {
            id: self.id@,
            name: self.name@,
            description: self.description@,
            item_type: self.item_type@,
            loadout_slots: self.loadout_slots@.map_values(|s: String| s@),
            icon: self.icon@,
            rarity: self.rarity@,
            value: self.value,
            workbench: opt_view(self.workbench),
            flavor_text: opt_view(self.flavor_text),
            loot_area: opt_view(self.loot_area),
            ammo_type: opt_view(self.ammo_type),
            stats: pairs_view(self.stats@),
        }
    }
}

pub fn clone_opt(s: &Option<String>) -> (res: Option<String>)
    ensures
        opt_view(res) == opt_view(*s),
{
    match s {
        Some(x) => Some(x.clone()),
        None => None,
    }
}

/// The characters of each `(name, value)` pair.
pub open spec fn pairs_view(s: Seq<(String, String)>) -> Seq<(Seq<char>, Seq<char>)> {
    s.map_values(|p: (String, String)| (p.0@, p.1@))
}

/// A copy of a list of string pairs.
pub fn clone_pairs(v: &Vec<(String, String)>) -> (res: Vec<(String, String)>)
    ensures
        pairs_view(res@) == pairs_view(v@),
{
    let mut out: Vec<(String, String)> = Vec::new();
    let mut i: usize = 0;
    while i < v.len()
        invariant
            i <= v.len(),
            pairs_view(out@) == pairs_view(v@.take(i as int)),
        decreases v.len() - i,
    {
        let ghost before = out@;
        out.push((v[i].0.clone(), v[i].1.clone()));
        assert(pairs_view(out@) =~= pairs_view(before).push((v@[i as int].0@, v@[i as int].1@)));
        assert(v@.take(i + 1) =~= v@.take(i as int).push(v@[i as int]));
        assert(pairs_view(v@.take(i + 1)) =~= pairs_view(v@.take(i as int)).push((v@[i as int].0@, v@[i as int].1@)));
        i = i + 1;
    }
    assert(v@.take(v.len() as int) =~= v@);
    out
}

impl Clone for Item {
    fn clone(&self) -> (res: Self)
        ensures
            res@ == self@,
    {
        let loadout_slots = self.loadout_slots.clone();
        let stats = clone_pairs(&self.stats);
        assert(loadout_slots@ =~= self.loadout_slots@);
        Item {
            id: self.id.clone(),
            name: self.name.clone(),
            description: self.description.clone(),
            item_type: self.item_type.clone(),
            loadout_slots,
            icon: self.icon.clone(),
            rarity: self.rarity.clone(),
            value: self.value,
            workbench: clone_opt(&self.workbench),
            flavor_text: clone_opt(&self.flavor_text),
            loot_area: clone_opt(&self.loot_area),
            ammo_type: clone_opt(&self.ammo_type),
            stats,
        }
    }
}

/// Time-to-live of both cache tiers, in seconds (15 minutes).
pub const CACHE_TTL_SECS: u64 = 900;

/// Key of the item list in both cache tiers.
pub const ITEMS_CACHE_KEY: &'static str = "all_items";

/// Table of the item list in the on-disk cache.
pub const ITEMS_TABLE: &'static str = "items";

/// The item list with where it came from.
#[derive(Debug)]
pub struct ItemsResult {
    pub items: Vec<Item>,
    pub source: CacheSource,
    pub count: usize,
    pub error: Option<String>,
}

/// The result of a load: the items and their count from `source`, or, when
/// the load failed, no items, source `Api` and the error.
pub fn items_result(outcome: Result<Vec<Item>, String>, source: CacheSource) -> (res: ItemsResult)
    ensures
        match outcome {
            Ok(items) => res.items == items && res.source == source && res.count == items.len()
                && res.error is None,
            Err(e) => res.items@.len() == 0 && res.source == CacheSource::Api && res.count == 0
                && res.error == Some(e),
        },
{
    match outcome {
        Ok(items) => {
            let count = items.len();
            ItemsResult { items, source, count, error: None }
        },
        Err(e) => ItemsResult { items: Vec::new(), source: CacheSource::Api, count: 0, error: Some(e) },
    }
}

/// Invalidates the item list in the in-memory cache and returns where it
/// lives on disk, for the caller to remove it there too.
pub fn invalidate_items_cache(l1: &Cache<String, Vec<Item>>) -> (res: DiskKey)
    ensures
        res.table@ == ITEMS_TABLE@,
        res.key@ == ITEMS_CACHE_KEY@,
{
    l1_invalidate(l1, &string_of(ITEMS_CACHE_KEY));
    DiskKey { table: ITEMS_TABLE, key: ITEMS_CACHE_KEY }
}

} // verus!
