use arc_companion::services::bots::{bots_result, bots_source, invalidate_bots_cache, Bot, DataSource as BotsSource};
use arc_companion::services::cascade::{
    advance, finish, next_action, served_source, start_load, Loader, LoaderAction, LoaderEvent, Tier,
};
use arc_companion::services::db::{
    classify_l2, is_fresh, secs_or_zero, within_ttl, l2_state_in, now_secs, read_fresh_in, read_stale_in, select_fresh,
};
use arc_companion::services::events::{
    events_result, invalidate_events_cache, EventsSchedule, ScheduledEvent,
};
use arc_companion::services::items::{invalidate_items_cache, items_result, Item};
use arc_companion::services::l1::{l1_state, l1_state_of};
use arc_companion::services::source::{CacheSource, L1State, L2State};
use arc_companion::services::traders::{
    items_from_cache, names_from_cache,
    cached_trader_items, cached_trader_names, complete_trader_items, complete_trader_names,
    fallback_trader_names, invalidate_trader_cache, process_and_cache_response, trader_inventories,
    trader_items_key, trader_items_result, DataSource, TraderInventories, TraderItem, TradersResponse,
};
use moka::sync::Cache;

#[test]
fn write_then_read_fresh_roundtrips() {
    let data = vec!["a".to_string(), "b".to_string()];
    let got: Option<Vec<String>> = read_fresh_in(Some((now_secs(), data.clone())), 900);
    assert_eq!(got, Some(data));
}

#[test]
fn read_fresh_returns_none_when_stale_but_read_stale_returns_it() {
    let entry = Some((now_secs() - 10_000, vec![1u8, 2, 3]));
    let fresh: Option<Vec<u8>> = read_fresh_in(entry.clone(), 900);
    assert_eq!(fresh, None, "a 10000s-old entry must be stale under a 900s TTL");
    let stale: Option<Vec<u8>> = read_stale_in(entry);
    assert_eq!(stale, Some(vec![1, 2, 3]), "stale read must still return the value");
}

#[test]
fn reads_return_none_for_missing_key_or_table() {
    let fresh: Option<Vec<u8>> = read_fresh_in(None, 900);
    let stale: Option<Vec<u8>> = read_stale_in(None);
    assert_eq!(fresh, None);
    assert_eq!(stale, None);
}

#[test]
fn l2_state_reports_fresh_stale_and_miss() {
    assert_eq!(l2_state_in(Some(now_secs()), 900), L2State::Fresh);
    assert_eq!(l2_state_in(Some(now_secs() - 10_000), 900), L2State::Stale);
    assert_eq!(l2_state_in(None, 900), L2State::Miss);
}

#[test]
fn freshness_window_edges() {
    assert!(is_fresh(1000, 100, 900));
    assert!(!is_fresh(1001, 100, 900));
    assert!(!is_fresh(100, 101, 900));
    assert_eq!(classify_l2(Some(5_000), 1_000, 900), L2State::Fresh);
    assert!(is_fresh(5, 5, 0));
    assert!(!is_fresh(i64::MAX, i64::MIN, 900));
    assert_eq!(classify_l2(Some(0), 901, 900), L2State::Stale);
    assert_eq!(classify_l2(Some(1), 901, 900), L2State::Fresh);
    assert_eq!(select_fresh(Some((10, "v")), 20, 5), None);
    assert_eq!(select_fresh(Some((10, "v")), 12, 5), Some("v"));
    assert!(now_secs() > 1_600_000_000);
}

fn drive(fresh: Option<u32>, fetched: Result<u32, String>, stale: Option<u32>) -> (Vec<LoaderAction>, Option<Result<(u32, Tier), String>>) {
    let mut state: Loader<u32> = start_load();
    let mut seen = Vec::new();
    loop {
        let action = next_action(&state);
        seen.push(action);
        let event = match action {
            LoaderAction::ReadFresh => LoaderEvent::FreshRead(fresh),
            LoaderAction::Fetch => LoaderEvent::Fetched(fetched.clone()),
            LoaderAction::WriteThrough => LoaderEvent::Written,
            LoaderAction::ReadStale => LoaderEvent::StaleRead(stale),
            LoaderAction::Finish => break,
        };
        state = advance(state, event);
    }
    (seen, finish(state))
}

#[test]
fn cascade_prefers_fresh_disk_then_api_then_stale() {
    let (acts, out) = drive(Some(1), Ok(2), Some(3));
    assert_eq!(acts, vec![LoaderAction::ReadFresh, LoaderAction::Finish]);
    assert_eq!(out, Some(Ok((1, Tier::FreshDisk))));
    let (acts, out) = drive(None, Ok(2), Some(3));
    assert_eq!(acts, vec![LoaderAction::ReadFresh, LoaderAction::Fetch, LoaderAction::WriteThrough, LoaderAction::Finish]);
    assert_eq!(out, Some(Ok((2, Tier::Api))));
    let (acts, out) = drive(None, Err("down".to_string()), Some(3));
    assert_eq!(acts, vec![LoaderAction::ReadFresh, LoaderAction::Fetch, LoaderAction::ReadStale, LoaderAction::Finish]);
    assert_eq!(out, Some(Ok((3, Tier::StaleDisk))));
    let (_, out) = drive(None, Err("down".to_string()), None);
    assert_eq!(out, Some(Err("down".to_string())));
    assert_eq!(finish(Loader::<u32>::Fetching), None);
}

#[test]
fn served_source_by_tier() {
    assert_eq!(served_source(false, Some(Tier::Api)), CacheSource::Memory);
    assert_eq!(served_source(true, Some(Tier::FreshDisk)), CacheSource::Disk);
    assert_eq!(served_source(true, Some(Tier::StaleDisk)), CacheSource::Disk);
    assert_eq!(served_source(true, Some(Tier::Api)), CacheSource::Api);
    assert_eq!(served_source(true, None), CacheSource::Api);
    assert_eq!(bots_source(false, None), CacheSource::Memory);
    assert_eq!(bots_source(true, Some(Tier::FreshDisk)), CacheSource::Disk);
    assert_eq!(bots_source(true, Some(Tier::StaleDisk)), CacheSource::Disk);
    assert_eq!(bots_source(true, Some(Tier::Api)), CacheSource::Api);
    assert_eq!(BotsSource::Cache.to_string(), "Cache");
    assert_eq!(DataSource::Fallback.to_string(), "Fallback");
}

fn ev(name: &str) -> ScheduledEvent {
    ScheduledEvent { name: name.to_string(), map: "m".to_string(), icon: String::new(), start_time: 1, end_time: 2 }
}

#[test]
fn results_report_count_source_and_error() {
    let ok = items_result(Ok(Vec::<Item>::new()), CacheSource::Disk);
    assert_eq!((ok.count, ok.source, ok.error.is_none()), (0, CacheSource::Disk, true));
    let err = items_result(Err("boom".to_string()), CacheSource::Memory);
    assert_eq!((err.count, err.source, err.error), (0, CacheSource::Api, Some("boom".to_string())));
    let bots = bots_result(Ok(vec![Bot { id: "1".into(), name: "Tick".into(), description: None, icon: None, image: None }]), CacheSource::Disk);
    assert_eq!((bots.count, bots.source), (1, CacheSource::Disk));
    let failed = bots_result(Err("x".to_string()), CacheSource::Memory);
    assert_eq!((failed.count, failed.source, failed.error), (0, CacheSource::Api, Some("x".to_string())));
    let events = events_result(Ok(EventsSchedule { data: vec![ev("a"), ev("b")], cached_at: 77 }), CacheSource::Api);
    assert_eq!((events.count, events.cached_at, events.events[1].name.as_str()), (2, 77, "b"));
    let none = events_result(Err("e".to_string()), CacheSource::Disk);
    assert_eq!((none.count, none.cached_at, none.source), (0, 0, CacheSource::Api));
}

#[test]
fn invalidation_clears_memory_and_names_the_disk_entry() {
    let items: Cache<String, Vec<Item>> = Cache::new(4);
    items.insert("all_items".to_string(), Vec::new());
    assert_eq!(l1_state(&items, "all_items"), L1State::Hit);
    let key = invalidate_items_cache(&items);
    assert_eq!((key.table, key.key), ("items", "all_items"));
    assert_eq!(l1_state(&items, "all_items"), L1State::Miss);
    let bots: Cache<String, Vec<Bot>> = Cache::new(4);
    bots.insert("all_bots".to_string(), Vec::new());
    let key = invalidate_bots_cache(&bots);
    assert_eq!((key.table, key.key), ("bots", "all_bots"));
    assert!(bots.get("all_bots").is_none());
    let events: Cache<String, EventsSchedule> = Cache::new(4);
    events.insert("events_schedule".to_string(), EventsSchedule { data: Vec::new(), cached_at: 0 });
    let key = invalidate_events_cache(&events);
    assert_eq!((key.table, key.key), ("events", "events_schedule"));
    assert!(events.get("events_schedule").is_none());
    assert_eq!(l1_state_of(true), L1State::Hit);
}

fn titem(id: &str) -> TraderItem {
    TraderItem {
        id: id.to_string(),
        icon: String::new(),
        name: format!("item {id}"),
        value: 10,
        rarity: "Common".to_string(),
        item_type: "Material".to_string(),
        description: String::new(),
        trader_price: 20,
    }
}

fn response() -> TradersResponse {
    TradersResponse {
        success: true,
        data: TraderInventories {
            apollo: Some(vec![titem("a1"), titem("a2")]),
            celeste: None,
            ermal: Some(vec![titem("e1")]),
            lance: Some(vec![titem("l1")]),
            shani: Some(Vec::new()),
            tian_wen: None,
        },
    }
}

#[test]
fn trader_names_fall_back_when_the_api_fails() {
    assert_eq!(fallback_trader_names(), vec!["Apollo", "Celeste", "Lance", "Shani", "Tian Wen"]);
    let names: Cache<String, Vec<String>> = Cache::new(16);
    let items: Cache<String, Vec<TraderItem>> = Cache::new(16);
    assert!(cached_trader_names(&names).is_none());
    let r = complete_trader_names(&names, &items, Err("API error fetching traders: down".to_string()));
    assert_eq!(r.source, CacheSource::Fallback);
    assert_eq!(r.names, fallback_trader_names());
    assert_eq!(r.error, Some("API error fetching traders: down".to_string()));
    let again = cached_trader_names(&names).expect("names were cached");
    assert_eq!((again.source, again.names, again.error), (CacheSource::Memory, fallback_trader_names(), None));
}

#[test]
fn trader_response_populates_inventories() {
    let names: Cache<String, Vec<String>> = Cache::new(16);
    let items: Cache<String, Vec<TraderItem>> = Cache::new(16);
    let r = complete_trader_names(&names, &items, Ok(response()));
    assert_eq!((r.source, r.error), (CacheSource::Api, None));
    assert_eq!(r.names, vec!["Apollo", "Celeste", "Lance", "Shani", "Tian Wen"]);
    let apollo = cached_trader_items(&items, "Apollo").expect("cached");
    assert_eq!((apollo.count, apollo.source), (2, CacheSource::Memory));
    assert_eq!(apollo.items[1], titem("a2"));
    assert_eq!(cached_trader_items(&items, "Celeste").map(|r| r.count), Some(0));
    assert!(cached_trader_items(&items, "Ermal").is_none());
    let inv = trader_inventories(&response());
    assert_eq!(inv.len(), 5);
    assert_eq!(inv[2].0, "Lance");
    assert_eq!(inv[2].1, vec![titem("l1")]);
    assert_eq!(process_and_cache_response(&items, &response()).len(), 5);
    assert_eq!(trader_items_key("Tian Wen"), "trader_items_Tian Wen");
}

#[test]
fn trader_items_after_fetch() {
    let items: Cache<String, Vec<TraderItem>> = Cache::new(16);
    let ok = complete_trader_items(&items, "Lance", Ok(response()));
    assert_eq!((ok.source, ok.count, ok.error), (CacheSource::Api, 1, None));
    let missing = complete_trader_items(&items, "Nobody", Ok(response()));
    assert_eq!(missing.source, CacheSource::Fallback);
    assert_eq!(missing.error, Some("No cached items found for trader 'Nobody'".to_string()));
    let failed = complete_trader_items(&items, "Lance", Err("down".to_string()));
    assert_eq!((failed.source, failed.count, failed.error), (CacheSource::Memory, 1, Some("down".to_string())));
    let empty: Cache<String, Vec<TraderItem>> = Cache::new(16);
    let none = complete_trader_items(&empty, "Lance", Err("down".to_string()));
    assert_eq!((none.source, none.count, none.error), (CacheSource::Fallback, 0, Some("down".to_string())));
    let direct = trader_items_result(None, None, "X");
    assert_eq!(direct.error, Some("No cached items found for trader 'X'".to_string()));
}

#[test]
fn invalidating_traders_clears_names_and_inventories() {
    let names: Cache<String, Vec<String>> = Cache::new(16);
    let items: Cache<String, Vec<TraderItem>> = Cache::new(16);
    complete_trader_names(&names, &items, Ok(response()));
    invalidate_trader_cache(&names, &items);
    assert!(cached_trader_names(&names).is_none());
    assert!(cached_trader_items(&items, "Apollo").is_none());
    assert!(cached_trader_items(&items, "Tian Wen").is_none());
}

#[test]
fn cache_hits_become_cache_results_and_misses_none() {
    let hit = names_from_cache(Some(vec!["Apollo".to_string()])).unwrap();
    assert_eq!(hit.names, vec!["Apollo".to_string()]);
    assert_eq!(hit.source, CacheSource::Memory);
    assert!(hit.error.is_none());
    assert!(names_from_cache(None).is_none());
    let items = items_from_cache(Some(Vec::new())).unwrap();
    assert_eq!(items.count, 0);
    assert_eq!(items.source, CacheSource::Memory);
    assert!(items_from_cache(None).is_none());
}

#[test]
fn clock_readings_become_timestamps() {
    assert_eq!(secs_or_zero(None), 0);
    assert_eq!(secs_or_zero(Some(1_700_000_000)), 1_700_000_000);
    assert_eq!(secs_or_zero(Some(u64::MAX)), -1);
    assert!(now_secs() > 1_600_000_000);
}

#[test]
fn future_dated_entries_are_not_read_as_fresh_but_probe_fresh() {
    let future: Option<(i64, &str)> = Some((now_secs() + 3_600, "v"));
    assert_eq!(read_fresh_in(future, 900), None);
    assert_eq!(read_stale_in(future), Some("v"));
    assert_eq!(l2_state_in(Some(now_secs() + 3_600), 900), L2State::Fresh);
    assert!(within_ttl(100, 101, 900));
    assert!(!within_ttl(1001, 100, 900));
}
