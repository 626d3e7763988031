use arc_companion::components::event_filters::{chip_class, chip_is_active};
use arc_companion::components::arcs_view::{filter_and_sort_bots, name_matches, toggle_expanded};
use arc_companion::components::coming_soon::resolve_subtitle;
use arc_companion::components::dropdown::selected_label;
use arc_companion::components::event_card::{format_remaining, remaining_ms, EventState};
use arc_companion::components::events_view::partition_events;
use arc_companion::components::filter_chips::{
    build_filter_options, parse_filter_selection, selection_to_filter, ActiveFilter,
};
use arc_companion::components::item_card::rarity_class;
use arc_companion::components::items_view::{
    add_filter, apply_filters, extract_filter_values, next_visible_count, rarity_rank,
    remove_filter, section_items, sort_items, sort_options,
};
use arc_companion::components::trader_view::{fallback_options, trader_options};
use arc_companion::services::bots::Bot;
use arc_companion::services::events::ScheduledEvent;
use arc_companion::services::items::Item;
use arc_companion::state::navbar::{navbar_options, NavbarDisplayMode};

#[test]
fn empty_query_matches_everything() {
    assert!(name_matches("Rocketeer", ""));
    assert!(name_matches("Anything", "   "));
}

#[test]
fn matches_case_insensitive_substring() {
    assert!(name_matches("Rocketeer", "rocket"));
    assert!(name_matches("rocketeer", "ROCKET"));
    assert!(name_matches("Tick Bot", "bot"));
}

#[test]
fn non_match_returns_false() {
    assert!(!name_matches("Bombardier", "rocket"));
}

#[test]
fn query_is_trimmed_before_matching() {
    assert!(name_matches("Rocketeer", "  rocket\t"));
    assert!(!name_matches("Rocketeer", "rocket x"));
}

fn bot(id: &str, name: &str) -> Bot {
    Bot {
        id: id.to_string(),
        name: name.to_string(),
        description: Some(vec!["para".to_string()]),
        icon: None,
        image: Some("img".to_string()),
    }
}

fn names(bots: &[Bot]) -> Vec<String> {
    bots.iter().map(|b| b.name.clone()).collect()
}

#[test]
fn bots_filtered_and_sorted_by_name() {
    let bots = vec![bot("1", "Tick Bot"), bot("2", "Rocketeer"), bot("3", "bombardier"), bot("4", "Snitch")];
    let asc = filter_and_sort_bots(&bots, "", false);
    assert_eq!(names(&asc), vec!["bombardier", "Rocketeer", "Snitch", "Tick Bot"]);
    let desc = filter_and_sort_bots(&bots, "", true);
    assert_eq!(names(&desc), vec!["Tick Bot", "Snitch", "Rocketeer", "bombardier"]);
    let searched = filter_and_sort_bots(&bots, "  T ", false);
    assert_eq!(names(&searched), vec!["Rocketeer", "Snitch", "Tick Bot"]);
    assert!(filter_and_sort_bots(&bots, "zzz", false).is_empty());
}

#[test]
fn bots_with_equal_names_keep_their_order() {
    let bots = vec![bot("a", "Wasp"), bot("b", "Hornet"), bot("c", "wasp")];
    let asc = filter_and_sort_bots(&bots, "", false);
    let ids: Vec<&str> = asc.iter().map(|b| b.id.as_str()).collect();
    assert_eq!(ids, vec!["b", "a", "c"]);
    let desc = filter_and_sort_bots(&bots, "", true);
    let ids: Vec<&str> = desc.iter().map(|b| b.id.as_str()).collect();
    assert_eq!(ids, vec!["c", "a", "b"]);
}

#[test]
fn toggling_the_open_card_closes_it() {
    let opened = toggle_expanded(None, "x".to_string());
    assert_eq!(opened, Some("x".to_string()));
    assert_eq!(toggle_expanded(opened.clone(), "x".to_string()), None);
    assert_eq!(toggle_expanded(opened, "y".to_string()), Some("y".to_string()));
}

#[test]
fn none_uses_default_copy() {
    assert_eq!(resolve_subtitle(&None), "This feature is in development.");
}

#[test]
fn blank_falls_back_to_default() {
    assert_eq!(
        resolve_subtitle(&Some("   ".to_string())),
        "This feature is in development."
    );
}

#[test]
fn custom_subtitle_is_used() {
    assert_eq!(
        resolve_subtitle(&Some("Map tools soon".to_string())),
        "Map tools soon"
    );
}

#[test]
fn formats_as_fixed_hms() {
    assert_eq!(format_remaining(0), "00h:00m:00s");
    assert_eq!(format_remaining(59_000), "00h:00m:59s");
    assert_eq!(format_remaining(60_000), "00h:01m:00s");
}

#[test]
fn formats_hours_with_two_digits() {
    assert_eq!(format_remaining(3_600_000), "01h:00m:00s");
    assert_eq!(format_remaining(4_980_000), "01h:23m:00s");
    assert_eq!(format_remaining(36_000_000), "10h:00m:00s");
}

#[test]
fn clamps_negative_to_zero() {
    assert_eq!(format_remaining(-5_000), "00h:00m:00s");
}

#[test]
fn countdown_edge_cases() {
    assert_eq!(format_remaining(999), "00h:00m:00s");
    assert_eq!(format_remaining(1_009_999), "00h:16m:49s");
    assert_eq!(format_remaining(360_000_000), "100h:00m:00s");
    assert_eq!(format_remaining(i64::MIN), "00h:00m:00s");
}

#[test]
fn card_texts_follow_the_state() {
    assert_eq!(EventState::Active.card_class(), "event-card");
    assert_eq!(EventState::Upcoming.card_class(), "event-card event-card--upcoming");
    assert_eq!(EventState::Active.countdown_label(), "Ends in:");
    assert_eq!(EventState::Upcoming.countdown_label(), "Starts in:");
    assert_eq!(remaining_ms(EventState::Active, 1000, 500, 4000), 3000);
    assert_eq!(remaining_ms(EventState::Upcoming, 1000, 2500, 4000), 1500);
}

fn ev(name: &str, start: i64, end: i64) -> ScheduledEvent {
    ScheduledEvent {
        name: name.to_string(),
        map: "Dam Battlegrounds".to_string(),
        icon: String::new(),
        start_time: start,
        end_time: end,
    }
}

#[test]
fn drops_expired_events() {
    let now = 1000;
    let out = partition_events(&[ev("past", 0, 500), ev("live", 0, 2000)], now);
    assert_eq!(out.len(), 1);
    assert_eq!(out[0].0.name, "live");
}

#[test]
fn active_listed_before_upcoming() {
    let now = 1000;
    let out = partition_events(&[ev("soon", 2000, 3000), ev("live", 500, 2000)], now);
    assert_eq!(out[0].0.name, "live");
    assert_eq!(out[0].1, EventState::Active);
    assert_eq!(out[1].0.name, "soon");
    assert_eq!(out[1].1, EventState::Upcoming);
}

#[test]
fn active_sorted_by_end_time() {
    let now = 1000;
    let out = partition_events(&[ev("ends_late", 0, 5000), ev("ends_soon", 0, 2000)], now);
    assert_eq!(out[0].0.name, "ends_soon");
    assert_eq!(out[1].0.name, "ends_late");
}

#[test]
fn upcoming_sorted_by_start_time() {
    let now = 1000;
    let out = partition_events(&[ev("later", 5000, 6000), ev("sooner", 2000, 3000)], now);
    assert_eq!(out[0].0.name, "sooner");
    assert_eq!(out[1].0.name, "later");
}

#[test]
fn boundaries_start_equals_now_is_active_end_equals_now_is_expired() {
    let now = 1000;
    let out = partition_events(&[ev("starts_now", 1000, 2000), ev("ends_now", 0, 1000)], now);
    assert_eq!(out.len(), 1);
    assert_eq!(out[0].0.name, "starts_now");
    assert_eq!(out[0].1, EventState::Active);
}

#[test]
fn events_with_equal_times_keep_their_order() {
    let now = 1000;
    let out = partition_events(
        &[ev("a", 0, 3000), ev("b", 2000, 4000), ev("c", 0, 3000), ev("d", 2000, 2500)],
        now,
    );
    let got: Vec<(&str, EventState)> = out.iter().map(|(e, s)| (e.name.as_str(), *s)).collect();
    assert_eq!(
        got,
        vec![
            ("a", EventState::Active),
            ("c", EventState::Active),
            ("b", EventState::Upcoming),
            ("d", EventState::Upcoming)
        ]
    );
    assert!(partition_events(&[], now).is_empty());
}

#[test]
fn next_visible_count_advances_by_step() {
    assert_eq!(next_visible_count(50, 312, 50), 100);
}

#[test]
fn next_visible_count_caps_at_total() {
    assert_eq!(next_visible_count(300, 312, 50), 312);
    assert_eq!(next_visible_count(312, 312, 50), 312);
}

#[test]
fn next_visible_count_handles_small_lists() {
    assert_eq!(next_visible_count(50, 10, 50), 10);
}

fn item(id: &str, name: &str, item_type: &str, rarity: &str, value: i32, workbench: Option<&str>, slots: &[&str]) -> Item {
    Item {
        id: id.to_string(),
        name: name.to_string(),
        description: String::new(),
        item_type: item_type.to_string(),
        loadout_slots: slots.iter().map(|s| s.to_string()).collect(),
        icon: String::new(),
        rarity: rarity.to_string(),
        value,
        workbench: workbench.map(|w| w.to_string()),
        flavor_text: None,
        loot_area: None,
        ammo_type: None,
        stats: vec![("Damage".to_string(), "12".to_string())],
    }
}

fn sample_items() -> Vec<Item> {
    vec![
        item("1", "Ferro", "Weapon", "Common", 300, Some("Gunsmith"), &["Weapon"]),
        item("2", "Anvil", "Weapon", "Rare", 900, Some("Gunsmith"), &["Weapon"]),
        item("3", "Bandage", "Consumable", "Common", 50, None, &["Quick Use"]),
        item("4", "Shield Recharger", "Consumable", "Uncommon", 900, Some("Medical Lab"), &["Quick Use", "Safe Pocket"]),
        item("5", "Gold Skin", "Cosmetic", "", 0, None, &[]),
        item("6", "bolt", "Material", "Legendary", 10, None, &[]),
    ]
}

fn filter(category: &str, value: &str) -> ActiveFilter {
    ActiveFilter { category: category.to_string(), value: value.to_string() }
}

fn ids(items: &[Item]) -> Vec<&str> {
    items.iter().map(|i| i.id.as_str()).collect()
}

#[test]
fn rarity_ranks_are_case_insensitive() {
    assert_eq!(rarity_rank("Common"), 1);
    assert_eq!(rarity_rank("uncommon"), 2);
    assert_eq!(rarity_rank("RARE"), 3);
    assert_eq!(rarity_rank("Epic"), 4);
    assert_eq!(rarity_rank("Legendary"), 5);
    assert_eq!(rarity_rank("Mythic"), 0);
    assert_eq!(rarity_rank(""), 0);
}

#[test]
fn filters_or_within_and_across_categories() {
    let items = sample_items();
    assert_eq!(ids(&apply_filters(&items, &[], "")), vec!["1", "2", "3", "4", "5", "6"]);
    assert_eq!(ids(&apply_filters(&items, &[], "BAND")), vec!["3"]);
    let weapons = [filter("type", "Weapon")];
    assert_eq!(ids(&apply_filters(&items, &weapons, "")), vec!["1", "2"]);
    let either = [filter("rarity", "Common"), filter("rarity", "Rare")];
    assert_eq!(ids(&apply_filters(&items, &either, "")), vec!["1", "2", "3"]);
    let both = [filter("type", "Consumable"), filter("rarity", "Common")];
    assert_eq!(ids(&apply_filters(&items, &both, "")), vec!["3"]);
    let bench = [filter("workbench", "Medical Lab")];
    assert_eq!(ids(&apply_filters(&items, &bench, "")), vec!["4"]);
    let slot = [filter("slot", "Safe Pocket")];
    assert_eq!(ids(&apply_filters(&items, &slot, "")), vec!["4"]);
    assert_eq!(ids(&apply_filters(&items, &slot, "ferro")), Vec::<&str>::new());
}

#[test]
fn sorts_by_name_value_and_rarity() {
    let mut items = sample_items();
    sort_items(&mut items, "name_asc");
    assert_eq!(ids(&items), vec!["2", "3", "6", "1", "5", "4"]);
    let mut items = sample_items();
    sort_items(&mut items, "value_desc");
    assert_eq!(ids(&items), vec!["2", "4", "1", "3", "6", "5"]);
    let mut items = sample_items();
    sort_items(&mut items, "rarity_desc");
    assert_eq!(ids(&items), vec!["6", "2", "4", "1", "3", "5"]);
    let mut items = sample_items();
    sort_items(&mut items, "anything else");
    assert_eq!(ids(&items), vec!["2", "3", "6", "1", "5", "4"]);
}

#[test]
fn filter_values_are_sorted_and_distinct() {
    let items = sample_items();
    let (types, rarities, workbenches, slots) = extract_filter_values(&items);
    assert_eq!(types, vec!["Consumable", "Cosmetic", "Material", "Weapon"]);
    assert_eq!(rarities, vec!["", "Common", "Legendary", "Rare", "Uncommon"]);
    assert_eq!(workbenches, vec!["Gunsmith", "Medical Lab"]);
    assert_eq!(slots, vec!["Quick Use", "Safe Pocket", "Weapon"]);
}

#[test]
fn sections_split_on_rarity() {
    let items = sample_items();
    assert_eq!(ids(&section_items(&items, true)), vec!["5"]);
    assert_eq!(ids(&section_items(&items, false)), vec!["1", "2", "3", "4", "6"]);
}

#[test]
fn adding_and_removing_filter_chips() {
    let one = add_filter(Vec::new(), filter("type", "Weapon"));
    assert_eq!(one, vec![filter("type", "Weapon")]);
    let same = add_filter(one.clone(), filter("type", "Weapon"));
    assert_eq!(same, one);
    let two = add_filter(same, filter("rarity", "Rare"));
    assert_eq!(two.len(), 2);
    let back = remove_filter(two, &filter("type", "Weapon"));
    assert_eq!(back, vec![filter("rarity", "Rare")]);
    assert_eq!(remove_filter(back.clone(), &filter("slot", "x")), back);
}

#[test]
fn sort_choices_per_section() {
    let cosmetics = sort_options(true);
    assert_eq!(cosmetics, vec![("name_asc".to_string(), "Name (A-Z)".to_string())]);
    let game = sort_options(false);
    assert_eq!(game.len(), 3);
    assert_eq!(game[2], ("rarity_desc".to_string(), "Rarity (High-Low)".to_string()));
}

fn strings(v: &[&str]) -> Vec<String> {
    v.iter().map(|s| s.to_string()).collect()
}

#[test]
fn filter_options_have_headers_and_encoded_values() {
    let opts = build_filter_options(&strings(&["Weapon"]), &[], &strings(&["Gunsmith"]), &strings(&["Quick Use", "Weapon"]));
    let got: Vec<(&str, &str)> = opts.iter().map(|(v, l)| (v.as_str(), l.as_str())).collect();
    assert_eq!(
        got,
        vec![
            ("__header_type", "-- Type --"),
            ("type:Weapon", "Weapon"),
            ("__header_workbench", "-- Workbench --"),
            ("workbench:Gunsmith", "Gunsmith"),
            ("__header_slot", "-- Loadout Slot --"),
            ("slot:Quick Use", "Quick Use"),
            ("slot:Weapon", "Weapon"),
        ]
    );
    assert!(build_filter_options(&[], &[], &[], &[]).is_empty());
}

#[test]
fn selections_parse_at_the_first_colon() {
    assert_eq!(parse_filter_selection("type:Weapon"), Some(filter("type", "Weapon")));
    assert_eq!(parse_filter_selection("slot:a:b"), Some(filter("slot", "a:b")));
    assert_eq!(parse_filter_selection(":x"), Some(filter("", "x")));
    assert_eq!(parse_filter_selection("nocolon"), None);
    assert_eq!(selection_to_filter("__header_type"), None);
    assert_eq!(selection_to_filter("rarity:Epic"), Some(filter("rarity", "Epic")));
}

#[test]
fn every_option_selects_its_filter() {
    let opts = build_filter_options(&strings(&["A:B"]), &strings(&["Rare"]), &[], &[]);
    let chosen: Vec<Option<ActiveFilter>> = opts.iter().map(|(v, _)| selection_to_filter(v)).collect();
    assert_eq!(
        chosen,
        vec![None, Some(filter("type", "A:B")), None, Some(filter("rarity", "Rare"))]
    );
}

#[test]
fn rarity_classes_are_lowercase_and_hyphenated() {
    assert_eq!(rarity_class("item-card", "Very Rare"), "item-card item-card--very-rare");
    assert_eq!(rarity_class("trader-item-card", "Epic"), "trader-item-card trader-item-card--epic");
    assert_eq!(rarity_class("item-card", ""), "item-card item-card--");
}

#[test]
fn dropdown_shows_label_of_selected_value() {
    let opts = vec![
        ("a".to_string(), "Alpha".to_string()),
        ("b".to_string(), "Beta".to_string()),
        ("a".to_string(), "Again".to_string()),
    ];
    assert_eq!(selected_label(&opts, "a"), "Alpha");
    assert_eq!(selected_label(&opts, "b"), "Beta");
    assert_eq!(selected_label(&opts, "Add Filter"), "Add Filter");
}

#[test]
fn trader_options_fall_back_when_empty() {
    let fallback = fallback_options();
    let names: Vec<&str> = fallback.iter().map(|(v, _)| v.as_str()).collect();
    assert_eq!(names, vec!["Apollo", "Celeste", "Lance", "Shani", "Tian Wen"]);
    assert!(fallback.iter().all(|(v, l)| v == l));
    assert_eq!(trader_options(&[]), fallback);
    assert_eq!(
        trader_options(&strings(&["Lance"])),
        vec![("Lance".to_string(), "Lance".to_string())]
    );
}

#[test]
fn navbar_modes_and_labels() {
    assert_eq!(NavbarDisplayMode::all(), vec![NavbarDisplayMode::Icons, NavbarDisplayMode::Text, NavbarDisplayMode::Both]);
    assert_eq!(NavbarDisplayMode::Text.label(), "Text");
    assert!(NavbarDisplayMode::Icons.show_icons() && !NavbarDisplayMode::Icons.show_text());
    assert!(!NavbarDisplayMode::Text.show_icons() && NavbarDisplayMode::Text.show_text());
    assert!(NavbarDisplayMode::Both.show_icons() && NavbarDisplayMode::Both.show_text());
    assert_eq!(NavbarDisplayMode::Both.to_string(), "Both");
    let opts = navbar_options();
    assert_eq!(opts[0], ("Icons".to_string(), "Icons".to_string()));
    assert_eq!(opts.len(), 3);
}

#[test]
fn descending_bots_are_ascending_reversed_even_with_ties() {
    let bots = vec![bot("1", "Rocketeer"), bot("2", "tick"), bot("3", "Tick"), bot("4", "Bastion")];
    let ids = |v: &Vec<Bot>| v.iter().map(|b| b.id.clone()).collect::<Vec<_>>();
    let asc = filter_and_sort_bots(&bots, "", false);
    let mut desc = ids(&filter_and_sort_bots(&bots, "", true));
    desc.reverse();
    assert_eq!(ids(&asc), vec!["4", "1", "2", "3"]);
    assert_eq!(desc, ids(&asc));
}

#[test]
fn event_filter_chips_are_active_when_selected() {
    let selected = strings(&["Dam", "Spaceport"]);
    assert!(chip_is_active(&selected, "Dam"));
    assert!(!chip_is_active(&selected, "dam"));
    assert_eq!(chip_class(&selected, "Spaceport"), "event-filters__chip event-filters__chip--active");
    assert_eq!(chip_class(&selected, "Buried City"), "event-filters__chip");
    assert_eq!(chip_class(&[], "Dam"), "event-filters__chip");
}
