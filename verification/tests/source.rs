use arc_companion::services::source::{
    cache_badge_class, cache_badge_text, CacheSource, CacheState, L1State, L2State,
};

#[test]
fn label_matches_each_variant() {
    assert_eq!(CacheSource::Api.label(), "API");
    assert_eq!(CacheSource::Memory.label(), "Memory");
    assert_eq!(CacheSource::Disk.label(), "Disk");
    assert_eq!(CacheSource::Fallback.label(), "Fallback");
}

#[test]
fn css_class_matches_each_variant() {
    assert_eq!(CacheSource::Api.css_class(), "api");
    assert_eq!(CacheSource::Memory.css_class(), "memory");
    assert_eq!(CacheSource::Disk.css_class(), "disk");
    assert_eq!(CacheSource::Fallback.css_class(), "fallback");
}

#[test]
fn display_uses_label() {
    assert_eq!(CacheSource::Disk.to_string(), "Disk");
}

#[test]
fn l1_state_labels_and_css() {
    assert_eq!(L1State::Hit.label(), "hit");
    assert_eq!(L1State::Miss.label(), "miss");
    assert_eq!(L1State::Hit.css_class(), "hit");
}

#[test]
fn l2_state_labels_and_css() {
    assert_eq!(L2State::Fresh.label(), "fresh");
    assert_eq!(L2State::Stale.label(), "stale");
    assert_eq!(L2State::Miss.label(), "miss");
    assert_eq!(L2State::Stale.css_class(), "stale");
}

#[test]
fn pill_classes_carry_the_state() {
    assert_eq!(L1State::Miss.pill_class(), "cache-pill cache-pill--miss");
    assert_eq!(L2State::Fresh.pill_class(), "cache-pill cache-pill--fresh");
    let state = CacheState { l1: L1State::Hit, l2: L2State::Stale };
    assert_eq!(state.l1.pill_class(), "cache-pill cache-pill--hit");
    assert_eq!(state.l2.pill_class(), "cache-pill cache-pill--stale");
}

#[test]
fn badge_text_with_label_count_and_error() {
    assert_eq!(
        cache_badge_text(CacheSource::Memory, Some(18), &Some("Items".to_string()), &None),
        "Items: Memory \u{b7} 18"
    );
    assert_eq!(cache_badge_text(CacheSource::Api, None, &None, &None), "API");
    assert_eq!(
        cache_badge_text(CacheSource::Fallback, Some(0), &None, &Some("offline".to_string())),
        "Fallback \u{b7} 0 \u{b7} offline"
    );
    assert_eq!(cache_badge_text(CacheSource::Disk, Some(312), &None, &None), "Disk \u{b7} 312");
}

#[test]
fn badge_class_uses_css_modifier() {
    assert_eq!(cache_badge_class(CacheSource::Disk), "cache-badge cache-badge--disk");
    assert_eq!(cache_badge_class(CacheSource::Fallback), "cache-badge cache-badge--fallback");
}
