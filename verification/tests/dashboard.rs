use button_hub::api::HealthResponse;
use button_hub::dashboard::{
    api_online, battery_class, battery_label, battery_style, format_time, last_action_label,
    ButtonCard, StatusBar,
    last_listed_event, last_seen_label, status_dot_class, status_label, timeline_events,
    MAX_UTC_SECS, MIN_UTC_SECS, TIMELINE_EVENTS,
};
use button_hub::event::{ActionType, Event, Timestamp};

fn event(id: &str, secs: i64) -> Event {
    Event {
        button_id: id.to_string(),
        action: ActionType::Single,
        battery: Some(80),
        timestamp: Timestamp { secs, nanos: 0 },
    }
}

#[test]
fn format_time_shows_utc_time_of_day() {
    // 2023-11-14 22:13:20 UTC
    assert_eq!(format_time(&Timestamp { secs: 1_700_000_000, nanos: 0 }), "22:13:20");
    assert_eq!(format_time(&Timestamp { secs: 0, nanos: 999_999_999 }), "00:00:00");
    assert_eq!(format_time(&Timestamp { secs: -1, nanos: 0 }), "23:59:59");
    assert_eq!(format_time(&Timestamp { secs: 3_725, nanos: 0 }), "01:02:05");
}

#[test]
fn format_time_shows_second_sixty_in_a_leap_second() {
    assert_eq!(format_time(&Timestamp { secs: 59, nanos: 1_500_000_000 }), "00:00:60");
}

#[test]
fn format_time_holds_at_the_ends_of_the_calendar() {
    assert_eq!(format_time(&Timestamp { secs: MAX_UTC_SECS, nanos: 0 }), "23:59:59");
    assert_eq!(format_time(&Timestamp { secs: MIN_UTC_SECS, nanos: 0 }), "00:00:00");
}

#[test]
fn battery_class_thresholds() {
    assert_eq!(battery_class(100), "battery-high");
    assert_eq!(battery_class(51), "battery-high");
    assert_eq!(battery_class(50), "battery-med");
    assert_eq!(battery_class(21), "battery-med");
    assert_eq!(battery_class(20), "battery-low");
    assert_eq!(battery_class(0), "battery-low");
}

#[test]
fn battery_fields() {
    assert_eq!(battery_label(Some(87)), "87%");
    assert_eq!(battery_label(Some(0)), "0%");
    assert_eq!(battery_label(None), "\u{2014}");
    assert_eq!(battery_style(Some(30)), "stat-value battery battery-med");
    assert_eq!(battery_style(None), "stat-value");
}

#[test]
fn card_fields_of_last_event() {
    let e = Some(event("b", 3_725));
    assert_eq!(last_action_label(&e), "Single");
    assert_eq!(last_seen_label(&e), "01:02:05");
    assert_eq!(last_action_label(&None), "\u{2014}");
    assert_eq!(last_seen_label(&None), "\u{2014}");
}

#[test]
fn status_bar_texts() {
    assert_eq!(status_dot_class(true), "status-dot online");
    assert_eq!(status_dot_class(false), "status-dot offline");
    assert_eq!(status_label("API", true), "API Online");
    assert_eq!(status_label("MQTT", false), "MQTT Offline");
}

#[test]
fn health_ok_means_online() {
    let up = HealthResponse { status: "ok".to_string(), timestamp: String::new() };
    let down = HealthResponse { status: "degraded".to_string(), timestamp: String::new() };
    assert!(api_online(&up));
    assert!(!api_online(&down));
}

#[test]
fn timeline_shows_first_twenty() {
    let events: Vec<Event> = (0..25).map(|i| event(&format!("b{}", i), i)).collect();
    let shown = timeline_events(&events);
    assert_eq!(shown.len(), TIMELINE_EVENTS);
    assert_eq!(shown[0].button_id, "b0");
    assert_eq!(shown[19].button_id, "b19");
    let few = vec![event("x", 1)];
    assert_eq!(timeline_events(&few), few);
}

#[test]
fn card_event_is_the_last_listed_one() {
    let events = vec![event("a", 1), event("b", 2), event("a", 3)];
    assert_eq!(last_listed_event(&events, "a"), Some(event("a", 3)));
    assert_eq!(last_listed_event(&events, "b"), Some(event("b", 2)));
    assert_eq!(last_listed_event(&events, "c"), None);
}

#[test]
fn button_card_of_a_seen_button() {
    let mut e = event("kitchen", 3_725);
    e.battery = Some(15);
    e.action = ActionType::LongPress;
    let card = ButtonCard::new("kitchen", &Some(e));
    assert_eq!(card.name, "kitchen");
    assert_eq!(card.dot_class, "status-dot online");
    assert_eq!(card.last_action, "Long Press");
    assert_eq!(card.battery_class, "stat-value battery battery-low");
    assert_eq!(card.battery, "15%");
    assert_eq!(card.last_seen, "01:02:05");
}

#[test]
fn button_card_of_a_silent_button() {
    let card = ButtonCard::new("hall", &None);
    assert_eq!(card.name, "hall");
    assert_eq!(card.dot_class, "status-dot offline");
    assert_eq!(card.last_action, "\u{2014}");
    assert_eq!(card.battery_class, "stat-value");
    assert_eq!(card.battery, "\u{2014}");
    assert_eq!(card.last_seen, "\u{2014}");
}

#[test]
fn status_bar_reports_both_services() {
    let bar = StatusBar::new(true, false);
    assert_eq!(bar.api_dot, "status-dot online");
    assert_eq!(bar.api_label, "API Online");
    assert_eq!(bar.mqtt_dot, "status-dot offline");
    assert_eq!(bar.mqtt_label, "MQTT Offline");
}
