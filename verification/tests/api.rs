use button_hub::api::{
    buttons, default_limit, event_by_button_id, events, health, history_by_button_id, missed_message,
    register_button, unregister_button, EventsQuery, RegisterRequest, MAX_LIMIT,
};
use button_hub::event::{ActionType, Event, Timestamp};
use button_hub::registry::{Button, ButtonRegistry};

fn setup() -> ButtonRegistry {
    let mut registry = ButtonRegistry::new(500);
    registry.register(Button::new("button_1".to_string(), 1));
    registry.register(Button::new("button_2".to_string(), 2));
    registry
}

fn event(id: &str) -> Event {
    Event {
        button_id: id.to_string(),
        action: ActionType::Single,
        battery: None,
        timestamp: Timestamp { secs: 0, nanos: 0 },
    }
}

#[test]
fn buttons_returns_registered_ids() {
    let registry = setup();
    let r = buttons(&registry);
    assert_eq!(r.buttons.len(), 2);
    assert!(r.buttons.iter().any(|b| b == "button_1"));
    assert!(r.buttons.iter().any(|b| b == "button_2"));
}

#[test]
fn events_empty_initially() {
    let registry = setup();
    let r = events(&registry, EventsQuery { limit: default_limit() });
    assert_eq!(r.events.len(), 0);
    assert_eq!(r.count, 0);
}

#[test]
fn events_returns_dispatched_event() {
    let mut registry = setup();
    let mut e = event("button_1");
    e.battery = Some(85);
    registry.dispatch(e);
    let r = events(&registry, EventsQuery { limit: default_limit() });
    assert_eq!(r.count, 1);
    assert_eq!(r.events[0].button_id, "button_1");
}

#[test]
fn events_limit_respected() {
    let mut registry = setup();
    for i in 0..10 {
        registry.dispatch(event(&format!("btn{}", i)));
    }
    let r = events(&registry, EventsQuery { limit: 5 });
    assert_eq!(r.events.len(), 5);
    assert_eq!(r.events[0].button_id, "btn5");
    assert_eq!(r.events[4].button_id, "btn9");
}

#[test]
fn events_limit_capped_at_max() {
    let mut registry = setup();
    for i in 0..200 {
        registry.dispatch(event(&format!("x{}", i)));
    }
    let r = events(&registry, EventsQuery { limit: 1000 });
    assert_eq!(r.count, MAX_LIMIT);
}

#[test]
fn event_by_unknown_id_returns_404() {
    let registry = setup();
    let err = event_by_button_id(&registry, "unknown_button").unwrap_err();
    assert_eq!(err.status, 404);
    assert_eq!(err.error, "not found");
}

#[test]
fn register_button_adds_id() {
    let mut registry = setup();
    let r = register_button(&mut registry, RegisterRequest { button_id: "new_btn".to_string() }).ok().unwrap();
    assert!(r.registered);
    assert_eq!(r.button_id, "new_btn");
    assert!(buttons(&registry).buttons.iter().any(|b| b == "new_btn"));
}

#[test]
fn register_trims_but_answers_with_the_sent_id() {
    let mut registry = setup();
    let r = register_button(&mut registry, RegisterRequest { button_id: "  padded ".to_string() }).ok().unwrap();
    assert_eq!(r.button_id, "  padded ");
    assert!(buttons(&registry).buttons.iter().any(|b| b == "padded"));
}

#[test]
fn unregister_button_removes_id() {
    let mut registry = setup();
    let r = unregister_button(&mut registry, "button_1".to_string()).ok().unwrap();
    assert!(r.unregistered);
    assert_eq!(r.button_id, "button_1");
    assert!(!buttons(&registry).buttons.iter().any(|b| b == "button_1"));
}

#[test]
fn unregister_unknown_button_returns_404() {
    let mut registry = setup();
    let err = unregister_button(&mut registry, "unknown".to_string()).err().unwrap();
    assert_eq!(err.status, 404);
}

#[test]
fn register_empty_button_id_returns_400() {
    let mut registry = setup();
    let err = register_button(&mut registry, RegisterRequest { button_id: "  ".to_string() }).err().unwrap();
    assert_eq!(err.status, 400);
}

#[test]
fn register_button_id_too_long_returns_400() {
    let mut registry = setup();
    let err = register_button(&mut registry, RegisterRequest { button_id: "a".repeat(65) }).err().unwrap();
    assert_eq!(err.status, 400);
    assert_eq!(err.error, "button_id must be 1-64 characters");
}

#[test]
fn register_button_id_exactly_64_chars_succeeds() {
    let mut registry = setup();
    let r = register_button(&mut registry, RegisterRequest { button_id: "a".repeat(64) }).ok().unwrap();
    assert!(r.registered);
    assert_eq!(r.button_id.len(), 64);
}

#[test]
fn register_counts_chars_not_bytes() {
    let mut registry = setup();
    // 40 two-byte characters: 80 bytes, but 40 characters.
    let r = register_button(&mut registry, RegisterRequest { button_id: "é".repeat(40) }).ok().unwrap();
    assert!(r.registered);
    assert!(registry.button_ids().contains(&"é".repeat(40)));
    assert!(register_button(&mut registry, RegisterRequest { button_id: "é".repeat(64) }).is_ok());
    let err = register_button(&mut registry, RegisterRequest { button_id: "é".repeat(65) }).err().unwrap();
    assert_eq!(err.status, 400);
}

#[test]
fn history_by_button_id_lists_that_button() {
    let mut registry = setup();
    registry.dispatch(event("button_1"));
    registry.dispatch(event("button_2"));
    registry.dispatch(event("button_1"));
    let r = history_by_button_id(&registry, "button_1", EventsQuery { limit: 20 });
    assert_eq!(r.count, 2);
    assert!(r.events.iter().all(|e| e.button_id == "button_1"));
    let last = event_by_button_id(&registry, "button_2").ok().unwrap();
    assert_eq!(last.button_id, "button_2");
}

#[test]
fn missed_message_text() {
    assert_eq!(missed_message(3), "{\"type\":\"missed\",\"count\":3}");
    assert_eq!(missed_message(0), "{\"type\":\"missed\",\"count\":0}");
}

#[test]
fn default_limit_is_twenty() {
    assert_eq!(default_limit(), 20);
}

#[test]
fn health_returns_ok() {
    let h = health("2024-01-01T12:00:00+00:00".to_string());
    assert_eq!(h.status, "ok");
    assert_eq!(h.timestamp, "2024-01-01T12:00:00+00:00");
}
