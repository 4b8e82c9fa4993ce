use button_hub::event::{ActionType, Event, Timestamp};
use button_hub::registry::{Button, ButtonRegistry, SILENT_HANDLER};

fn make_event(button_id: &str, action: &str) -> Event {
    Event {
        button_id: button_id.to_string(),
        action: ActionType::from(action),
        battery: Some(100),
        timestamp: Timestamp { secs: 1_700_000_000, nanos: 0 },
    }
}

#[test]
fn dispatch_calls_handler_once() {
    let mut registry = ButtonRegistry::new(500);
    registry.register(Button::new("btn1".to_string(), 7));
    assert_eq!(registry.dispatch(make_event("btn1", "single")), Some(7));
    assert_eq!(registry.dispatch(make_event("btn1", "double")), Some(7));
}

#[test]
fn dispatch_unknown_button_logs_warning() {
    let mut registry = ButtonRegistry::new(500);
    assert_eq!(registry.dispatch(make_event("unknown", "single")), None);
    let events = registry.latest_events(10);
    assert_eq!(events.len(), 1);
}

#[test]
fn event_log_capped_at_capacity() {
    let mut registry = ButtonRegistry::new(10);
    for i in 0..15 {
        let mut ev = make_event("btn", "single");
        ev.button_id = format!("btn{}", i);
        registry.dispatch(ev);
    }
    assert_eq!(registry.latest_events(usize::MAX).len(), 10);
}

#[test]
fn latest_events_returns_chronological_order() {
    let mut registry = ButtonRegistry::new(500);
    for i in 0..5 {
        let mut ev = make_event("btn", "single");
        ev.button_id = format!("btn{}", i);
        registry.dispatch(ev);
    }
    let events = registry.latest_events(3);
    assert_eq!(events.len(), 3);
    assert_eq!(events[0].button_id, "btn2");
    assert_eq!(events[1].button_id, "btn3");
    assert_eq!(events[2].button_id, "btn4");
}

#[test]
fn last_event_for_none_when_empty() {
    let registry = ButtonRegistry::new(500);
    assert!(registry.last_event_for("btn1").is_none());
}

#[test]
fn register_button_id_adds_to_registry() {
    let mut registry = ButtonRegistry::new(500);
    registry.register_button_id("btn_x");
    let ids = registry.button_ids();
    assert!(ids.contains(&"btn_x".to_string()));
}

#[test]
fn unregister_button_id_removes_from_registry() {
    let mut registry = ButtonRegistry::new(500);
    registry.register_button_id("btn_y");
    assert!(registry.unregister_button_id("btn_y"));
    let ids = registry.button_ids();
    assert!(!ids.contains(&"btn_y".to_string()));
}

#[test]
fn unregister_unknown_button_id_returns_false() {
    let mut registry = ButtonRegistry::new(500);
    assert!(!registry.unregister_button_id("no_such_btn"));
}

#[test]
fn register_empty_button_id_ignored() {
    let mut registry = ButtonRegistry::new(500);
    registry.register_button_id("   ");
    assert!(registry.button_ids().is_empty());
}

// --- Further cases ---

#[test]
fn zero_capacity_keeps_the_newest_event() {
    let mut registry = ButtonRegistry::new(0);
    registry.dispatch(make_event("a", "single"));
    registry.dispatch(make_event("b", "double"));
    let all = registry.latest_events(usize::MAX);
    assert_eq!(all.len(), 1);
    assert_eq!(all[0].button_id, "b");
}

#[test]
fn last_event_for_returns_newest_of_that_button() {
    let mut registry = ButtonRegistry::new(500);
    registry.dispatch(make_event("a", "single"));
    registry.dispatch(make_event("b", "single"));
    registry.dispatch(make_event("a", "double"));
    registry.dispatch(make_event("b", "hold"));
    let e = registry.last_event_for("a").unwrap();
    assert_eq!(e.action, ActionType::Double);
    assert_eq!(registry.last_event_for("b").unwrap().action, ActionType::LongPress);
    assert!(registry.last_event_for("c").is_none());
}

#[test]
fn events_for_button_filters_and_limits() {
    let mut registry = ButtonRegistry::new(500);
    for i in 0..6 {
        let mut e = make_event(if i % 2 == 0 { "a" } else { "b" }, "single");
        e.battery = Some(i as u8);
        registry.dispatch(e);
    }
    let a = registry.events_for_button("a", 2);
    assert_eq!(a.len(), 2);
    assert_eq!(a[0].battery, Some(2));
    assert_eq!(a[1].battery, Some(4));
    assert_eq!(registry.events_for_button("a", 100).len(), 3);
    assert_eq!(registry.events_for_button("z", 100).len(), 0);
    assert_eq!(registry.events_for_button("a", 0).len(), 0);
}

#[test]
fn registering_twice_keeps_one_id() {
    let mut registry = ButtonRegistry::new(5);
    registry.register(Button::new("x".to_string(), 1));
    registry.register(Button::new("x".to_string(), 2));
    registry.register_button_id(" y ");
    assert_eq!(registry.dispatch(make_event("x", "single")), Some(2));
    assert_eq!(registry.dispatch(make_event(" y ", "single")), Some(SILENT_HANDLER));
    assert_eq!(registry.dispatch(make_event("y", "single")), None);
    let mut ids = registry.button_ids();
    ids.sort();
    assert_eq!(ids, vec![" y ".to_string(), "x".to_string()]);
    assert!(registry.unregister_button_id("x"));
    assert!(!registry.unregister_button_id("x"));
}

#[test]
fn read_gives_back_the_dispatched_event() {
    let mut registry = ButtonRegistry::new(3);
    for i in 0..7 {
        let mut e = make_event("k", "single");
        e.battery = Some(i);
        registry.dispatch(e.clone());
        assert_eq!(registry.latest_events(1), vec![e.clone()]);
        assert_eq!(registry.last_event_for("k"), Some(e));
    }
}
