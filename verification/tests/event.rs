use button_hub::event::{ActionType, Event, Timestamp};
use button_hub::dashboard::{format_action, record_live_event};

#[test]
fn action_type_from_single() {
    assert_eq!(ActionType::from("single"), ActionType::Single);
}

#[test]
fn action_type_from_double() {
    assert_eq!(ActionType::from("double"), ActionType::Double);
}

#[test]
fn action_type_from_long_press() {
    assert_eq!(ActionType::from("long_press"), ActionType::LongPress);
}

#[test]
fn action_type_from_hold() {
    assert_eq!(ActionType::from("hold"), ActionType::LongPress);
}

#[test]
fn action_type_from_long() {
    assert_eq!(ActionType::from("long"), ActionType::LongPress);
}

#[test]
fn action_type_from_bogus() {
    assert_eq!(
        ActionType::from("bogus"),
        ActionType::Unknown("bogus".to_string())
    );
}

// --- Serialization: an action is a JSON string holding its wire name ---

fn json_str(action: &ActionType) -> String {
    serde_json::to_string(&action.to_wire()).unwrap()
}

fn parse_action(json: &str) -> ActionType {
    ActionType::from_wire(&serde_json::from_str::<String>(json).unwrap())
}

#[test]
fn serialize_known_variants() {
    assert_eq!(json_str(&ActionType::Single), "\"Single\"");
    assert_eq!(json_str(&ActionType::Double), "\"Double\"");
    assert_eq!(json_str(&ActionType::LongPress), "\"LongPress\"");
}

#[test]
fn serialize_unknown() {
    assert_eq!(
        json_str(&ActionType::Unknown("long".to_string())),
        "\"Unknown(long)\""
    );
}

#[test]
fn deserialize_known_variants() {
    assert_eq!(parse_action("\"Single\""), ActionType::Single);
    assert_eq!(parse_action("\"Double\""), ActionType::Double);
    assert_eq!(parse_action("\"LongPress\""), ActionType::LongPress);
}

#[test]
fn deserialize_unknown_roundtrip() {
    let action = ActionType::Unknown("shake".to_string());
    let json = json_str(&action);
    assert_eq!(parse_action(&json), action);
}

#[test]
fn deserialize_plain_unknown() {
    assert_eq!(
        parse_action("\"weird_action\""),
        ActionType::Unknown("weird_action".to_string())
    );
}

#[test]
fn from_wire_edge_cases() {
    assert_eq!(ActionType::from_wire("Unknown()"), ActionType::Unknown(String::new()));
    assert_eq!(ActionType::from_wire("Unknown(Single)"), ActionType::Unknown("Single".to_string()));
    assert_eq!(ActionType::from_wire("Unknown("), ActionType::Unknown("Unknown(".to_string()));
    assert_eq!(ActionType::from_wire("single"), ActionType::Unknown("single".to_string()));
    assert_eq!(ActionType::from_wire("Unknown(é)"), ActionType::Unknown("é".to_string()));
}

#[test]
fn wire_roundtrip_for_every_kind() {
    let all = vec![
        ActionType::Single,
        ActionType::Double,
        ActionType::LongPress,
        ActionType::Unknown("Single".to_string()),
        ActionType::Unknown(String::new()),
        ActionType::Unknown("a(b)c)".to_string()),
    ];
    for a in all {
        assert_eq!(ActionType::from_wire(&a.to_wire()), a);
    }
}

#[test]
fn raw_strings_are_case_sensitive() {
    assert_eq!(ActionType::from("Single"), ActionType::Unknown("Single".to_string()));
    assert_eq!(ActionType::from(""), ActionType::Unknown(String::new()));
}

#[test]
fn format_action_names() {
    assert_eq!(format_action(&ActionType::Single), "Single");
    assert_eq!(format_action(&ActionType::Double), "Double");
    assert_eq!(format_action(&ActionType::LongPress), "Long Press");
    assert_eq!(format_action(&ActionType::Unknown("shake".to_string())), "Unknown (shake)");
}

fn make_event(id: &str) -> Event {
    Event {
        button_id: id.to_string(),
        action: ActionType::Single,
        battery: Some(50),
        timestamp: Timestamp { secs: 0, nanos: 0 },
    }
}

#[test]
fn event_clone_is_equal() {
    let e = make_event("btn1");
    assert_eq!(e.clone(), e);
}

#[test]
fn live_list_keeps_newest_hundred() {
    let mut events = Vec::new();
    for i in 0..150 {
        record_live_event(&mut events, make_event(&format!("b{}", i)));
    }
    assert_eq!(events.len(), 100);
    assert_eq!(events[0].button_id, "b149");
    assert_eq!(events[99].button_id, "b50");
}
