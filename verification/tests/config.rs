use button_hub::config::{
    hub_config, parse_u16, port_setting, DEFAULT_API_PORT, DEFAULT_MQTT_PORT, EVENT_LOG_CAPACITY,
};

#[test]
fn parse_u16_agrees_with_std() {
    let cases = [
        "1883", "+80", "0", "00080", "65535", "65536", "99999999999", "", "+", "-1", "-0", " 80",
        "80 ", "8_0", "0x10", "\u{663}", "++1", "1+", "+65535", "+65536",
    ];
    for s in cases {
        assert_eq!(parse_u16(s), s.parse::<u16>().ok(), "input {:?}", s);
    }
}

#[test]
fn port_setting_falls_back_to_default() {
    assert_eq!(port_setting(Some("8080".to_string()), 3000), 8080);
    assert_eq!(port_setting(Some("http".to_string()), 3000), 3000);
    assert_eq!(port_setting(Some("70000".to_string()), 1883), 1883);
    assert_eq!(port_setting(None, 1883), 1883);
}

#[test]
fn hub_config_defaults() {
    let c = hub_config(None, None, None, None, 4242);
    assert_eq!(c.mqtt_host, "localhost");
    assert_eq!(c.mqtt_port, DEFAULT_MQTT_PORT);
    assert_eq!(c.mqtt_port, 1883);
    assert_eq!(c.client_id, "button-hub-4242");
    assert_eq!(c.api_port, DEFAULT_API_PORT);
    assert_eq!(c.api_port, 3000);
    assert_eq!(c.log_capacity, EVENT_LOG_CAPACITY);
    assert_eq!(c.log_capacity, 500);
}

#[test]
fn hub_config_takes_set_values() {
    let c = hub_config(
        Some("broker.lan".to_string()),
        Some("1884".to_string()),
        Some("hub-a".to_string()),
        Some("bad".to_string()),
        1,
    );
    assert_eq!(c.mqtt_host, "broker.lan");
    assert_eq!(c.mqtt_port, 1884);
    assert_eq!(c.client_id, "hub-a");
    assert_eq!(c.api_port, 3000);
}

