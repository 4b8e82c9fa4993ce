//! Turning a Zigbee2MQTT publish (topic and JSON payload) into a button
//! event (the MQTT connection itself is outside).

use vstd::prelude::*;
use crate::event::{ActionType, ActionView, Event, Timestamp, action_from_raw};
use crate::text::{has_prefix, starts_with, text_eq};

verus! {

/// What a payload gives: when it parses as JSON, the string found at key
/// `text_key` and the unsigned integer found at key `number_key` (each
/// `None` when absent or of another kind); `None` when it is not JSON.
pub uninterp spec fn json_fields(payload: Seq<u8>, text_key: Seq<char>, number_key: Seq<char>) -> Option<(Option<Seq<char>>, Option<u64>)>;

/// Parses `payload` with `serde_json::from_slice` into a `serde_json::Value`
/// and reads two of its fields with `Value::get`, `Value::as_str` and
/// `Value::as_u64`. The result is named `json_fields`; what JSON parsing
/// accepts is not stated here.
#[verifier::external_body]
fn read_json_fields(payload: &[u8], text_key: &str, number_key: &str) -> (r: Option<(Option<String>, Option<u64>)>)
    ensures
        match r {
            None => json_fields(payload@, text_key@, number_key@) is None,
            Some((t, n)) => json_fields(payload@, text_key@, number_key@) == Some((
                match t {
                    Some(s) => Some(s@),
                    None => None,
                },
                n,
            )),
        },
{
    match serde_json::from_slice::<serde_json::Value>(payload) {
        Ok(v) => Some((
            v.get(text_key).and_then(|x| x.as_str()).map(|s| s.to_string()),
            v.get(number_key).and_then(|x| x.as_u64()),
        )),
        Err(_) => None,
    }
}

/// Why a publish yields no event.
#[derive(Debug, Clone, Copy, PartialEq, Eq, Structural)]
pub enum SkipReason {
    /// A message of the bridge itself (`zigbee2mqtt/bridge...`).
    Bridge,
    /// The payload is not JSON.
    Malformed,
    /// The payload names no action (or an empty one).
    NoAction,
}

/// The button a topic speaks of: the topic without its `zigbee2mqtt/`
/// prefix (the whole topic when it lacks one).
pub open spec fn topic_button(topic: Seq<char>) -> Seq<char> {
    if has_prefix(topic, "zigbee2mqtt/"@) {
        topic.subrange(12, topic.len() as int)
    } else {
        topic
    }
}

/// Topics of the bridge itself.
pub open spec fn is_bridge(id: Seq<char>) -> bool {
    id == "bridge"@ || has_prefix(id, "bridge/"@)
}

/// A battery value as a byte (the low eight bits, as `as u8` keeps them).
pub open spec fn battery_byte(v: u64) -> u8 {
    (v % 256) as u8
}

/// The reading of a publish: the button id, the action and the battery of
/// its event, or why there is none.
pub open spec fn publish_reading(topic: Seq<char>, fields: Option<(Option<Seq<char>>, Option<u64>)>) -> Result<(Seq<char>, ActionView, Option<u8>), SkipReason> {
    let id = topic_button(topic);
    if is_bridge(id) {
        Err(SkipReason::Bridge)
    } else {
        match fields {
            None => Err(SkipReason::Malformed),
            Some((action, battery)) => {
                let a = match action {
                    Some(s) => s,
                    None => Seq::empty(),
                };
                if a.len() == 0 {
                    Err(SkipReason::NoAction)
                } else {
                    Ok((
                        id,
                        action_from_raw(a),
                        match battery {
                            Some(v) => Some(battery_byte(v)),
                            None => None,
                        },
                    ))
                }
            },
        }
    }
}

/// The event for a publish on `topic` whose payload gave `fields`, or why
/// there is none.
pub fn event_from_fields(topic: &str, fields: Option<(Option<String>, Option<u64>)>, timestamp: Timestamp) -> (r: Result<Event, SkipReason>)
    ensures
        match (r, publish_reading(topic@, match fields {
            None => None,
            Some((t, n)) => Some((
                match t {
                    Some(s) => Some(s@),
                    None => None,
                },
                n,
            )),
        })) {
            (Ok(e), Ok((id, action, battery))) => e.button_id@ == id && e.action@ == action
                && e.battery == battery && e.timestamp == timestamp,
            (Err(x), Err(y)) => x == y,
            _ => false,
        },
{
    proof { reveal_strlit("zigbee2mqtt/"); }
    let id = if starts_with(topic, "zigbee2mqtt/") {
        let n = topic.unicode_len();
        String::from_str(topic.substring_char(12, n))
    } else {
        String::from_str(topic)
    };
    if text_eq(id.as_str(), "bridge") || starts_with(id.as_str(), "bridge/") {
        return Err(SkipReason::Bridge);
    }
    match fields {
        None => Err(SkipReason::Malformed),
        Some((action, battery)) => {
            let action = match action {
                Some(s) => s,
                None => String::new(),
            };
            if action.as_str().is_empty() {
                return Err(SkipReason::NoAction);
            }
            let battery = match battery {
                Some(v) => Some((v % 256) as u8),
                None => None,
            };
            Ok(Event {
                button_id: id,
                action: ActionType::from(action.as_str()),
                battery,
                timestamp,
            })
        },
    }
}

/// The event for a Zigbee2MQTT publish on `topic` with `payload`, taking
/// its `action` and `battery` fields, or why there is none.
pub fn event_from_publish(topic: &str, payload: &[u8], timestamp: Timestamp) -> (r: Result<Event, SkipReason>)
    ensures
        match (r, publish_reading(topic@, json_fields(payload@, "action"@, "battery"@))) {
            (Ok(e), Ok((id, action, battery))) => e.button_id@ == id && e.action@ == action
                && e.battery == battery && e.timestamp == timestamp,
            (Err(x), Err(y)) => x == y,
            _ => false,
        },
{
    let fields = read_json_fields(payload, "action", "battery");
    event_from_fields(topic, fields, timestamp)
}

} // verus!
