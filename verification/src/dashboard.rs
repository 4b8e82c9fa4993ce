//! What the dashboard computes: how actions, times, batteries and service
//! status are shown, which events the page lists, and the live event list
//! that the event stream feeds (the web page itself is outside).

use vstd::prelude::*;
use chrono::DateTime;
use crate::api::HealthResponse;
use crate::event::{ActionType, ActionView, Event, Timestamp};
use crate::registry::last_from;
use crate::text::{decimal, decimal_text, text_eq};
use crate::timer::two_digits;

verus! {

/// How the dashboard shows an action.
pub open spec fn display_text(a: ActionView) -> Seq<char> {
    match a {
        ActionView::Single => "Single"@,
        ActionView::Double => "Double"@,
        ActionView::LongPress => "Long Press"@,
        ActionView::Unknown(x) => "Unknown ("@ + x + ")"@,
    }
}

/// How the dashboard shows an action (`Long Press`, `Unknown (<text>)`).
pub fn format_action(action: &ActionType) -> (r: String)
    ensures
        r@ == display_text(action@),
{
    match action {
        ActionType::Single => String::from_str("Single"),
        ActionType::Double => String::from_str("Double"),
        ActionType::LongPress => String::from_str("Long Press"),
        ActionType::Unknown(s) => {
            let mut r = String::from_str("Unknown (");
            r.append(s.as_str());
            r.append(")");
            r
        },
    }
}

/// The most events the live list keeps.
pub const LIVE_EVENTS: usize = 100;

/// The live list after `event` arrives: the event in front, the list cut
/// to its first `LIVE_EVENTS` entries.
pub open spec fn live_after(events: Seq<Event>, event: Event) -> Seq<Event> {
    let s = seq![event] + events;
    if s.len() > 100 { s.take(100) } else { s }
}

/// Puts a newly streamed event at the front of the live list, which keeps
/// the newest `LIVE_EVENTS` events, newest first.
pub fn record_live_event(events: &mut Vec<Event>, event: Event)
    ensures
        final(events)@ == live_after(old(events)@, event),
{
    events.insert(0, event);
    if events.len() > LIVE_EVENTS {
        events.truncate(LIVE_EVENTS);
    }
    assert(final(events)@ =~= live_after(old(events)@, event));
}

/// The earliest second that `chrono::DateTime<Utc>` can hold
/// (January 1 of year -262143, 00:00:00 UTC).
pub const MIN_UTC_SECS: i64 = -8334601228800;

/// The latest second that `chrono::DateTime<Utc>` can hold
/// (December 31 of year 262142, 23:59:59 UTC).
pub const MAX_UTC_SECS: i64 = 8210266876799;

/// Whether `(secs, nanos)` is a point in time that a UTC date-time can hold:
/// within the calendar's range, and with nanoseconds past one second only
/// during a leap second (the last second of a minute).
pub open spec fn representable(secs: int, nanos: int) -> bool {
    &&& MIN_UTC_SECS <= secs <= MAX_UTC_SECS
    &&& nanos < 2_000_000_000
    &&& nanos >= 1_000_000_000 ==> secs % 60 == 59
}

/// The UTC time of day of `(secs, nanos)` as `HH:MM:SS`, the seconds showing
/// 60 during a leap second.
pub open spec fn utc_clock_text(secs: int, nanos: int) -> Seq<char> {
    let day_secs = secs % 86400;
    let leap: int = if nanos >= 1_000_000_000 { 1 } else { 0 };
    two_digits((day_secs / 3600) as nat) + seq![':'] + two_digits(((day_secs % 3600) / 60) as nat)
        + seq![':'] + two_digits((day_secs % 60 + leap) as nat)
}

/// `chrono::DateTime::from_timestamp`, then `format("%H:%M:%S")`: the time
/// of day in UTC, each part zero-padded to two digits. `from_timestamp` gives
/// `None` exactly for the points in time a date-time cannot hold.
#[verifier::external_body]
fn chrono_time_of_day(secs: i64, nanos: u32) -> (r: Option<String>)
    ensures
        (r is Some) == representable(secs as int, nanos as int),
        r matches Some(t) ==> t@ == utc_clock_text(secs as int, nanos as int),
{
    match DateTime::from_timestamp(secs, nanos) {
        Some(t) => Some(t.format("%H:%M:%S").to_string()),
        None => None,
    }
}

/// How the dashboard shows when an event happened: its UTC time of day.
pub fn format_time(timestamp: &Timestamp) -> (r: String)
    requires
        representable(timestamp.secs as int, timestamp.nanos as int),
    ensures
        r@ == utc_clock_text(timestamp.secs as int, timestamp.nanos as int),
{
    match chrono_time_of_day(timestamp.secs, timestamp.nanos) {
        Some(t) => t,
        None => String::new(),
    }
}

/// What the dashboard shows where a value is missing.
pub open spec fn missing_text() -> Seq<char> {
    seq!['\u{2014}']
}

fn missing() -> (r: String)
    ensures
        r@ == missing_text(),
{
    let r = String::from_str("\u{2014}");
    proof { reveal_strlit("\u{2014}"); }
    r
}

/// The style class of a battery level: high above 50, medium above 20,
/// low otherwise.
pub open spec fn battery_class_text(level: u8) -> Seq<char> {
    if level > 50 {
        "battery-high"@
    } else if level > 20 {
        "battery-med"@
    } else {
        "battery-low"@
    }
}

/// The style class of a battery level.
pub fn battery_class(level: u8) -> (r: String)
    ensures
        r@ == battery_class_text(level),
{
    if level > 50 {
        String::from_str("battery-high")
    } else if level > 20 {
        String::from_str("battery-med")
    } else {
        String::from_str("battery-low")
    }
}

/// The style of the battery field of a button card: coloured by level when
/// the level is known.
pub fn battery_style(battery: Option<u8>) -> (r: String)
    ensures
        r@ == (match battery {
            Some(b) => "stat-value battery "@ + battery_class_text(b),
            None => "stat-value"@,
        }),
{
    match battery {
        Some(b) => {
            let mut r = String::from_str("stat-value battery ");
            let c = battery_class(b);
            r.append(c.as_str());
            r
        },
        None => String::from_str("stat-value"),
    }
}

/// The battery field of a button card: the level with a percent sign, or a
/// dash when it is not known.
pub fn battery_label(battery: Option<u8>) -> (r: String)
    ensures
        r@ == (match battery {
            Some(b) => decimal(b as nat) + "%"@,
            None => missing_text(),
        }),
{
    match battery {
        Some(b) => {
            let mut r = decimal_text(b as u64);
            r.append("%");
            r
        },
        None => missing(),
    }
}

/// The "last action" field of a button card.
pub fn last_action_label(last: &Option<Event>) -> (r: String)
    ensures
        r@ == (match last {
            Some(e) => display_text(e.action@),
            None => missing_text(),
        }),
{
    match last {
        Some(e) => format_action(&e.action),
        None => missing(),
    }
}

/// The "last seen" field of a button card.
pub fn last_seen_label(last: &Option<Event>) -> (r: String)
    requires
        last matches Some(e) ==> representable(e.timestamp.secs as int, e.timestamp.nanos as int),
    ensures
        r@ == (match last {
            Some(e) => utc_clock_text(e.timestamp.secs as int, e.timestamp.nanos as int),
            None => missing_text(),
        }),
{
    match last {
        Some(e) => format_time(&e.timestamp),
        None => missing(),
    }
}

/// The style of a status dot.
pub fn status_dot_class(online: bool) -> (r: String)
    ensures
        r@ == (if online { "status-dot online"@ } else { "status-dot offline"@ }),
{
    if online {
        String::from_str("status-dot online")
    } else {
        String::from_str("status-dot offline")
    }
}

/// The label of a service in the status bar (`API Online`, `MQTT Offline`).
pub fn status_label(service: &str, online: bool) -> (r: String)
    ensures
        r@ == service@ + (if online { " Online"@ } else { " Offline"@ }),
{
    let mut r = String::from_str(service);
    if online {
        r.append(" Online");
    } else {
        r.append(" Offline");
    }
    r
}

/// Whether a health answer says the API is up.
pub fn api_online(health: &HealthResponse) -> (r: bool)
    ensures
        r == (health.status@ == "ok"@),
{
    text_eq(health.status.as_str(), "ok")
}

/// The most events the timeline shows.
pub const TIMELINE_EVENTS: usize = 20;

/// The events the timeline shows: the first `TIMELINE_EVENTS` of the list.
pub fn timeline_events(events: &Vec<Event>) -> (r: Vec<Event>)
    ensures
        r@ == (if events@.len() > 20 { events@.take(20) } else { events@ }),
{
    let n = if events.len() > TIMELINE_EVENTS { TIMELINE_EVENTS } else { events.len() };
    let mut r: Vec<Event> = Vec::new();
    for i in 0..n
        invariant
            n <= events@.len(),
            r@ == events@.take(i as int),
    {
        r.push(events[i].clone());
        assert(r@ =~= events@.take(i + 1));
    }
    assert(events@.take(events@.len() as int) =~= events@);
    r
}

/// The event a button card shows: the one listed last among the events of
/// that button, if any.
pub fn last_listed_event(events: &Vec<Event>, button_id: &str) -> (r: Option<Event>)
    ensures
        r == last_from(events@, button_id@),
{
    let ghost list = events@;
    let mut i = events.len();
    assert(list.take(i as int) =~= list);
    while i > 0
        invariant
            i <= list.len(),
            list == events@,
            last_from(list, button_id@) == last_from(list.take(i as int), button_id@),
        decreases i,
    {
        let ghost t = list.take(i as int);
        assert(t.drop_last() =~= list.take(i - 1));
        assert(t.last() == list[i - 1]);
        if text_eq(events[i - 1].button_id.as_str(), button_id) {
            return Some(events[i - 1].clone());
        }
        i = i - 1;
    }
    None
}

/// What a button card shows.
pub struct ButtonCard {
    pub name: String,
    pub dot_class: String,
    pub last_action: String,
    pub battery_class: String,
    pub battery: String,
    pub last_seen: String,
}

impl ButtonCard {
    /// The card of button `button_id` whose last event is `last_event`: the
    /// dot is lit once the button has sent an event.
    pub fn new(button_id: &str, last_event: &Option<Event>) -> (r: Self)
        requires
            last_event matches Some(e) ==> representable(e.timestamp.secs as int, e.timestamp.nanos as int),
        ensures
            r.name@ == button_id@,
            r.dot_class@ == (if last_event is Some { "status-dot online"@ } else { "status-dot offline"@ }),
            r.last_action@ == (match last_event {
                Some(e) => display_text(e.action@),
                None => missing_text(),
            }),
            r.battery_class@ == (match last_event {
                Some(e) => match e.battery {
                    Some(b) => "stat-value battery "@ + battery_class_text(b),
                    None => "stat-value"@,
                },
                None => "stat-value"@,
            }),
            r.battery@ == (match last_event {
                Some(e) => match e.battery {
                    Some(b) => decimal(b as nat) + "%"@,
                    None => missing_text(),
                },
                None => missing_text(),
            }),
            r.last_seen@ == (match last_event {
                Some(e) => utc_clock_text(e.timestamp.secs as int, e.timestamp.nanos as int),
                None => missing_text(),
            }),
    {
        let battery = match last_event {
            Some(e) => e.battery,
            None => None,
        };
        ButtonCard {
            name: String::from_str(button_id),
            dot_class: status_dot_class(last_event.is_some()),
            last_action: last_action_label(last_event),
            battery_class: battery_style(battery),
            battery: battery_label(battery),
            last_seen: last_seen_label(last_event),
        }
    }
}

/// What the status bar shows.
pub struct StatusBar {
    pub api_dot: String,
    pub api_label: String,
    pub mqtt_dot: String,
    pub mqtt_label: String,
}

impl StatusBar {
    /// The status bar for the API and broker states.
    pub fn new(api_ok: bool, mqtt_ok: bool) -> (r: Self)
        ensures
            r.api_dot@ == (if api_ok { "status-dot online"@ } else { "status-dot offline"@ }),
            r.api_label@ == (if api_ok { "API Online"@ } else { "API Offline"@ }),
            r.mqtt_dot@ == (if mqtt_ok { "status-dot online"@ } else { "status-dot offline"@ }),
            r.mqtt_label@ == (if mqtt_ok { "MQTT Online"@ } else { "MQTT Offline"@ }),
    {
        let api = status_label("API", api_ok);
        let mqtt = status_label("MQTT", mqtt_ok);
        proof {
            reveal_strlit("API");
            reveal_strlit("MQTT");
            reveal_strlit(" Online");
            reveal_strlit(" Offline");
            reveal_strlit("API Online");
            reveal_strlit("API Offline");
            reveal_strlit("MQTT Online");
            reveal_strlit("MQTT Offline");
            assert(api@ =~= (if api_ok { "API Online"@ } else { "API Offline"@ }));
            assert(mqtt@ =~= (if mqtt_ok { "MQTT Online"@ } else { "MQTT Offline"@ }));
        }
        StatusBar {
            api_dot: status_dot_class(api_ok),
            api_label: api,
            mqtt_dot: status_dot_class(mqtt_ok),
            mqtt_label: mqtt,
        }
    }
}

} // verus!
