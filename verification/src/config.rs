//! The hub's settings: what each setting is when its variable is set, unset
//! or unreadable (reading the environment is outside).

use vstd::prelude::*;
use crate::text::{chars_of, decimal, decimal_text};

verus! {

/// The broker host when none is set.
pub open spec fn default_mqtt_host() -> Seq<char> {
    "localhost"@
}

/// The broker port when none is set, or the setting is not a port number.
pub const DEFAULT_MQTT_PORT: u16 = 1883;

/// The API port when none is set, or the setting is not a port number.
pub const DEFAULT_API_PORT: u16 = 3000;

/// How many events the hub's log keeps.
pub const EVENT_LOG_CAPACITY: usize = 500;

/// Whether `c` is an ASCII decimal digit.
pub open spec fn is_digit(c: char) -> bool {
    '0' <= c && c <= '9'
}

/// The value of a string of decimal digits (leading zeros allowed).
pub open spec fn digits_value(s: Seq<char>) -> nat
    decreases s.len(),
{
    if s.len() == 0 {
        0
    } else {
        digits_value(s.drop_last()) * 10 + ((s.last() as int - '0' as int) as nat)
    }
}

/// `s` without a leading `+`.
pub open spec fn unsigned_part(s: Seq<char>) -> Seq<char> {
    if s.len() > 0 && s[0] == '+' { s.drop_first() } else { s }
}

/// Whether every character of `s` is a decimal digit.
pub open spec fn all_digits(s: Seq<char>) -> bool {
    forall|i: int| 0 <= i < s.len() ==> is_digit(#[trigger] s[i])
}

/// What `str::parse::<u16>` accepts: an optional `+` followed by one or more
/// decimal digits whose value fits in 16 bits.
pub open spec fn parsed_u16(s: Seq<char>) -> Option<u16> {
    let d = unsigned_part(s);
    if d.len() > 0 && all_digits(d) && digits_value(d) <= u16::MAX {
        Some(digits_value(d) as u16)
    } else {
        None
    }
}

/// A longer string of digits is worth at least as much as its prefix.
proof fn lemma_digits_value_grows(s: Seq<char>, k: int)
    requires
        0 <= k <= s.len(),
        all_digits(s),
    ensures
        digits_value(s.subrange(0, k)) <= digits_value(s),
    decreases s.len() - k,
{
    if k < s.len() {
        let t = s.subrange(0, k + 1);
        assert(t.drop_last() =~= s.subrange(0, k));
        assert(is_digit(t.last()));
        assert(s.subrange(0, k + 1) =~= t);
        lemma_digits_value_grows(s, k + 1);
    } else {
        assert(s.subrange(0, k) =~= s);
    }
}

/// Reads a port number the way `str::parse::<u16>` does.
pub fn parse_u16(s: &str) -> (r: Option<u16>)
    ensures
        r == parsed_u16(s@),
{
    let cs = chars_of(s);
    let n = cs.len();
    let start: usize = if n > 0 && cs[0] == '+' { 1 } else { 0 };
    let ghost d = unsigned_part(s@);
    assert(d =~= cs@.subrange(start as int, n as int));
    if start >= n {
        return None;
    }
    let mut i: usize = start;
    let mut v: u32 = 0;
    assert(cs@.subrange(start as int, start as int) =~= Seq::<char>::empty());
    while i < n
        invariant
            start <= i <= n,
            n == cs@.len(),
            cs@ == s@,
            d == unsigned_part(s@),
            d == cs@.subrange(start as int, n as int),
            v == digits_value(cs@.subrange(start as int, i as int)),
            v <= u16::MAX,
            forall|j: int| start <= j < i ==> is_digit(#[trigger] cs@[j]),
        decreases n - i,
    {
        let c = cs[i];
        if !('0' <= c && c <= '9') {
            proof {
                assert(d[i - start] == c);
                assert(!is_digit(d[i - start]));
                assert(!all_digits(d));
            }
            return None;
        }
        let ghost before = cs@.subrange(start as int, i as int);
        let ghost after = cs@.subrange(start as int, i + 1);
        assert(after.drop_last() =~= before);
        assert(after.last() == c);
        v = v * 10 + (c as u32 - '0' as u32);
        if v > 65535 {
            proof {
                if all_digits(d) {
                    assert(d.subrange(0, i + 1 - start) =~= after);
                    lemma_digits_value_grows(d, i + 1 - start);
                }
            }
            return None;
        }
        i = i + 1;
    }
    assert(cs@.subrange(start as int, n as int) =~= d);
    assert forall|j: int| 0 <= j < d.len() implies is_digit(#[trigger] d[j]) by {
        assert(d[j] == cs@[start + j]);
    }
    assert(all_digits(d));
    Some(v as u16)
}

/// A port setting: the number it holds, or `default` when it is unset or
/// not a port number.
pub fn port_setting(value: Option<String>, default: u16) -> (r: u16)
    ensures
        r == (match value {
            Some(s) => match parsed_u16(s@) {
                Some(p) => p,
                None => default,
            },
            None => default,
        }),
{
    match value {
        Some(s) => match parse_u16(s.as_str()) {
            Some(p) => p,
            None => default,
        },
        None => default,
    }
}

/// The hub's settings.
pub struct HubConfig {
    pub mqtt_host: String,
    pub mqtt_port: u16,
    pub client_id: String,
    pub api_port: u16,
    pub log_capacity: usize,
}

/// The hub's settings from its variables (`MQTT_BROKER_HOST`,
/// `MQTT_BROKER_PORT`, `MQTT_CLIENT_ID`, `API_PORT`; `None` where a variable
/// is unset or unreadable): the broker host defaults to `localhost`, the
/// ports to 1883 and 3000, and the client id to `button-hub-<process id>`.
pub fn hub_config(
    mqtt_host: Option<String>,
    mqtt_port: Option<String>,
    client_id: Option<String>,
    api_port: Option<String>,
    process_id: u32,
) -> (r: HubConfig)
    ensures
        r.mqtt_host@ == (match mqtt_host {
            Some(h) => h@,
            None => default_mqtt_host(),
        }),
        r.mqtt_port == (match mqtt_port {
            Some(s) => match parsed_u16(s@) {
                Some(p) => p,
                None => DEFAULT_MQTT_PORT,
            },
            None => DEFAULT_MQTT_PORT,
        }),
        r.client_id@ == (match client_id {
            Some(c) => c@,
            None => "button-hub-"@ + decimal(process_id as nat),
        }),
        r.api_port == (match api_port {
            Some(s) => match parsed_u16(s@) {
                Some(p) => p,
                None => DEFAULT_API_PORT,
            },
            None => DEFAULT_API_PORT,
        }),
        r.log_capacity == EVENT_LOG_CAPACITY,
{
    let host = match mqtt_host {
        Some(h) => h,
        None => String::from_str("localhost"),
    };
    let id = match client_id {
        Some(c) => c,
        None => {
            let mut c = String::from_str("button-hub-");
            let n = decimal_text(process_id as u64);
            c.append(n.as_str());
            c
        },
    };
    HubConfig {
        mqtt_host: host,
        mqtt_port: port_setting(mqtt_port, DEFAULT_MQTT_PORT),
        client_id: id,
        api_port: port_setting(api_port, DEFAULT_API_PORT),
        log_capacity: EVENT_LOG_CAPACITY,
    }
}

} // verus!
