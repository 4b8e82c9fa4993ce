//! Button events: the action a button reports, how actions are named on the
//! wire and in the dashboard, and the event record itself.

use vstd::prelude::*;
use crate::text::{has_prefix, has_suffix, text_eq, starts_with, ends_with};

verus! {

/// What a button press was.
#[derive(Debug, PartialEq)]
pub enum ActionType {
    Single,
    Double,
    LongPress,
    Unknown(String),
}

/// The mathematical value of an [`ActionType`].
pub enum ActionView {
    Single,
    Double,
    LongPress,
    Unknown(Seq<char>),
}

impl View for ActionType {
    type V = ActionView;

    open spec fn view(&self) -> ActionView {
        match self {
            ActionType::Single => ActionView::Single,
            ActionType::Double => ActionView::Double,
            ActionType::LongPress => ActionView::LongPress,
            ActionType::Unknown(s) => ActionView::Unknown(s@),
        }
    }
}

impl Clone for ActionType {
    fn clone(&self) -> (r: Self)
        ensures
            r == *self,
    {
        match self {
            ActionType::Single => ActionType::Single,
            ActionType::Double => ActionType::Double,
            ActionType::LongPress => ActionType::LongPress,
            ActionType::Unknown(s) => ActionType::Unknown(s.clone()),
        }
    }
}

/// How a raw Zigbee2MQTT action string is normalized: `single`, `double`,
/// and `long_press`/`hold`/`long` are known, anything else is kept as it is.
pub open spec fn action_from_raw(s: Seq<char>) -> ActionView {
    if s == "single"@ {
        ActionView::Single
    } else if s == "double"@ {
        ActionView::Double
    } else if s == "long_press"@ || s == "hold"@ || s == "long"@ {
        ActionView::LongPress
    } else {
        ActionView::Unknown(s)
    }
}

/// The text an action is serialized as.
pub open spec fn wire_text(a: ActionView) -> Seq<char> {
    match a {
        ActionView::Single => "Single"@,
        ActionView::Double => "Double"@,
        ActionView::LongPress => "LongPress"@,
        ActionView::Unknown(x) => "Unknown("@ + x + ")"@,
    }
}

/// The action a serialized text stands for: the three known names, then
/// `Unknown(..)` with its inner text, then any other text as unknown.
pub open spec fn action_from_wire(s: Seq<char>) -> ActionView {
    if s == "Single"@ {
        ActionView::Single
    } else if s == "Double"@ {
        ActionView::Double
    } else if s == "LongPress"@ {
        ActionView::LongPress
    } else if has_prefix(s, "Unknown("@) && has_suffix(s, ")"@) {
        ActionView::Unknown(s.subrange(8, s.len() - 1))
    } else {
        ActionView::Unknown(s)
    }
}

/// `ActionType::from` is specified by its own `ensures` over views: two
/// `String`s with the same text need not be equal values, so the generic
/// `from_spec` law (equality of values) is not claimed.
impl<'a> vstd::std_specs::convert::FromSpecImpl<&'a str> for ActionType {
    open spec fn obeys_from_spec() -> bool {
        false
    }

    open spec fn from_spec(v: &'a str) -> ActionType {
        choose|a: ActionType| a@ == action_from_raw(v@)
    }
}

impl<'a> From<&'a str> for ActionType {
    /// Normalizes a raw action string.
    fn from(s: &'a str) -> (r: Self)
        ensures
            r@ == action_from_raw(s@),
    {
        if text_eq(s, "single") {
            ActionType::Single
        } else if text_eq(s, "double") {
            ActionType::Double
        } else if text_eq(s, "long_press") || text_eq(s, "hold") || text_eq(s, "long") {
            ActionType::LongPress
        } else {
            ActionType::Unknown(String::from_str(s))
        }
    }
}

impl ActionType {
    /// The serialized text of this action (`Single`, `Double`, `LongPress`,
    /// or `Unknown(<text>)`).
    pub fn to_wire(&self) -> (r: String)
        ensures
            r@ == wire_text(self@),
    {
        match self {
            ActionType::Single => String::from_str("Single"),
            ActionType::Double => String::from_str("Double"),
            ActionType::LongPress => String::from_str("LongPress"),
            ActionType::Unknown(inner) => {
                let mut r = String::from_str("Unknown(");
                r.append(inner.as_str());
                r.append(")");
                r
            },
        }
    }

    /// The action that a serialized text stands for.
    pub fn from_wire(s: &str) -> (r: ActionType)
        ensures
            r@ == action_from_wire(s@),
    {
        if text_eq(s, "Single") {
            ActionType::Single
        } else if text_eq(s, "Double") {
            ActionType::Double
        } else if text_eq(s, "LongPress") {
            ActionType::LongPress
        } else if starts_with(s, "Unknown(") && ends_with(s, ")") {
            proof {
                reveal_strlit("Unknown(");
                reveal_strlit(")");
                assert(s@[7] == s@.subrange(0, 8)[7]);
                assert(s@[s@.len() - 1] == s@.subrange(s@.len() - 1, s@.len() as int)[0]);
            }
            let n = s.unicode_len();
            ActionType::Unknown(String::from_str(s.substring_char(8, n - 1)))
        } else {
            ActionType::Unknown(String::from_str(s))
        }
    }
}

/// Reading back a serialized action gives the action itself.
pub proof fn lemma_wire_roundtrip(a: ActionView)
    ensures
        action_from_wire(wire_text(a)) == a,
{
    reveal_strlit("Single");
    reveal_strlit("Double");
    reveal_strlit("LongPress");
    reveal_strlit("Unknown(");
    reveal_strlit(")");
    match a {
        ActionView::Single => {},
        ActionView::Double => {
            assert("Double"@[0] != "Single"@[0]);
        },
        ActionView::LongPress => {
            assert("LongPress"@.len() != "Single"@.len());
            assert("LongPress"@.len() != "Double"@.len());
        },
        ActionView::Unknown(x) => {
            let w = "Unknown("@ + x + ")"@;
            assert(w.len() == x.len() + 9);
            assert(w.subrange(0, 8) =~= "Unknown("@);
            assert(w.subrange(w.len() - 1, w.len() as int) =~= ")"@);
            assert(w.subrange(8, w.len() - 1) =~= x);
            if w == "Single"@ || w == "Double"@ {
                assert(w[0] == 'U');
            }
            if w == "LongPress"@ {
                assert(w[0] == 'U');
            }
        },
    }
}

/// A point in time: whole seconds since the Unix epoch (UTC) and the
/// nanoseconds past that second.
#[derive(Clone, Copy, Debug, PartialEq, Eq, Structural)]
pub struct Timestamp {
    pub secs: i64,
    pub nanos: u32,
}

/// One button press as the hub records it.
#[derive(Debug, PartialEq)]
pub struct Event {
    pub button_id: String,
    pub action: ActionType,
    /// Battery percentage, when the device reports it.
    pub battery: Option<u8>,
    pub timestamp: Timestamp,
}

impl Clone for Event {
    fn clone(&self) -> (r: Self)
        ensures
            r == *self,
    {
        Event {
            button_id: self.button_id.clone(),
            action: self.action.clone(),
            battery: self.battery,
            timestamp: self.timestamp,
        }
    }
}

} // verus!
