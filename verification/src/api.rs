//! What the REST API computes: request and response bodies, and for each
//! route the answer it gives on the registry (the HTTP plumbing is outside).

use vstd::prelude::*;
use crate::event::Event;
use crate::registry::{ButtonRegistry, newest, events_from, last_from};
use crate::text::{trim, trim_text, decimal, decimal_text};

verus! {

/// Body of `GET /health`.
pub struct HealthResponse {
    pub status: String,
    pub timestamp: String,
}

/// Body of `GET /buttons`.
pub struct ButtonsResponse {
    pub buttons: Vec<String>,
}

/// Body of the event listing routes.
pub struct EventsResponse {
    pub events: Vec<Event>,
    pub count: usize,
}

/// Query of the event listing routes.
pub struct EventsQuery {
    pub limit: usize,
}

/// Body of `POST /buttons`.
pub struct RegisterRequest {
    pub button_id: String,
}

/// Answer to a successful `POST /buttons`.
pub struct RegisterResponse {
    pub registered: bool,
    pub button_id: String,
}

/// Answer to a successful `DELETE /buttons/:button_id`.
pub struct UnregisterResponse {
    pub unregistered: bool,
    pub button_id: String,
}

/// A refused request: the HTTP status and the `error` text of the body.
pub struct ApiError {
    pub status: u16,
    pub error: String,
}

/// The most events a listing returns.
pub const MAX_LIMIT: usize = 100;

/// The listing size when the query names none.
pub fn default_limit() -> (r: usize)
    ensures
        r == 20,
{
    20
}

/// The listing size actually used: the requested one, at most `MAX_LIMIT`.
pub open spec fn effective_limit(requested: nat) -> nat {
    if requested < 100 { requested } else { 100 }
}

/// A button id is accepted when, trimmed, it is 1 to 64 characters long.
pub open spec fn acceptable_id(raw: Seq<char>) -> bool {
    let t = trim(raw);
    0 < t.len() <= 64
}

/// `GET /health`: the service is up, as of `timestamp`.
pub fn health(timestamp: String) -> (r: HealthResponse)
    ensures
        r.status@ == "ok"@,
        r.timestamp@ == timestamp@,
{
    HealthResponse { status: String::from_str("ok"), timestamp }
}

/// `GET /buttons`: the registered ids.
pub fn buttons(registry: &ButtonRegistry) -> (r: ButtonsResponse)
    ensures
        r.buttons.deep_view().to_set() == registry@.ids(),
        r.buttons.deep_view().no_duplicates(),
{
    ButtonsResponse { buttons: registry.button_ids() }
}

/// `POST /buttons`: registers the trimmed id when it is 1 to 64 characters long,
/// and answers with the id as it was sent; otherwise refuses with 400.
pub fn register_button(registry: &mut ButtonRegistry, payload: RegisterRequest) -> (r: Result<RegisterResponse, ApiError>)
    ensures
        acceptable_id(payload.button_id@) ==> r is Ok,
        !acceptable_id(payload.button_id@) ==> r is Err,
        match r {
            Ok(resp) => {
                &&& resp.registered
                &&& resp.button_id@ == payload.button_id@
                &&& final(registry)@.ids() == old(registry)@.ids().insert(trim(payload.button_id@))
            },
            Err(e) => {
                &&& e.status == 400
                &&& e.error@ == "button_id must be 1-64 characters"@
                &&& final(registry)@.ids() == old(registry)@.ids()
            },
        },
        final(registry)@.log == old(registry)@.log,
        final(registry)@.capacity == old(registry)@.capacity,
{
    let id = trim_text(payload.button_id.as_str());
    if id.as_str().is_empty() || id.as_str().unicode_len() > 64 {
        return Err(ApiError {
            status: 400,
            error: String::from_str("button_id must be 1-64 characters"),
        });
    }
    proof {
        crate::text::lemma_trim_shape(payload.button_id@);
    }
    registry.register_button_id(id.as_str());
    Ok(RegisterResponse { registered: true, button_id: payload.button_id })
}

/// `DELETE /buttons/:button_id`: removes the id, or answers 404.
pub fn unregister_button(registry: &mut ButtonRegistry, button_id: String) -> (r: Result<UnregisterResponse, ApiError>)
    ensures
        (r is Ok) == old(registry)@.ids().contains(button_id@),
        final(registry)@.ids() == old(registry)@.ids().remove(button_id@),
        final(registry)@.log == old(registry)@.log,
        match r {
            Ok(resp) => resp.unregistered && resp.button_id@ == button_id@,
            Err(e) => e.status == 404 && e.error@ == "not found"@,
        },
{
    if registry.unregister_button_id(button_id.as_str()) {
        Ok(UnregisterResponse { unregistered: true, button_id })
    } else {
        Err(ApiError { status: 404, error: String::from_str("not found") })
    }
}

/// `GET /events?limit=N`: the newest events (at most 100), oldest first.
pub fn events(registry: &ButtonRegistry, query: EventsQuery) -> (r: EventsResponse)
    ensures
        r.events@ == newest(registry@.log, effective_limit(query.limit as nat)),
        r.count == r.events@.len(),
{
    let limit = if query.limit < MAX_LIMIT { query.limit } else { MAX_LIMIT };
    let events = registry.latest_events(limit);
    let count = events.len();
    EventsResponse { events, count }
}

/// `GET /events/:button_id`: the newest event of that button, or 404.
pub fn event_by_button_id(registry: &ButtonRegistry, button_id: &str) -> (r: Result<Event, ApiError>)
    ensures
        match r {
            Ok(e) => last_from(registry@.log, button_id@) == Some(e),
            Err(err) => last_from(registry@.log, button_id@) is None && err.status == 404
                && err.error@ == "not found"@,
        },
{
    match registry.last_event_for(button_id) {
        Some(event) => Ok(event),
        None => Err(ApiError { status: 404, error: String::from_str("not found") }),
    }
}

/// `GET /events/:button_id/history?limit=N`: the newest events of that
/// button (at most 100), oldest first.
pub fn history_by_button_id(registry: &ButtonRegistry, button_id: &str, query: EventsQuery) -> (r: EventsResponse)
    ensures
        r.events@ == newest(events_from(registry@.log, button_id@), effective_limit(query.limit as nat)),
        r.count == r.events@.len(),
{
    let limit = if query.limit < MAX_LIMIT { query.limit } else { MAX_LIMIT };
    let events = registry.events_for_button(button_id, limit);
    let count = events.len();
    EventsResponse { events, count }
}

/// The stream message sent in place of `count` events that a slow
/// subscriber missed: `{"type":"missed","count":<count>}`.
pub fn missed_message(count: u64) -> (r: String)
    ensures
        r@ == "{\"type\":\"missed\",\"count\":"@ + decimal(count as nat) + "}"@,
{
    let mut r = String::from_str("{\"type\":\"missed\",\"count\":");
    let digits = decimal_text(count);
    r.append(digits.as_str());
    r.append("}");
    r
}

} // verus!
