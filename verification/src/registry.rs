//! The button registry: which buttons are registered (each id with the
//! handle of its handler), and a bounded log of the events that were
//! dispatched, newest last.

use vstd::prelude::*;
use std::collections::VecDeque;
use dashmap::DashMap;
use crate::event::Event;
use crate::text::{is_blank, text_eq, trim};

verus! {

/// The mathematical value of a registry: each registered id with the handle
/// of its handler, the event log (oldest first) and the log capacity it was
/// made with.
pub struct RegistryView {
    pub handlers: Map<Seq<char>, u64>,
    pub log: Seq<Event>,
    pub capacity: nat,
}

/// How many events the log keeps at most: its capacity, but at least one,
/// since the newest event is always kept.
pub open spec fn log_bound(capacity: nat) -> nat {
    if capacity == 0 { 1 } else { capacity }
}

/// The log after recording `e`: when the log is full, its oldest event
/// makes room first.
pub open spec fn log_after(log: Seq<Event>, capacity: nat, e: Event) -> Seq<Event> {
    if log.len() >= capacity && log.len() > 0 {
        log.subrange(1, log.len() as int).push(e)
    } else {
        log.push(e)
    }
}

/// The newest `limit` events of `log` (all of them when there are fewer),
/// oldest first.
pub open spec fn newest(log: Seq<Event>, limit: nat) -> Seq<Event> {
    let k = if limit < log.len() { limit } else { log.len() };
    log.subrange(log.len() - k, log.len() as int)
}

/// The handle of the handler registered for button `id`, if any.
pub open spec fn handler_for(handlers: Map<Seq<char>, u64>, id: Seq<char>) -> Option<u64> {
    if handlers.contains_key(id) {
        Some(handlers[id])
    } else {
        None
    }
}

/// Whether `e` came from button `id`.
pub open spec fn is_from(e: Event, id: Seq<char>) -> bool {
    e.button_id@ == id
}

/// The events of button `id`, oldest first.
pub open spec fn events_from(log: Seq<Event>, id: Seq<char>) -> Seq<Event>
    decreases log.len(),
{
    if log.len() == 0 {
        Seq::empty()
    } else if is_from(log.last(), id) {
        events_from(log.drop_last(), id).push(log.last())
    } else {
        events_from(log.drop_last(), id)
    }
}

/// The newest event of button `id`, if any.
pub open spec fn last_from(log: Seq<Event>, id: Seq<char>) -> Option<Event>
    decreases log.len(),
{
    if log.len() == 0 {
        None
    } else if is_from(log.last(), id) {
        Some(log.last())
    } else {
        last_from(log.drop_last(), id)
    }
}

/// `dashmap::DashMap`, the concurrent map that holds the registered buttons.
#[verifier::external_type_specification]
#[verifier::external_body]
#[verifier::reject_recursive_types(K)]
#[verifier::reject_recursive_types(V)]
#[verifier::reject_recursive_types(S)]
pub struct ExDashMap<K, V, S>(DashMap<K, V, S>);

/// What a button map holds: each registered id with the handle of its handler.
pub uninterp spec fn handlers_of(m: DashMap<String, u64>) -> Map<Seq<char>, u64>;

/// `DashMap::new`: the map starts empty.
#[verifier::external_body]
fn handlers_new() -> (m: DashMap<String, u64>)
    ensures
        handlers_of(m).dom() == Set::<Seq<char>>::empty(),
{
    DashMap::new()
}

/// `DashMap::insert`: afterwards `key` maps to `handler`, whether or not it
/// was there before (the old handle is handed back); other keys are untouched.
#[verifier::external_body]
fn handlers_insert(m: &mut DashMap<String, u64>, key: String, handler: u64) -> (prev: Option<u64>)
    ensures
        handlers_of(*final(m)) == handlers_of(*old(m)).insert(key@, handler),
        prev == (if handlers_of(*old(m)).contains_key(key@) {
            Some(handlers_of(*old(m))[key@])
        } else {
            None
        }),
{
    m.insert(key, handler)
}

/// `DashMap::remove`: takes `key` out of the map and hands back the entry it
/// had, if any; other keys are untouched.
#[verifier::external_body]
fn handlers_remove(m: &mut DashMap<String, u64>, key: &str) -> (r: Option<(String, u64)>)
    ensures
        handlers_of(*final(m)) == handlers_of(*old(m)).remove(key@),
        match r {
            Some((k, h)) => {
                &&& handlers_of(*old(m)).contains_key(key@)
                &&& k@ == key@
                &&& h == handlers_of(*old(m))[key@]
            },
            None => !handlers_of(*old(m)).contains_key(key@),
        },
{
    m.remove(key)
}

/// `DashMap::get`, reading the handle of the entry found.
#[verifier::external_body]
fn handlers_get(m: &DashMap<String, u64>, key: &str) -> (r: Option<u64>)
    ensures
        r == (if handlers_of(*m).contains_key(key@) {
            Some(handlers_of(*m)[key@])
        } else {
            None
        }),
{
    m.get(key).map(|entry| *entry.value())
}

/// `DashMap::iter`, reading the key of each entry: every registered id once,
/// in an order that the map's hashing decides.
#[verifier::external_body]
fn handler_keys(m: &DashMap<String, u64>) -> (r: Vec<String>)
    ensures
        r.deep_view().to_set() == handlers_of(*m).dom(),
        r.deep_view().no_duplicates(),
{
    m.iter().map(|entry| entry.key().clone()).collect()
}

/// The handle that stands for the handler that does nothing.
pub const SILENT_HANDLER: u64 = 0;

/// A button as the registry knows it: its id and the handle of its handler
/// (the handler itself lives with whoever runs it).
pub struct Button {
    pub id: String,
    pub handler: u64,
}

impl Button {
    /// A button with id `id` whose presses go to handler `handler`.
    pub fn new(id: String, handler: u64) -> (r: Self)
        ensures
            r.id@ == id@,
            r.handler == handler,
    {
        Button { id, handler }
    }
}

/// Registered buttons and the bounded event log.
pub struct ButtonRegistry {
    buttons: DashMap<String, u64>,
    event_log: VecDeque<Event>,
    log_capacity: usize,
}

impl RegistryView {
    /// The registered ids.
    pub open spec fn ids(self) -> Set<Seq<char>> {
        self.handlers.dom()
    }
}

impl View for ButtonRegistry {
    type V = RegistryView;

    closed spec fn view(&self) -> RegistryView {
        RegistryView {
            handlers: handlers_of(self.buttons),
            log: self.event_log@,
            capacity: self.log_capacity as nat,
        }
    }
}

impl ButtonRegistry {
    #[verifier::type_invariant]
    spec fn inv(self) -> bool {
        self.event_log@.len() <= log_bound(self.log_capacity as nat)
    }

    /// An empty registry whose log keeps `log_capacity` events (at least one).
    pub fn new(log_capacity: usize) -> (r: Self)
        ensures
            r@.handlers == Map::<Seq<char>, u64>::empty(),
            r@.log == Seq::<Event>::empty(),
            r@.capacity == log_capacity,
    {
        Self {
            buttons: handlers_new(),
            event_log: VecDeque::with_capacity(log_capacity),
            log_capacity,
        }
    }

    /// Registers a button; registering an id again gives it the new handler.
    pub fn register(&mut self, button: Button)
        ensures
            final(self)@.handlers == old(self)@.handlers.insert(button.id@, button.handler),
            final(self)@.log == old(self)@.log,
            final(self)@.capacity == old(self)@.capacity,
    {
        proof { use_type_invariant(&*self); }
        let mut buttons = handlers_new();
        std::mem::swap(&mut buttons, &mut self.buttons);
        let _previous = handlers_insert(&mut buttons, button.id, button.handler);
        self.buttons = buttons;
    }

    /// Registers a button id with the handler that does nothing, unless the
    /// id is empty or all white space (the id is kept as given, untrimmed).
    pub fn register_button_id(&mut self, button_id: &str)
        ensures
            final(self)@.handlers == (if trim(button_id@).len() == 0 {
                old(self)@.handlers
            } else {
                old(self)@.handlers.insert(button_id@, SILENT_HANDLER)
            }),
            final(self)@.log == old(self)@.log,
            final(self)@.capacity == old(self)@.capacity,
    {
        if is_blank(button_id) {
            return;
        }
        self.register(Button::new(String::from_str(button_id), SILENT_HANDLER));
    }

    /// Removes a button id; tells whether it was registered.
    pub fn unregister_button_id(&mut self, button_id: &str) -> (removed: bool)
        ensures
            removed == old(self)@.ids().contains(button_id@),
            final(self)@.handlers == old(self)@.handlers.remove(button_id@),
            final(self)@.log == old(self)@.log,
            final(self)@.capacity == old(self)@.capacity,
    {
        proof { use_type_invariant(&*self); }
        let mut buttons = handlers_new();
        std::mem::swap(&mut buttons, &mut self.buttons);
        let removed = handlers_remove(&mut buttons, button_id).is_some();
        self.buttons = buttons;
        removed
    }

    /// Records `event` in the log (dropping the oldest event when the log is
    /// full) and hands back the handle of the handler registered for its
    /// button, if there is one.
    pub fn dispatch(&mut self, event: Event) -> (handler: Option<u64>)
        ensures
            handler == handler_for(old(self)@.handlers, event.button_id@),
            final(self)@.log == log_after(old(self)@.log, old(self)@.capacity, event),
            final(self)@.handlers == old(self)@.handlers,
            final(self)@.capacity == old(self)@.capacity,
            final(self)@.log.len() <= log_bound(final(self)@.capacity),
    {
        proof { use_type_invariant(&*self); }
        let handler = handlers_get(&self.buttons, event.button_id.as_str());
        let mut log: VecDeque<Event> = VecDeque::new();
        std::mem::swap(&mut log, &mut self.event_log);
        if log.len() >= self.log_capacity {
            let _oldest = log.pop_front();
        }
        log.push_back(event);
        self.event_log = log;
        handler
    }

    /// The newest `limit` events, oldest first.
    pub fn latest_events(&self, limit: usize) -> (r: Vec<Event>)
        ensures
            r@ == newest(self@.log, limit as nat),
            self@.capacity <= usize::MAX,
            self@.log.len() <= log_bound(self@.capacity),
    {
        proof { use_type_invariant(self); }
        let n = self.event_log.len();
        let k = if limit < n { limit } else { n };
        let mut r: Vec<Event> = Vec::new();
        for i in (n - k)..n
            invariant
                n == self@.log.len(),
                k <= n,
                r@ == self@.log.subrange(n - k, i as int),
        {
            r.push(self.event_log[i].clone());
            assert(r@ =~= self@.log.subrange(n - k, i + 1));
        }
        r
    }

    /// The newest event of button `button_id`, if any.
    pub fn last_event_for(&self, button_id: &str) -> (r: Option<Event>)
        ensures
            r == last_from(self@.log, button_id@),
    {
        let ghost log = self@.log;
        let mut i = self.event_log.len();
        assert(log.take(i as int) =~= log);
        while i > 0
            invariant
                i <= log.len(),
                log == self@.log,
                last_from(log, button_id@) == last_from(log.take(i as int), button_id@),
            decreases i,
        {
            let ghost t = log.take(i as int);
            assert(t.drop_last() =~= log.take(i - 1));
            assert(t.last() == log[i - 1]);
            if text_eq(self.event_log[i - 1].button_id.as_str(), button_id) {
                return Some(self.event_log[i - 1].clone());
            }
            i = i - 1;
        }
        None
    }

    /// The registered button ids, each once, in no particular order.
    pub fn button_ids(&self) -> (r: Vec<String>)
        ensures
            r.deep_view().to_set() == self@.ids(),
            r.deep_view().no_duplicates(),
    {
        handler_keys(&self.buttons)
    }

    /// The newest `limit` events of button `button_id`, oldest first.
    pub fn events_for_button(&self, button_id: &str, limit: usize) -> (r: Vec<Event>)
        ensures
            r@ == newest(events_from(self@.log, button_id@), limit as nat),
    {
        let ghost log = self@.log;
        let ghost id = button_id@;
        let mut matching: Vec<Event> = Vec::new();
        for i in 0..self.event_log.len()
            invariant
                log == self@.log,
                id == button_id@,
                matching@ == events_from(log.take(i as int), id),
        {
            let ghost t = log.take(i + 1);
            assert(t.drop_last() =~= log.take(i as int));
            assert(t.last() == log[i as int]);
            let e = &self.event_log[i];
            if text_eq(e.button_id.as_str(), button_id) {
                matching.push(e.clone());
            }
        }
        assert(log.take(log.len() as int) =~= log);
        let n = matching.len();
        let start = if limit < n { n - limit } else { 0 };
        let mut r: Vec<Event> = Vec::new();
        for i in start..n
            invariant
                n == matching@.len(),
                start <= n,
                r@ == matching@.subrange(start as int, i as int),
        {
            r.push(matching[i].clone());
            assert(r@ =~= matching@.subrange(start as int, i + 1));
        }
        r
    }
}

// ---------------------------------------------------------------------------
// Laws
// ---------------------------------------------------------------------------

/// The log never holds more than `log_bound(capacity)` events: recording one
/// more keeps it within the bound.
pub proof fn lemma_log_stays_bounded(log: Seq<Event>, capacity: nat, e: Event)
    requires
        log.len() <= log_bound(capacity),
    ensures
        log_after(log, capacity, e).len() <= log_bound(capacity),
{
}

/// Recording keeps the newest events in order: the new log is the old log
/// with `e` appended, less its oldest entry when the log was full.
pub proof fn lemma_log_keeps_order(log: Seq<Event>, capacity: nat, e: Event)
    ensures
        ({
            let after = log_after(log, capacity, e);
            &&& after.last() == e
            &&& forall|i: int|
                0 <= i < after.len() - 1 ==> #[trigger] after[i] == log[i + (log.len() + 1
                    - after.len())]
        }),
{
}

/// A read gives back the last write: right after an event is recorded, it
/// is the newest event, and the newest event of its button.
pub proof fn lemma_read_after_dispatch(log: Seq<Event>, capacity: nat, e: Event)
    ensures
        newest(log_after(log, capacity, e), 1) == seq![e],
        last_from(log_after(log, capacity, e), e.button_id@) == Some(e),
{
    let after = log_after(log, capacity, e);
    assert(after.drop_last().push(e) =~= after);
    assert(newest(after, 1) =~= seq![e]);
}

/// The history of a button holds only that button's events.
pub proof fn lemma_events_from_only_that_button(log: Seq<Event>, id: Seq<char>)
    ensures
        forall|i: int| 0 <= i < events_from(log, id).len() ==> is_from(#[trigger] events_from(log, id)[i], id),
        events_from(log, id).len() <= log.len(),
    decreases log.len(),
{
    if log.len() > 0 {
        lemma_events_from_only_that_button(log.drop_last(), id);
        let r = events_from(log, id);
        let ir = events_from(log.drop_last(), id);
        assert forall|i: int| 0 <= i < r.len() implies is_from(#[trigger] r[i], id) by {
            if i < ir.len() {
                assert(r[i] == ir[i]);
            }
        }
    }
}

/// The newest event of a button is the last entry of its history.
pub proof fn lemma_last_from_is_newest_of_history(log: Seq<Event>, id: Seq<char>)
    ensures
        last_from(log, id) == (if events_from(log, id).len() == 0 {
            None
        } else {
            Some(events_from(log, id).last())
        }),
    decreases log.len(),
{
    if log.len() > 0 {
        lemma_last_from_is_newest_of_history(log.drop_last(), id);
    }
}

/// Unregistering an id that was just registered succeeds and leaves the
/// other buttons as they were.
pub proof fn lemma_unregister_after_register(handlers: Map<Seq<char>, u64>, id: Seq<char>, h: u64)
    ensures
        handlers.insert(id, h).contains_key(id),
        handlers.insert(id, h).remove(id) == handlers.remove(id),
{
    assert(handlers.insert(id, h).remove(id) =~= handlers.remove(id));
}

/// An event reaches the handler its button was last registered with, and
/// registering one button changes no other button's handler.
pub proof fn lemma_dispatch_reaches_registered_handler(
    handlers: Map<Seq<char>, u64>,
    id: Seq<char>,
    h: u64,
    other: Seq<char>,
)
    ensures
        handler_for(handlers.insert(id, h), id) == Some(h),
        other != id ==> handler_for(handlers.insert(id, h), other) == handler_for(handlers, other),
{
}

/// Asking for at least as many events as the log holds gives the whole log
/// (so `latest_events(usize::MAX)` is the log, which never outgrows its
/// capacity).
pub proof fn lemma_newest_of_whole_log(log: Seq<Event>, limit: nat)
    requires
        log.len() <= limit,
    ensures
        newest(log, limit) == log,
{
    assert(log.subrange(0, log.len() as int) =~= log);
}


/// Recording an event drops at most one event, the oldest: the log grows by
/// one until it holds `log_bound(capacity)` events and then stays at that
/// size, and it is always the newest events, the new one last.
pub proof fn lemma_log_drops_only_the_oldest(log: Seq<Event>, capacity: nat, e: Event)
    requires
        log.len() <= log_bound(capacity),
    ensures
        ({
            let after = log_after(log, capacity, e);
            let m: int = log.len() + 1int;
            let n: int = if m < log_bound(capacity) { m } else { log_bound(capacity) as int };
            &&& after.len() == n
            &&& after == log.push(e).subrange(m - n, m)
        }),
{
    let after = log_after(log, capacity, e);
    if log.len() >= capacity && log.len() > 0 {
        assert(after =~= log.push(e).subrange(1, log.len() + 1int));
    } else {
        assert(after =~= log.push(e).subrange(0, log.len() + 1int));
    }
}

} // verus!
