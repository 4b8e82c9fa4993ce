//! The client side of the hub API: base URLs, the reconnect backoff, and the
//! framing of the server-sent event stream into JSON payloads.

use vstd::prelude::*;
use crate::event::Event;
use crate::text::{chars_of, has_prefix, trim, trim_text, starts_with, text_eq};

verus! {

/// Seconds without any data after which a stream counts as dead.
pub const IDLE_TIMEOUT_SECS: u64 = 30;

/// The first reconnect delay, in seconds.
pub const INITIAL_BACKOFF_SECS: u64 = 1;

/// The longest reconnect delay, in seconds.
pub const MAX_BACKOFF_SECS: u64 = 30;

/// `s` without trailing slashes.
pub open spec fn without_trailing_slashes(s: Seq<char>) -> Seq<char>
    decreases s.len(),
{
    if s.len() > 0 && s.last() == '/' {
        without_trailing_slashes(s.drop_last())
    } else {
        s
    }
}

/// Strips every trailing `/` from a URL.
pub fn trim_slash(url: &str) -> (r: String)
    ensures
        r@ == without_trailing_slashes(url@),
{
    let chars = chars_of(url);
    let mut j = chars.len();
    let ghost cs = url@;
    assert(cs.subrange(0, j as int) =~= cs);
    while j > 0 && chars[j - 1] == '/'
        invariant
            j <= cs.len(),
            chars@ == cs,
            without_trailing_slashes(cs) == without_trailing_slashes(cs.subrange(0, j as int)),
        decreases j,
    {
        assert(cs.subrange(0, j as int).drop_last() =~= cs.subrange(0, j - 1));
        j = j - 1;
    }
    String::from_str(url.substring_char(0, j))
}

/// HTTP client for the hub, holding its base URL.
pub struct Client {
    base_url: String,
}

impl Clone for Client {
    fn clone(&self) -> (r: Self)
        ensures
            r.base() == self.base(),
    {
        Client { base_url: self.base_url.clone() }
    }
}

impl Client {
    /// A client for the given API base URL; trailing slashes are stripped.
    pub fn new(api_url: &str) -> (r: Self)
        ensures
            r.base() == without_trailing_slashes(api_url@),
    {
        Self { base_url: trim_slash(api_url) }
    }

    /// The base URL, without trailing slashes.
    pub fn base_url(&self) -> (r: &str)
        ensures
            r@ == self.base(),
    {
        self.base_url.as_str()
    }

    /// The spec view of the base URL.
    pub closed spec fn base(&self) -> Seq<char> {
        self.base_url@
    }

    /// The URL of the live event stream.
    pub fn stream_url(&self) -> (r: String)
        ensures
            r@ == self.base() + "/api/events/stream"@,
    {
        let mut r = self.base_url.clone();
        r.append("/api/events/stream");
        r
    }
}

/// The URL that registers buttons at the hub at `api_url`.
pub fn register_url(api_url: &str) -> (r: String)
    ensures
        r@ == without_trailing_slashes(api_url@) + "/buttons"@,
{
    let mut r = trim_slash(api_url);
    r.append("/buttons");
    r
}

/// The URL that unregisters `button_id` at the hub at `api_url`.
pub fn unregister_url(api_url: &str, button_id: &str) -> (r: String)
    ensures
        r@ == without_trailing_slashes(api_url@) + "/buttons/"@ + button_id@,
{
    let mut r = trim_slash(api_url);
    r.append("/buttons/");
    r.append(button_id);
    r
}

/// Twice `secs`, but no more than `MAX_BACKOFF_SECS`.
pub open spec fn doubled_backoff(secs: u64) -> u64 {
    if 2 * secs < MAX_BACKOFF_SECS { (2 * secs) as u64 } else { MAX_BACKOFF_SECS }
}

/// The reconnect delay after one of `secs` seconds: twice as long, but no
/// longer than `MAX_BACKOFF_SECS`.
pub fn next_backoff(secs: u64) -> (r: u64)
    ensures
        r == (if 2 * secs < MAX_BACKOFF_SECS { 2 * secs } else { MAX_BACKOFF_SECS as int }),
        r == doubled_backoff(secs),
{
    if secs >= MAX_BACKOFF_SECS {
        return MAX_BACKOFF_SECS;
    }
    let doubled = secs * 2;
    if doubled > MAX_BACKOFF_SECS {
        MAX_BACKOFF_SECS
    } else {
        doubled
    }
}

/// The listener around the event stream: it registers its button once,
/// then attempts the stream, waiting between failed attempts.
#[derive(Debug, Clone, Copy, PartialEq, Eq, Structural)]
pub enum ListenState {
    /// Registering the button with the hub.
    Registering,
    /// Attempting the stream, with the delay the next failure waits.
    Attempting(u64),
    /// Waiting before the next attempt, with the delay after it.
    Waiting(u64),
    /// Finished (the stream ended cleanly).
    Done,
}

/// What the listener learns from outside.
#[derive(Debug, Clone, Copy, PartialEq, Eq, Structural)]
pub enum ListenEvent {
    /// The registration ended, successfully or not.
    Registered(bool),
    /// An attempt at the stream ended cleanly (`true`) or with an error.
    AttemptEnded(bool),
    /// The wait is over.
    WaitOver,
    /// The caller cancelled the listener.
    Cancelled,
}

/// What the listener does next.
#[derive(Debug, Clone, Copy, PartialEq, Eq, Structural)]
pub enum ListenAction {
    /// Attempt the stream.
    Attempt,
    /// Wait this many seconds.
    Wait(u64),
    /// Return successfully.
    Finish,
    /// Unregister the button, then return successfully.
    Unregister,
    /// Nothing (the event does not fit the state).
    Nothing,
}

/// The listener's next state and action: whatever the registration gave,
/// attempting starts with the initial delay; a clean end finishes; a failed
/// attempt waits the current delay and doubles it (up to the maximum); after
/// a wait the stream is attempted again; a cancellation unregisters the
/// button and ends the listener. The listener never fails.
pub open spec fn listen_next(state: ListenState, event: ListenEvent) -> (ListenState, ListenAction) {
    match (state, event) {
        (ListenState::Registering, ListenEvent::Registered(_)) => (
            ListenState::Attempting(INITIAL_BACKOFF_SECS),
            ListenAction::Attempt,
        ),
        (ListenState::Attempting(_), ListenEvent::AttemptEnded(true)) => (
            ListenState::Done,
            ListenAction::Finish,
        ),
        (ListenState::Attempting(b), ListenEvent::AttemptEnded(false)) => (
            ListenState::Waiting(doubled_backoff(b)),
            ListenAction::Wait(b),
        ),
        (ListenState::Waiting(b), ListenEvent::WaitOver) => (
            ListenState::Attempting(b),
            ListenAction::Attempt,
        ),
        (ListenState::Done, ListenEvent::Cancelled) => (state, ListenAction::Nothing),
        (_, ListenEvent::Cancelled) => (ListenState::Done, ListenAction::Unregister),
        _ => (state, ListenAction::Nothing),
    }
}

/// One step of the listener.
pub fn listen_step(state: ListenState, event: ListenEvent) -> (r: (ListenState, ListenAction))
    ensures
        r == listen_next(state, event),
{
    match (state, event) {
        (ListenState::Registering, ListenEvent::Registered(_)) => (
            ListenState::Attempting(INITIAL_BACKOFF_SECS),
            ListenAction::Attempt,
        ),
        (ListenState::Attempting(_), ListenEvent::AttemptEnded(true)) => (
            ListenState::Done,
            ListenAction::Finish,
        ),
        (ListenState::Attempting(b), ListenEvent::AttemptEnded(false)) => (
            ListenState::Waiting(next_backoff(b)),
            ListenAction::Wait(b),
        ),
        (ListenState::Waiting(b), ListenEvent::WaitOver) => (
            ListenState::Attempting(b),
            ListenAction::Attempt,
        ),
        (ListenState::Done, ListenEvent::Cancelled) => (state, ListenAction::Nothing),
        (_, ListenEvent::Cancelled) => (ListenState::Done, ListenAction::Unregister),
        _ => (state, ListenAction::Nothing),
    }
}

/// The delays of the listener stay within `1..=MAX_BACKOFF_SECS` in every
/// state it reaches, and each wait is at least as long as the one before.
pub proof fn lemma_listen_delays_bounded(state: ListenState, event: ListenEvent)
    requires
        match state {
            ListenState::Attempting(b) => 1 <= b <= MAX_BACKOFF_SECS,
            ListenState::Waiting(b) => 1 <= b <= MAX_BACKOFF_SECS,
            _ => true,
        },
    ensures
        match listen_next(state, event).0 {
            ListenState::Attempting(b) => 1 <= b <= MAX_BACKOFF_SECS,
            ListenState::Waiting(b) => 1 <= b <= MAX_BACKOFF_SECS,
            _ => true,
        },
        match (state, listen_next(state, event).0) {
            (ListenState::Attempting(b), ListenState::Waiting(c)) => b <= c,
            _ => true,
        },
{
}

/// The reconnect delays never leave `1..=MAX_BACKOFF_SECS` and never shrink.
pub proof fn lemma_backoff_bounded(secs: u64)
    requires
        1 <= secs <= MAX_BACKOFF_SECS,
    ensures
        secs <= (if 2 * secs < MAX_BACKOFF_SECS { 2 * secs } else { MAX_BACKOFF_SECS as int }) <= MAX_BACKOFF_SECS,
{
}

// ---------------------------------------------------------------------------
// Server-sent event framing
// ---------------------------------------------------------------------------

/// The lines of a chunk, each ending with its `\n` (the last one may lack
/// it), in order.
pub open spec fn lines_of(s: Seq<u8>) -> Seq<Seq<u8>>
    decreases s.len(),
{
    if s.len() == 0 {
        Seq::empty()
    } else {
        let init = lines_of(s.drop_last());
        if init.len() == 0 || init.last().last() == 10u8 {
            init.push(seq![s.last()])
        } else {
            init.update(init.len() - 1, init.last().push(s.last()))
        }
    }
}

proof fn lemma_lines_of_nonempty(s: Seq<u8>)
    ensures
        forall|i: int| 0 <= i < lines_of(s).len() ==> (#[trigger] lines_of(s)[i]).len() > 0,
        s.len() > 0 ==> lines_of(s).len() > 0,
    decreases s.len(),
{
    if s.len() > 0 {
        lemma_lines_of_nonempty(s.drop_last());
        let init = lines_of(s.drop_last());
        let ls = lines_of(s);
        assert forall|i: int| 0 <= i < ls.len() implies (#[trigger] ls[i]).len() > 0 by {
            if i < init.len() && !(init.len() == 0 || init.last().last() == 10u8) && i
                == init.len() - 1 {
                assert(ls[i] == init.last().push(s.last()));
            } else if i < init.len() {
                assert(ls[i] == init[i]);
            }
        }
    }
}

/// Splits a chunk into lines, keeping each line's `\n`.
pub fn split_lines(chunk: &[u8]) -> (r: Vec<Vec<u8>>)
    ensures
        r.deep_view() == lines_of(chunk@),
{
    let mut r: Vec<Vec<u8>> = Vec::new();
    let mut cur: Vec<u8> = Vec::new();
    let n = chunk.len();
    for i in 0..n
        invariant
            n == chunk@.len(),
            ({
                let ls = lines_of(chunk@.take(i as int));
                if cur@.len() == 0 {
                    r.deep_view() == ls && (ls.len() == 0 || ls.last().last() == 10u8)
                } else {
                    ls.len() > 0 && r.deep_view() == ls.drop_last() && cur@ == ls.last()
                        && cur@.last() != 10u8
                }
            }),
    {
        let ghost t = chunk@.take(i + 1);
        assert(t.drop_last() =~= chunk@.take(i as int));
        proof { lemma_lines_of_nonempty(chunk@.take(i as int)); }
        let b = chunk[i];
        let ghost before = r.deep_view();
        let ghost old_cur = cur@;
        cur.push(b);
        if b == 10u8 {
            let finished = cur;
            r.push(finished);
            cur = Vec::new();
            proof {
                let ls = lines_of(t);
                assert(r@.last().deep_view() =~= old_cur.push(b));
                assert(r.deep_view() =~= before.push(old_cur.push(b)));
                if old_cur.len() == 0 {
                    assert(ls =~= before.push(seq![b]));
                    assert(old_cur.push(b) =~= seq![b]);
                } else {
                    assert(ls =~= before.push(old_cur.push(b)));
                }
            }
        } else {
            proof {
                let ls = lines_of(t);
                if old_cur.len() == 0 {
                    assert(cur@ =~= seq![b]);
                    assert(ls =~= before.push(seq![b]));
                    assert(ls.drop_last() =~= before);
                } else {
                    assert(ls.drop_last() =~= before);
                }
            }
        }
    }
    assert(chunk@.take(n as int) =~= chunk@);
    proof { lemma_lines_of_nonempty(chunk@); }
    if cur.len() > 0 {
        let ghost before = r.deep_view();
        let ghost c = cur@;
        r.push(cur);
        assert(r@.last().deep_view() =~= c);
        assert(r.deep_view() =~= before.push(c));
        assert(lines_of(chunk@) =~= before.push(c));
    }
    r
}

/// What `String::from_utf8_lossy` makes of a byte sequence: the decoded text,
/// with each invalid sequence replaced by U+FFFD.
pub uninterp spec fn utf8_lossy(bytes: Seq<u8>) -> Seq<char>;

/// `String::from_utf8_lossy`, made an owned `String`. Its result is named
/// `utf8_lossy`; of it, only what the documentation states is claimed: valid
/// UTF-8 decodes to its own text. How invalid bytes are replaced is left
/// unstated.
#[verifier::external_body]
fn decode_lossy(bytes: &[u8]) -> (r: String)
    ensures
        r@ == utf8_lossy(bytes@),
        vstd::utf8::valid_utf8(bytes@) ==> r@ == vstd::utf8::decode_utf8(bytes@),
{
    String::from_utf8_lossy(bytes).into_owned()
}

/// What one stream line does to the pending data, and the payload it
/// completes, if any. The line is trimmed first; an empty line ends an
/// event (handing out the pending data when there is any), a line starting
/// with `:` is a comment, and a `data:` line adds its trimmed value and a
/// newline to the pending data. Other lines are ignored.
pub open spec fn line_effect(pending: Seq<char>, text: Seq<char>) -> (Seq<char>, Option<Seq<char>>) {
    let l = trim(text);
    if l.len() == 0 {
        if pending.len() > 0 {
            (Seq::empty(), Some(pending))
        } else {
            (pending, None)
        }
    } else if l[0] == ':' {
        (pending, None)
    } else if has_prefix(l, "data:"@) {
        (pending + trim(l.subrange(5, l.len() as int)) + seq!['\n'], None)
    } else {
        (pending, None)
    }
}

/// One byte of the stream, given the pending data and the unfinished line
/// read so far: a newline completes the line, which then takes effect as
/// `line_effect` says; any other byte extends the unfinished line. Gives the
/// new pending data, the new unfinished line and the payload completed, if
/// any.
pub open spec fn byte_step(pending: Seq<char>, partial: Seq<u8>, b: u8) -> (Seq<char>, Seq<u8>, Option<Seq<char>>) {
    let line = partial.push(b);
    if b == 10u8 {
        let (p, out) = line_effect(pending, utf8_lossy(line));
        (p, Seq::empty(), out)
    } else {
        (pending, line, None)
    }
}

/// Reading `bytes` from the state `(pending, partial)`: the state after
/// them, and the payloads they complete, in order.
pub open spec fn run_bytes(pending: Seq<char>, partial: Seq<u8>, bytes: Seq<u8>) -> (Seq<char>, Seq<u8>, Seq<Seq<char>>)
    decreases bytes.len(),
{
    if bytes.len() == 0 {
        (pending, partial, Seq::empty())
    } else {
        let (p, q, out) = run_bytes(pending, partial, bytes.drop_last());
        let (p2, q2, o) = byte_step(p, q, bytes.last());
        (
            p2,
            q2,
            match o {
                Some(x) => out.push(x),
                None => out,
            },
        )
    }
}

/// What the end of the stream delivers: the unfinished line is taken as a
/// last line, then whatever data is still pending is handed out.
pub open spec fn end_of_stream(pending: Seq<char>, partial: Seq<u8>) -> Option<Seq<char>> {
    let (p, out) = if partial.len() > 0 {
        line_effect(pending, utf8_lossy(partial))
    } else {
        (pending, None)
    };
    match out {
        Some(x) => Some(x),
        None => if p.len() > 0 {
            Some(p)
        } else {
            None
        },
    }
}

/// How the stream is cut into chunks does not matter: reading `a` and then
/// `b` ends in the same state, with the same payloads in the same order, as
/// reading `a + b` at once.
pub proof fn lemma_chunking_does_not_matter(pending: Seq<char>, partial: Seq<u8>, a: Seq<u8>, b: Seq<u8>)
    ensures
        ({
            let (p1, q1, o1) = run_bytes(pending, partial, a);
            let (p2, q2, o2) = run_bytes(p1, q1, b);
            run_bytes(pending, partial, a + b) == (p2, q2, o1 + o2)
        }),
    decreases b.len(),
{
    if b.len() == 0 {
        assert(a + b =~= a);
        let o1 = run_bytes(pending, partial, a).2;
        assert(o1 + Seq::<Seq<char>>::empty() =~= o1);
    } else {
        assert((a + b).drop_last() =~= a + b.drop_last());
        assert((a + b).last() == b.last());
        lemma_chunking_does_not_matter(pending, partial, a, b.drop_last());
        let (p1, q1, o1) = run_bytes(pending, partial, a);
        let (p3, q3, o3) = run_bytes(p1, q1, b.drop_last());
        let (p4, q4, o) = byte_step(p3, q3, b.last());
        match o {
            Some(x) => {
                assert(o1 + o3.push(x) =~= (o1 + o3).push(x));
            },
            None => {},
        }
    }
}

/// Whether a streamed event is one of button `button_id`.
pub fn is_for_button(event: &Event, button_id: &str) -> (r: bool)
    ensures
        r == (event.button_id@ == button_id@),
{
    text_eq(event.button_id.as_str(), button_id)
}

/// Framing state of a server-sent event stream: the data lines of the event
/// being read, and the bytes of a line whose end has not arrived yet.
pub struct SseParser {
    buffer: String,
    partial: Vec<u8>,
}

impl SseParser {
    /// The data read so far for the current event.
    pub closed spec fn pending(&self) -> Seq<char> {
        self.buffer@
    }

    /// The bytes of the unfinished last line.
    pub closed spec fn partial(&self) -> Seq<u8> {
        self.partial@
    }

    /// A parser with nothing pending.
    pub fn new() -> (r: Self)
        ensures
            r.pending() == Seq::<char>::empty(),
            r.partial() == Seq::<u8>::empty(),
    {
        Self { buffer: String::new(), partial: Vec::new() }
    }

    /// Hands out the pending data if there is any, leaving nothing pending.
    pub fn flush_buffer(&mut self) -> (r: Option<String>)
        ensures
            match r {
                Some(p) => old(self).pending().len() > 0 && p@ == old(self).pending()
                    && final(self).pending() == Seq::<char>::empty(),
                None => old(self).pending().len() == 0 && final(self).pending() == old(self).pending(),
            },
            final(self).partial() == old(self).partial(),
    {
        if self.buffer.as_str().is_empty() {
            return None;
        }
        let mut taken = String::new();
        std::mem::swap(&mut taken, &mut self.buffer);
        Some(taken)
    }

    /// Feeds one line of the stream (its bytes, newline included or not).
    pub fn process_line(&mut self, line: &[u8]) -> (r: Option<String>)
        ensures
            final(self).pending() == line_effect(old(self).pending(), utf8_lossy(line@)).0,
            r matches Some(p) ==> line_effect(old(self).pending(), utf8_lossy(line@)).1 == Some(p@),
            r is None ==> line_effect(old(self).pending(), utf8_lossy(line@)).1 is None,
            final(self).partial() == old(self).partial(),
    {
        let decoded = decode_lossy(line);
        let l = trim_text(decoded.as_str());
        if l.as_str().is_empty() {
            return self.flush_buffer();
        }
        let ls = l.as_str();
        proof { reveal_strlit(":"); }
        if starts_with(ls, ":") {
            assert(ls@.subrange(0, 1)[0] == ls@[0]);
            return None;
        }
        if starts_with(ls, "data:") {
            proof {
                reveal_strlit("data:");
                assert(ls@[0] == ls@.subrange(0, 5)[0]);
            }
            let n = ls.unicode_len();
            let data = trim_text(ls.substring_char(5, n));
            self.buffer.append(data.as_str());
            proof { reveal_strlit("\n"); }
            self.buffer.append("\n");
            assert(self.buffer@ =~= line_effect(old(self).pending(), utf8_lossy(line@)).0);
            return None;
        }
        proof {
            if ls@[0] == ':' {
                assert(ls@.subrange(0, 1) =~= ":"@);
            }
        }
        None
    }

    /// Reads a chunk of the stream and hands out every payload it completes,
    /// in order; a line cut by the end of the chunk is kept until the rest of
    /// it arrives.
    pub fn chunk_payloads(&mut self, chunk: &[u8]) -> (r: Vec<String>)
        ensures
            ({
                let (p, q, out) = run_bytes(old(self).pending(), old(self).partial(), chunk@);
                &&& final(self).pending() == p
                &&& final(self).partial() == q
                &&& r.deep_view() == out
            }),
    {
        let mut line: Vec<u8> = Vec::new();
        std::mem::swap(&mut line, &mut self.partial);
        let mut out: Vec<String> = Vec::new();
        let n = chunk.len();
        assert(chunk@.take(0) =~= Seq::<u8>::empty());
        for i in 0..n
            invariant
                n == chunk@.len(),
                self.partial@ == Seq::<u8>::empty(),
                ({
                    let (p, q, o) = run_bytes(old(self).pending(), old(self).partial(), chunk@.take(i as int));
                    &&& self.pending() == p
                    &&& line@ == q
                    &&& out.deep_view() == o
                }),
        {
            let ghost t = chunk@.take(i + 1);
            assert(t.drop_last() =~= chunk@.take(i as int));
            assert(t.last() == chunk@[i as int]);
            let b = chunk[i];
            line.push(b);
            if b == 10u8 {
                let ghost before = out.deep_view();
                let got = self.process_line(line.as_slice());
                line = Vec::new();
                match got {
                    Some(p) => {
                        let ghost pv = p@;
                        out.push(p);
                        assert(out.deep_view() =~= before.push(pv));
                    },
                    None => {},
                }
            }
        }
        assert(chunk@.take(n as int) =~= chunk@);
        self.partial = line;
        out
    }

    /// The end of the stream: the unfinished line is read as a last line,
    /// then any pending data is handed out; nothing is left afterwards.
    pub fn finish(&mut self) -> (r: Option<String>)
        ensures
            match r {
                Some(p) => end_of_stream(old(self).pending(), old(self).partial()) == Some(p@),
                None => end_of_stream(old(self).pending(), old(self).partial()) is None,
            },
            final(self).pending() == Seq::<char>::empty(),
            final(self).partial() == Seq::<u8>::empty(),
    {
        let mut line: Vec<u8> = Vec::new();
        std::mem::swap(&mut line, &mut self.partial);
        if line.len() > 0 {
            let got = self.process_line(line.as_slice());
            if got.is_some() {
                return got;
            }
        }
        self.flush_buffer()
    }
}

/// A `data:` line followed by a blank line hands out the pending data with
/// that line's trimmed value and a newline appended, and leaves nothing
/// pending.
pub proof fn lemma_data_then_blank(pending: Seq<char>, data_line: Seq<char>, blank: Seq<char>)
    requires
        has_prefix(trim(data_line), "data:"@),
        trim(blank).len() == 0,
    ensures
        ({
            let l = trim(data_line);
            let (p1, r1) = line_effect(pending, data_line);
            let (p2, r2) = line_effect(p1, blank);
            &&& r1 is None
            &&& p2 == Seq::<char>::empty()
            &&& r2 == Some(pending + trim(l.subrange(5, l.len() as int)) + seq!['\n'])
        }),
{
    reveal_strlit("data:");
    let l = trim(data_line);
    assert(l[0] == l.subrange(0, 5)[0]);
    let p1 = line_effect(pending, data_line).0;
    assert(p1.len() > 0);
}

/// Comment lines (starting with `:` once trimmed) change nothing.
pub proof fn lemma_comment_ignored(pending: Seq<char>, text: Seq<char>)
    requires
        trim(text).len() > 0,
        trim(text)[0] == ':',
    ensures
        line_effect(pending, text) == (pending, None::<Seq<char>>),
{
}


/// Whatever the registration gave, the listener goes on to attempt the
/// stream with the initial delay; and it only ever finishes after an attempt
/// that ended cleanly.
pub proof fn lemma_registration_outcome_does_not_matter(ok: bool, state: ListenState, event: ListenEvent)
    ensures
        listen_next(ListenState::Registering, ListenEvent::Registered(ok)) == listen_next(
            ListenState::Registering,
            ListenEvent::Registered(!ok),
        ),
        listen_next(ListenState::Registering, ListenEvent::Registered(ok)).1 == ListenAction::Attempt,
        listen_next(ListenState::Registering, ListenEvent::Registered(ok)).0 == ListenState::Attempting(
            INITIAL_BACKOFF_SECS,
        ),
        listen_next(state, event).1 == ListenAction::Finish ==> event == ListenEvent::AttemptEnded(true),
{
}

} // verus!
