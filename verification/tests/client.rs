use button_hub::client::{
    is_for_button, listen_step, next_backoff, register_url, split_lines, trim_slash,
    unregister_url, Client, ListenAction, ListenEvent, ListenState, SseParser, INITIAL_BACKOFF_SECS,
    MAX_BACKOFF_SECS,
};
use button_hub::event::{ActionType, Event, Timestamp};

#[test]
fn client_test_trim_slash() {
    assert_eq!(
        trim_slash("http://localhost:3000/"),
        "http://localhost:3000"
    );
    assert_eq!(trim_slash("http://localhost:3000"), "http://localhost:3000");
}

#[test]
fn registry_test_trim_slash() {
    assert_eq!(trim_slash("http://localhost:3000/"), "http://localhost:3000");
    assert_eq!(trim_slash("http://localhost:3000"), "http://localhost:3000");
    assert_eq!(trim_slash("http://localhost:3000//"), "http://localhost:3000");
}

#[test]
fn test_client_new_trims_trailing_slash() {
    let client = Client::new("http://localhost:3000/api/");
    assert_eq!(client.base_url(), "http://localhost:3000/api");
}

#[test]
fn test_client_new_no_trailing_slash() {
    let client = Client::new("http://localhost:3000/api");
    assert_eq!(client.base_url(), "http://localhost:3000/api");
}

#[test]
fn urls() {
    let client = Client::new("http://h:1//");
    assert_eq!(client.stream_url(), "http://h:1/api/events/stream");
    assert_eq!(register_url("http://h:1/"), "http://h:1/buttons");
    assert_eq!(unregister_url("http://h:1", "b1"), "http://h:1/buttons/b1");
    assert_eq!(trim_slash("///"), "");
}

#[test]
fn backoff_doubles_up_to_thirty() {
    let mut b = INITIAL_BACKOFF_SECS;
    let mut seen = vec![b];
    for _ in 0..7 {
        b = next_backoff(b);
        seen.push(b);
    }
    assert_eq!(seen, vec![1, 2, 4, 8, 16, 30, 30, 30]);
    assert_eq!(next_backoff(MAX_BACKOFF_SECS), MAX_BACKOFF_SECS);
    assert_eq!(next_backoff(15), 30);
    assert_eq!(next_backoff(14), 28);
    assert_eq!(next_backoff(0), 0);
    assert_eq!(next_backoff(u64::MAX), MAX_BACKOFF_SECS);
}

#[test]
fn split_lines_keeps_newlines() {
    let lines = split_lines(b"data:a\n\n: ping\npartial");
    assert_eq!(lines, vec![b"data:a\n".to_vec(), b"\n".to_vec(), b": ping\n".to_vec(), b"partial".to_vec()]);
    assert!(split_lines(b"").is_empty());
}

fn feed(parser: &mut SseParser, chunk: &[u8]) -> Vec<String> {
    parser.chunk_payloads(chunk)
}

#[test]
fn sse_framing_collects_data_lines() {
    let mut p = SseParser::new();
    let out = feed(&mut p, b"data: {\"a\":1}\n\n");
    assert_eq!(out, vec!["{\"a\":1}\n".to_string()]);
    let out = feed(&mut p, b"data:x\ndata: y \n\n");
    assert_eq!(out, vec!["x\ny\n".to_string()]);
}

#[test]
fn sse_ignores_comments_and_other_fields() {
    let mut p = SseParser::new();
    let out = feed(&mut p, b": keep-alive ping\n\nevent: message\nid: 7\n\n");
    assert!(out.is_empty());
    assert_eq!(p.flush_buffer(), None);
}

#[test]
fn sse_payload_split_across_chunks() {
    let mut p = SseParser::new();
    assert!(feed(&mut p, b"data: {\"but").is_empty());
    assert!(feed(&mut p, b"ton_id\":\"b").is_empty());
    let out = feed(&mut p, b"1\"}\n\ndata: x\n\n");
    assert_eq!(out, vec!["{\"button_id\":\"b1\"}\n".to_string(), "x\n".to_string()]);
}

#[test]
fn sse_every_chunking_gives_the_same_payloads() {
    let stream: &[u8] = b": hi\ndata: {\"a\":1}\n\nevent: e\ndata: one\ndata: two\n\n\ndata: last\n\n";
    let mut whole = SseParser::new();
    let expected = whole.chunk_payloads(stream);
    assert_eq!(expected, vec!["{\"a\":1}\n".to_string(), "one\ntwo\n".to_string(), "last\n".to_string()]);
    for size in 1..stream.len() {
        let mut p = SseParser::new();
        let mut got = Vec::new();
        for chunk in stream.chunks(size) {
            got.extend(p.chunk_payloads(chunk));
        }
        assert_eq!(got, expected, "chunks of {}", size);
        assert_eq!(p.finish(), None);
    }
}

#[test]
fn sse_finish_reads_the_unfinished_line() {
    let mut p = SseParser::new();
    assert!(feed(&mut p, b"data: a\ndata: b").is_empty());
    assert_eq!(p.finish(), Some("a\nb\n".to_string()));
    assert_eq!(p.finish(), None);
    let mut q = SseParser::new();
    assert!(feed(&mut q, b"data: c\n").is_empty());
    assert_eq!(q.finish(), Some("c\n".to_string()));
}

#[test]
fn sse_flush_hands_out_pending() {
    let mut p = SseParser::new();
    assert!(feed(&mut p, b"data: tail\n").is_empty());
    assert_eq!(p.flush_buffer(), Some("tail\n".to_string()));
    assert_eq!(p.flush_buffer(), None);
}

#[test]
fn sse_invalid_utf8_is_replaced() {
    let mut p = SseParser::new();
    let out = feed(&mut p, b"data: a\xffb\n\n");
    assert_eq!(out, vec!["a\u{FFFD}b\n".to_string()]);
}

#[test]
fn listener_steps() {
    let (s, a) = listen_step(ListenState::Registering, ListenEvent::Registered(false));
    assert_eq!((s, a), (ListenState::Attempting(INITIAL_BACKOFF_SECS), ListenAction::Attempt));
    let mut state = s;
    let mut waits = Vec::new();
    for _ in 0..7 {
        let (s, a) = listen_step(state, ListenEvent::AttemptEnded(false));
        if let ListenAction::Wait(secs) = a {
            waits.push(secs);
        }
        let (s, a) = listen_step(s, ListenEvent::WaitOver);
        assert_eq!(a, ListenAction::Attempt);
        state = s;
    }
    assert_eq!(waits, vec![1, 2, 4, 8, 16, 30, 30]);
    assert_eq!(listen_step(state, ListenEvent::AttemptEnded(true)), (ListenState::Done, ListenAction::Finish));
    assert_eq!(listen_step(ListenState::Done, ListenEvent::WaitOver), (ListenState::Done, ListenAction::Nothing));
}

#[test]
fn cancelling_the_listener_unregisters() {
    for state in [ListenState::Registering, ListenState::Attempting(4), ListenState::Waiting(8)] {
        assert_eq!(listen_step(state, ListenEvent::Cancelled), (ListenState::Done, ListenAction::Unregister));
    }
    assert_eq!(listen_step(ListenState::Done, ListenEvent::Cancelled), (ListenState::Done, ListenAction::Nothing));
}

#[test]
fn events_are_filtered_by_button() {
    let e = Event {
        button_id: "btn-A".to_string(),
        action: ActionType::Single,
        battery: None,
        timestamp: Timestamp { secs: 0, nanos: 0 },
    };
    assert!(is_for_button(&e, "btn-A"));
    assert!(!is_for_button(&e, "btn-B"));
}
