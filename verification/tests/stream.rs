use pointer_core::event::ChatEvent;
use pointer_core::relay::ChatRelay;
use pointer_core::sse::StreamParser;

fn token(s: &str) -> ChatEvent {
    ChatEvent::Token(s.to_string())
}

#[test]
fn token_then_done() {
    let mut relay = ChatRelay::new();
    let events = relay.on_status(200, "");
    assert!(events.is_empty());
    let events = relay.on_chunk(b"data: {\"response\":\"Hi\"}\n\ndata: [DONE]\n\n");
    assert_eq!(events, vec![token("Hi"), ChatEvent::Done]);
}

#[test]
fn status_error_is_the_only_event() {
    let mut relay = ChatRelay::new();
    let events = relay.on_status(500, "oops");
    assert_eq!(events, vec![ChatEvent::Error("HTTP 500: oops".to_string())]);
}

#[test]
fn send_failure_is_the_only_event() {
    let mut relay = ChatRelay::new();
    let events = relay.on_send_failure("connection refused".to_string());
    assert_eq!(
        events,
        vec![ChatEvent::Error("connection refused".to_string())]
    );
}

#[test]
fn stream_end_emits_fallback_done() {
    let mut relay = ChatRelay::new();
    relay.on_status(204, "");
    let events = relay.on_chunk(b"data: {\"response\":\"partial\"}\n");
    assert_eq!(events, vec![token("partial")]);
    let events = relay.on_stream_end();
    assert_eq!(events, vec![ChatEvent::Done]);
}

#[test]
fn stream_error_keeps_earlier_tokens() {
    let mut relay = ChatRelay::new();
    relay.on_status(200, "");
    let events = relay.on_chunk(b"data: {\"response\":\"kept\"}\n");
    assert_eq!(events, vec![token("kept")]);
    let events = relay.on_stream_error("connection reset".to_string());
    assert_eq!(
        events,
        vec![ChatEvent::Error("connection reset".to_string())]
    );
}

#[test]
fn rechunking_gives_identical_events() {
    let body: &[u8] =
        b"data: {\"response\":\"He\"}\r\ndata: {\"response\":\"llo\"}\n: comment\ndata: [DONE]\n";
    let mut whole = StreamParser::new();
    let mut all_at_once = whole.feed(body);
    all_at_once.extend(whole.feed(b""));

    for cut in 1..body.len() {
        let mut split = StreamParser::new();
        let mut events = split.feed(&body[..cut]);
        events.extend(split.feed(&body[cut..]));
        assert_eq!(events, all_at_once);
    }

    let mut bytewise = StreamParser::new();
    let mut events = Vec::new();
    for b in body {
        events.extend(bytewise.feed(std::slice::from_ref(b)));
    }
    assert_eq!(events, all_at_once);
    assert_eq!(
        events,
        vec![token("He"), token("llo"), ChatEvent::Done]
    );
}

#[test]
fn incomplete_line_waits_for_its_newline() {
    let mut parser = StreamParser::new();
    let events = parser.feed(b"data: {\"resp");
    assert!(events.is_empty());
    let events = parser.feed(b"onse\":\"Hi\"}");
    assert!(events.is_empty());
    let events = parser.feed(b"\n");
    assert_eq!(events, vec![token("Hi")]);
}

#[test]
fn sentinel_discards_rest_of_chunk() {
    let mut parser = StreamParser::new();
    let events = parser.feed(b"data: [DONE]\ndata: {\"response\":\"late\"}\n");
    assert_eq!(events, vec![ChatEvent::Done]);
    assert!(parser.is_finished());
}

#[test]
fn sentinel_discards_later_chunks() {
    let mut relay = ChatRelay::new();
    relay.on_status(200, "");
    let events = relay.on_chunk(b"data: [DONE]\n");
    assert_eq!(events, vec![ChatEvent::Done]);
    let mut parser = StreamParser::new();
    parser.feed(b"data: [DONE]\n");
    let events = parser.feed(b"data: {\"response\":\"late\"}\n");
    assert!(events.is_empty());
}

#[test]
fn sentinel_tolerates_padding_and_carriage_return() {
    let mut parser = StreamParser::new();
    let events = parser.feed(b"data:   [DONE]  \r\n");
    assert_eq!(events, vec![ChatEvent::Done]);
}

#[test]
fn malformed_lines_are_skipped_silently() {
    let mut parser = StreamParser::new();
    let events = parser.feed(
        b"data: not json\nnoise\ndata: {\"other\":\"field\"}\ndata: {\"response\":\"ok\"}\n",
    );
    assert_eq!(events, vec![token("ok")]);
}

#[test]
fn response_field_must_be_a_string() {
    let mut parser = StreamParser::new();
    let events = parser.feed(b"data: {\"response\": 7}\ndata: {\"response\":\"7\"}\n");
    assert_eq!(events, vec![token("7")]);
}
