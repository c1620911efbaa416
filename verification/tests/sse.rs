use moonleaf::sse::{find_terminator, parse_field, Event, Parser};

/// A realistic OpenAI stream: role-only opener, two content chunks, a
/// keep-alive comment, the `finish_reason` chunk, the usage chunk, `[DONE]`.
const OPENAI_STREAM: &str = r#"data: {"id":"c1","object":"chat.completion.chunk","created":1,"model":"m","choices":[{"index":0,"delta":{"role":"assistant","content":""},"finish_reason":null}]}

data: {"id":"c1","object":"chat.completion.chunk","created":1,"model":"m","choices":[{"index":0,"delta":{"content":"Hello"},"finish_reason":null}]}

: keep-alive

data: {"id":"c1","object":"chat.completion.chunk","created":1,"model":"m","choices":[{"index":0,"delta":{"content":" there"},"finish_reason":null}]}

data: {"id":"c1","object":"chat.completion.chunk","created":1,"model":"m","choices":[{"index":0,"delta":{},"finish_reason":"stop"}]}

data: {"id":"c1","object":"chat.completion.chunk","created":1,"model":"m","choices":[],"usage":{"prompt_tokens":9,"completion_tokens":2,"total_tokens":11}}

data: [DONE]

"#;

/// Feed each slice as a separate "socket read", draining after every one.
fn parse_all(reads: &[&[u8]]) -> Vec<Event> {
    let mut parser = Parser::new();
    let mut events = Vec::new();
    for read in reads {
        parser.push(read);
        while let Some(event) = parser.next_event() {
            events.push(event);
        }
    }
    events
}

fn data(payload: &str) -> Event {
    Event::Data(payload.to_owned())
}

// --- find_terminator ---------------------------------------------------

#[test]
fn terminator_lf() {
    assert_eq!(find_terminator(b"abc\ndef"), Some((3, 1)));
}

#[test]
fn terminator_crlf() {
    assert_eq!(find_terminator(b"abc\r\ndef"), Some((3, 2)));
}

#[test]
fn terminator_bare_cr() {
    assert_eq!(find_terminator(b"abc\rdef"), Some((3, 1)));
}

#[test]
fn terminator_trailing_cr_is_incomplete() {
    assert_eq!(find_terminator(b"abc\r"), None);
}

#[test]
fn terminator_absent() {
    assert_eq!(find_terminator(b"abc"), None);
    assert_eq!(find_terminator(b""), None);
}

#[test]
fn terminator_at_start_marks_empty_line() {
    assert_eq!(find_terminator(b"\nabc"), Some((0, 1)));
    assert_eq!(find_terminator(b"\r\nabc"), Some((0, 2)));
}

// --- parse_field -------------------------------------------------------

#[test]
fn field_strips_exactly_one_leading_space() {
    assert_eq!(parse_field("data: x"), ("data", "x"));
    assert_eq!(parse_field("data:x"), ("data", "x"));
    assert_eq!(parse_field("data:  x"), ("data", " x"));
}

#[test]
fn field_splits_on_first_colon_only() {
    assert_eq!(parse_field(r#"data: {"a":1}"#), ("data", r#"{"a":1}"#));
}

#[test]
fn field_without_value() {
    assert_eq!(parse_field("data:"), ("data", ""));
    assert_eq!(parse_field("data"), ("data", ""));
}

// --- Parser ------------------------------------------------------------

#[test]
fn single_event() {
    assert_eq!(parse_all(&[b"data: hello\n\n"]), vec![data("hello")]);
}

#[test]
fn multiple_events_in_one_push() {
    assert_eq!(
        parse_all(&[b"data: a\n\ndata: b\n\n"]),
        vec![data("a"), data("b")]
    );
}

#[test]
fn done_sentinel() {
    assert_eq!(
        parse_all(&[b"data: a\n\ndata: [DONE]\n\n"]),
        vec![data("a"), Event::Done]
    );
}

#[test]
fn incomplete_event_yields_nothing() {
    // No blank line, so the event has not dispatched yet.
    assert_eq!(parse_all(&[b"data: hello\n"]), vec![]);
}

#[test]
fn multi_line_data_joined_with_newline() {
    assert_eq!(
        parse_all(&[b"data: line1\ndata: line2\n\n"]),
        vec![data("line1\nline2")]
    );
}

#[test]
fn comment_is_ignored() {
    assert_eq!(
        parse_all(&[b": keep-alive\ndata: x\n: another\n\n"]),
        vec![data("x")]
    );
}

#[test]
fn blank_lines_without_data_do_not_dispatch() {
    assert_eq!(parse_all(&[b": ping\n\n\n\ndata: x\n\n"]), vec![data("x")]);
}

#[test]
fn empty_data_value_still_dispatches() {
    assert_eq!(parse_all(&[b"data:\n\n"]), vec![data("")]);
}

#[test]
fn unknown_fields_are_ignored() {
    assert_eq!(
        parse_all(&[b"event: message\nid: 42\nretry: 100\ndata: x\n\n"]),
        vec![data("x")]
    );
}

#[test]
fn no_space_after_colon() {
    assert_eq!(parse_all(&[b"data:x\n\n"]), vec![data("x")]);
}

#[test]
fn crlf_line_endings() {
    assert_eq!(parse_all(&[b"data: x\r\n\r\n"]), vec![data("x")]);
}

#[test]
fn crlf_split_across_pushes() {
    // The \r ends one read and the \n opens the next: one terminator, not two.
    assert_eq!(parse_all(&[b"data: x\r", b"\n\r\n"]), vec![data("x")]);
}

#[test]
fn bare_cr_line_endings() {
    // The final \r is ambiguous and stays buffered until the next read
    // resolves it, here as the \n half of a CRLF.
    assert_eq!(
        parse_all(&[b"data: x\r\rdata: y\r\r", b"\n"]),
        vec![data("x"), data("y")]
    );
}

#[test]
fn multibyte_utf8_split_across_pushes() {
    let stream = "data: café\n\n".as_bytes();
    let split = stream.iter().position(|&b| b == 0xC3).unwrap() + 1;

    assert_eq!(
        parse_all(&[&stream[..split], &stream[split..]]),
        vec![data("café")]
    );
}

#[test]
fn every_split_point_yields_same_events() {
    let bytes = OPENAI_STREAM.as_bytes();
    let expected = parse_all(&[bytes]);
    assert!(!expected.is_empty());

    for i in 0..=bytes.len() {
        let (head, tail) = bytes.split_at(i);
        assert_eq!(parse_all(&[head, tail]), expected, "split at byte {i}");
    }
}

#[test]
fn byte_at_a_time_yields_same_events() {
    let bytes = OPENAI_STREAM.as_bytes();
    let expected = parse_all(&[bytes]);

    let singles: Vec<&[u8]> = bytes.chunks(1).collect();
    assert_eq!(parse_all(&singles), expected);
}

// --- beyond the original suite ------------------------------------------

#[test]
fn openai_stream_yields_five_payloads_then_done() {
    let events = parse_all(&[OPENAI_STREAM.as_bytes()]);
    assert_eq!(events.len(), 6);
    assert_eq!(events.last(), Some(&Event::Done));
    for event in &events[..5] {
        match event {
            Event::Data(payload) => assert!(payload.starts_with("{\"id\":\"c1\"")),
            Event::Done => panic!("done before the end"),
        }
    }
}

#[test]
fn invalid_utf8_is_replaced_not_rejected() {
    assert_eq!(
        parse_all(&[b"data: a\xffb\n\n"]),
        vec![data("a\u{FFFD}b")]
    );
}

#[test]
fn done_with_trailing_space_is_data() {
    assert_eq!(parse_all(&[b"data: [DONE] \n\n"]), vec![data("[DONE] ")]);
}

#[test]
fn default_parser_is_empty() {
    let mut parser = Parser::default();
    assert_eq!(parser.next_event(), None);
    parser.push(b"data: z\n\n");
    assert_eq!(parser.next_event(), Some(data("z")));
    assert_eq!(parser.next_event(), None);
}
