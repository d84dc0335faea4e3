use conga_gasket::json::Json;
use conga_gasket::mcp::error::McpError;
use conga_gasket::mcp::sse::{sse_payload, SseDecoder, SseReader, StreamEvent};

fn text_of(v: Option<&Json>) -> Option<String> {
    v.and_then(|j| j.as_str()).map(|s| s.clone())
}

fn bool_of(v: Option<&Json>) -> Option<bool> {
    match v {
        Some(Json::Bool(b)) => Some(*b),
        _ => None,
    }
}

#[test]
fn sse_response_extracts_matching_data_line() {
    let sse = "event: message\ndata: {\"jsonrpc\":\"2.0\",\"method\":\"notifications/progress\"}\n\ndata: {\"jsonrpc\":\"2.0\",\"id\":7,\"result\":{\"content\":[{\"type\":\"text\",\"text\":\"hi\"}],\"isError\":false}}\n\n";
    let mut decoder = SseDecoder::new();
    let v = decoder
        .feed(sse.as_bytes())
        .into_iter()
        .find_map(|payload| sse_payload(&payload, 7))
        .expect("should find matching response")
        .ok()
        .expect("matching response should be a result");
    let first = match v.get("content") {
        Some(Json::Array(items)) => &items[0],
        _ => panic!("expected an array"),
    };
    assert_eq!(text_of(first.get("text")).as_deref(), Some("hi"));
    assert_eq!(bool_of(v.get("isError")), Some(false));
}

#[test]
fn sse_response_missing_match_returns_error() {
    let sse = "data: {\"jsonrpc\":\"2.0\",\"id\":99,\"result\":{}}\n\n";
    let mut decoder = SseDecoder::new();
    assert!(
        decoder.feed(sse.as_bytes()).into_iter().all(|payload| sse_payload(&payload, 7).is_none()),
        "should not find a match for id=7"
    );
}

#[test]
fn sse_feed_returns_match_before_stream_drains() {
    let body = "data: {\"jsonrpc\":\"2.0\",\"method\":\"notifications/progress\"}\n\ndata: {\"jsonrpc\":\"2.0\",\"id\":7,\"result\":{\"ok\":true}}\n\ndata: {\"jsonrpc\":\"2.0\",\"method\":\"notifications/message\"}\n\n";
    let mut decoder = SseDecoder::new();
    let mut result = None;
    'outer: for byte in body.bytes() {
        for payload in decoder.feed(&[byte]) {
            if let Some(res) = sse_payload(&payload, 7) {
                result = Some(res);
                break 'outer;
            }
        }
    }
    let v = result.expect("match must land mid-stream").ok().expect("match should be a result");
    assert_eq!(bool_of(v.get("ok")), Some(true));
}

#[test]
fn sse_multiline_data_fields_join_with_newline() {
    let mut decoder = SseDecoder::new();
    assert_eq!(
        decoder.feed(b"data: first\ndata: second\n\n"),
        vec!["first\nsecond".to_string()]
    );

    let stream = "data: {\"jsonrpc\":\"2.0\",\ndata: \"id\":4,\"result\":{\"n\":1}}\n\n";
    let mut decoder = SseDecoder::new();
    let v = decoder
        .feed(stream.as_bytes())
        .into_iter()
        .find_map(|payload| sse_payload(&payload, 4))
        .expect("joined data must parse as the response")
        .ok()
        .expect("result");
    assert_eq!(v.get("n").and_then(|n| n.as_u64()), Some(1));
}

#[test]
fn sse_decoder_handles_terminators_comments_and_split_chunks() {
    let mut d = SseDecoder::new();
    assert_eq!(d.feed(b": keep-alive\ndata: spaced\n\n"), vec!["spaced".to_string()]);

    let mut d = SseDecoder::new();
    assert!(d.feed(b"data: crlf\r").is_empty());
    assert_eq!(d.feed(b"\n\r\n"), vec!["crlf".to_string()]);

    let mut d = SseDecoder::new();
    assert!(d.feed(b"data: cr\rdata: d\r\r").is_empty());
    assert_eq!(d.flush(), vec!["cr\nd".to_string()]);

    let mut d = SseDecoder::new();
    assert!(d.feed(b"data: tail").is_empty());
    assert_eq!(d.flush(), vec!["tail".to_string()]);
    let mut d = SseDecoder::new();
    assert!(d.feed(b"data: done\n").is_empty());
    assert_eq!(d.flush(), vec!["done".to_string()]);
    let mut d = SseDecoder::new();
    assert!(d.feed(b"data: crtail\r").is_empty());
    assert_eq!(d.flush(), vec!["crtail".to_string()]);
}

#[test]
fn events_do_not_depend_on_chunks_or_line_endings() {
    let body = "data: a\ndata: \u{fc}\n\n: c\nid: 1\ndata\n\ndata:  two\n\n";
    let want = vec!["a\n\u{fc}".to_string(), "".to_string(), " two".to_string()];
    for ending in ["\n", "\r\n", "\r"] {
        let bytes = body.replace('\n', ending).into_bytes();
        for size in 1..6 {
            let mut d = SseDecoder::new();
            let mut got = Vec::new();
            for chunk in bytes.chunks(size) {
                got.extend(d.feed(chunk));
            }
            got.extend(d.flush());
            assert_eq!(got, want, "ending {ending:?}, size {size}");
        }
    }
}

#[test]
fn bytes_that_are_no_text_are_replaced() {
    let mut d = SseDecoder::new();
    assert_eq!(d.feed(b"data: a\xffb\n\n"), vec!["a\u{fffd}b".to_string()]);
}

#[test]
fn flush_leaves_a_fresh_decoder() {
    let mut d = SseDecoder::new();
    assert!(d.feed(b"data: x\nda").is_empty());
    assert_eq!(d.flush(), vec!["x".to_string()]);
    assert!(d.flush().is_empty());
    assert_eq!(d.feed(b"data: y\n\n"), vec!["y".to_string()]);
}

#[test]
fn process_line_tells_blank_lines() {
    let mut d = SseDecoder::new();
    assert!(!d.process_line("data: x"));
    assert!(!d.process_line(":"));
    assert!(d.process_line(""));
    assert_eq!(d.flush(), vec!["x".to_string()]);
}

#[test]
fn reader_returns_the_first_answer() {
    let mut r = SseReader::new(3);
    assert!(r.step(StreamEvent::Chunk(b"data: {\"id\":2,\"result\":1}\n\nda".to_vec())).is_none());
    match r.step(StreamEvent::Chunk(
        b"ta: {\"id\":3,\"error\":{\"code\":-5,\"message\":\"no\"}}\n\ndata: {\"id\":3,\"result\":1}\n\n"
            .to_vec(),
    )) {
        Some(Err(McpError::ServerError { code, message })) => {
            assert_eq!(code, -5);
            assert_eq!(message, "no");
        }
        _ => panic!("expected the server's error"),
    }
}

#[test]
fn reader_takes_an_unterminated_answer_at_the_end() {
    let mut r = SseReader::new(3);
    assert!(r.step(StreamEvent::Chunk(b"data: {\"id\":3,\"result\":7}".to_vec())).is_none());
    match r.step(StreamEvent::End) {
        Some(Ok(v)) => assert_eq!(v.as_u64(), Some(7)),
        _ => panic!("expected the result"),
    }
}

#[test]
fn reader_reports_how_waiting_ended() {
    let words = |ev: StreamEvent| match SseReader::new(9).step(ev) {
        Some(Err(e)) => e.message(),
        _ => panic!("expected an error"),
    };
    assert_eq!(
        words(StreamEvent::End),
        "protocol error: SSE stream ended without a response for id 9"
    );
    assert_eq!(
        words(StreamEvent::Failed("reset".into())),
        "protocol error: http body read error: reset"
    );
    assert_eq!(words(StreamEvent::TimedOut("2s".into())), "call timeout after 2s");
}

#[test]
fn returns_before_line_feeds_do_not_matter() {
    let text = "data: a\nda";
    let more = "ta: b\n\nid: 1\n\ndata: c";
    let mut lf = SseDecoder::new();
    let mut crlf = SseDecoder::new();
    assert_eq!(lf.feed(text.as_bytes()), crlf.feed(text.replace('\n', "\r\n").as_bytes()));
    let events = lf.feed(more.as_bytes());
    assert_eq!(events, vec!["a\nb"]);
    assert_eq!(events, crlf.feed(more.replace('\n', "\r\n").as_bytes()));
    assert_eq!(lf.flush(), crlf.flush());
}

#[test]
fn the_end_is_two_line_feeds() {
    for body in ["data: a", "data: a\r", "data: a\ndata: b", "data: a\n\n", "", "\r", "data: a\n\r"] {
        let mut ended = SseDecoder::new();
        let mut fed = SseDecoder::new();
        assert_eq!(ended.feed(body.as_bytes()), fed.feed(body.as_bytes()));
        let last = ended.flush();
        assert_eq!(last, fed.feed(b"\n\n"), "{body:?}");
        assert!(last.len() <= 1);
        assert!(ended.flush().is_empty());
    }
}
