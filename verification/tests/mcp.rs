use conga_gasket::json::{Json, JsonNumber};
use conga_gasket::mcp::client::{
    decoded_call, http_error, is_event_stream, pick_mcp_proxy, recv_response, ConnectAction,
    ConnectEvent, Handshake, HttpFailure, HttpSession, LineEvent, RequestIds,
};
use conga_gasket::mcp::config::{
    load_config_from, mcp_call_timeout, mcp_config_path, transport_of, ConfigRead, LoadedTools,
    McpServerConfig, Transport,
};
use conga_gasket::mcp::error::McpError;
use conga_gasket::mcp::rpc::{
    parse_incoming, parse_jsonrpc_value, reply_to_json, unanswered, write_notification,
    write_request, IncomingMessage, Parsed,
};
use conga_gasket::mcp::tools::{
    after_call, before_call, content_to_blocks, mcp_tool_definition, show_parts, CallResult,
    McpContent, McpTool,
};
use conga_gasket::table::Table;
use conga_gasket::tool::{ContentBlock, RiskLevel, ToolDefinition};

fn num(n: i64) -> Json {
    if n >= 0 {
        Json::unsigned(n as u64)
    } else {
        Json::Number(JsonNumber::Signed(n))
    }
}

fn text_of(b: &ContentBlock) -> &str {
    match b {
        ContentBlock::Text { text } => text,
        _ => panic!("expected Text"),
    }
}

fn server(command: Option<&str>, url: Option<&str>) -> McpServerConfig {
    McpServerConfig {
        command: command.map(|s| s.to_string()),
        args: vec!["-y".to_string()],
        env: Table::new(),
        url: url.map(|s| s.to_string()),
        headers: Table::new(),
    }
}

fn tool(name: &str, title: Option<&str>) -> McpTool {
    McpTool {
        name: name.into(),
        title: title.map(|s| s.to_string()),
        description: "d".into(),
        input_schema: Json::empty_object().with("type", Json::text("object")),
    }
}

#[test]
fn content_maps_text_and_image() {
    let items = vec![
        McpContent { kind: "text".into(), text: Some("hello".into()), data: None, mime_type: None },
        McpContent {
            kind: "image".into(),
            text: None,
            data: Some("base64data".into()),
            mime_type: Some("image/png".into()),
        },
    ];
    let blocks = content_to_blocks(&items);
    assert!(matches!(&blocks[0], ContentBlock::Text { text } if text == "hello"));
    match &blocks[1] {
        ContentBlock::Text { text } => {
            assert_eq!(text, "[image content omitted: image/png, 10 bytes of base64]");
        }
        _ => panic!("expected Text"),
    }
}

#[test]
fn content_empty_vec_gives_one_empty_text() {
    let blocks = content_to_blocks(&Vec::new());
    assert_eq!(blocks.len(), 1);
    assert!(matches!(&blocks[0], ContentBlock::Text { text } if text.is_empty()));
}

#[test]
fn content_unknown_type_degrades_to_text() {
    let items = vec![McpContent {
        kind: "audio".into(),
        text: None,
        data: Some("audio-data".into()),
        mime_type: Some("audio/wav".into()),
    }];
    let blocks = content_to_blocks(&items);
    assert_eq!(blocks.len(), 1);
    assert!(matches!(&blocks[0], ContentBlock::Text { .. }));
}

#[test]
fn content_of_an_unknown_type_shows_its_fields() {
    let items = vec![McpContent {
        kind: "a\"b".into(),
        text: None,
        data: Some("x\n".into()),
        mime_type: None,
    }];
    assert_eq!(
        text_of(&content_to_blocks(&items)[0]),
        "McpContent { kind: \"a\\\"b\", text: None, data: Some(\"x\\n\"), mime_type: None }"
    );
    assert_eq!(
        show_parts("K", "T", "D", "M"),
        "McpContent { kind: K, text: T, data: D, mime_type: M }"
    );
}

#[test]
fn content_counts_bytes_and_skips_text_without_text() {
    let items = vec![
        McpContent { kind: "text".into(), text: None, data: None, mime_type: None },
        McpContent { kind: "image".into(), text: None, data: Some("\u{fc}".into()), mime_type: None },
        McpContent { kind: "image".into(), text: None, data: None, mime_type: None },
    ];
    let blocks = content_to_blocks(&items);
    assert_eq!(blocks.len(), 2);
    assert_eq!(text_of(&blocks[0]), "[image content omitted: unknown mime, 2 bytes of base64]");
    assert_eq!(text_of(&blocks[1]), "[image content omitted: unknown mime, 0 bytes of base64]");
}

#[test]
fn parse_jsonrpc_value_matches_result_by_id() {
    let v = Json::empty_object()
        .with("jsonrpc", Json::text("2.0"))
        .with("id", num(3))
        .with("result", Json::empty_object().with("tools", Json::array(Vec::new())));
    match parse_jsonrpc_value(&v, 3) {
        Parsed::Result(r) => assert!(matches!(r.get("tools"), Some(Json::Array(_)))),
        _ => panic!("expected Result"),
    }
}

#[test]
fn parse_jsonrpc_value_matches_error_by_id() {
    let v = Json::empty_object().with("jsonrpc", Json::text("2.0")).with("id", num(5)).with(
        "error",
        Json::empty_object().with("code", num(-32601)).with("message", Json::text("nope")),
    );
    match parse_jsonrpc_value(&v, 5) {
        Parsed::Error { code, message } => {
            assert_eq!(code, -32601);
            assert_eq!(message, "nope");
        }
        _ => panic!("expected Error"),
    }
}

#[test]
fn parse_jsonrpc_value_skips_unmatched_id_and_notifications() {
    let v = Json::empty_object()
        .with("jsonrpc", Json::text("2.0"))
        .with("id", num(1))
        .with("result", Json::empty_object());
    assert!(matches!(parse_jsonrpc_value(&v, 99), Parsed::Other));

    let v = Json::empty_object()
        .with("jsonrpc", Json::text("2.0"))
        .with("method", Json::text("notifications/progress"));
    assert!(matches!(parse_jsonrpc_value(&v, 1), Parsed::Other));
}

#[test]
fn parse_incoming_matches_response_by_id() {
    let line = r#"{"jsonrpc":"2.0","id":5,"result":{"ok":true}}"#;
    match parse_incoming(line, 5) {
        IncomingMessage::Response { result, .. } => {
            assert!(matches!(result.get("ok"), Some(Json::Bool(true))));
        }
        _ => panic!("expected Response"),
    }
}

#[test]
fn parse_incoming_skips_unmatched_id() {
    let line = r#"{"jsonrpc":"2.0","id":3,"result":{}}"#;
    assert!(matches!(parse_incoming(line, 5), IncomingMessage::Other));
}

#[test]
fn parse_incoming_treats_notification_as_other() {
    let line = r#"{"jsonrpc":"2.0","method":"notifications/progress"}"#;
    assert!(matches!(parse_incoming(line, 5), IncomingMessage::Other));
}

#[test]
fn parse_incoming_parses_error() {
    let line = r#"{"jsonrpc":"2.0","id":7,"error":{"code":-32601,"message"|"not found"}}"#;
    assert!(matches!(parse_incoming(line, 7), IncomingMessage::Other));

    let line = r#"{"jsonrpc":"2.0","id":7,"error":{"code":-32601,"message":"not found"}}"#;
    match parse_incoming(line, 7) {
        IncomingMessage::Error { code, message, .. } => {
            assert_eq!(code, -32601);
            assert_eq!(message, "not found");
        }
        _ => panic!("expected Error"),
    }
}

#[test]
fn an_error_without_code_or_message_has_defaults() {
    match parse_incoming(r#"{"id":1,"error":{},"result":1}"#, 1) {
        IncomingMessage::Error { code, message } => {
            assert_eq!(code, -1);
            assert_eq!(message, "unknown error");
        }
        _ => panic!("expected Error"),
    }
    assert!(matches!(parse_incoming(r#"{"id":"1","result":1}"#, 1), IncomingMessage::Other));
    assert!(matches!(parse_incoming(r#"{"id":-1,"result":1}"#, 1), IncomingMessage::Other));
    assert!(matches!(parse_incoming(r#"{"id":1}"#, 1), IncomingMessage::Other));
    assert!(matches!(
        parse_incoming(r#"{"id":1,"result":null}"#, 1),
        IncomingMessage::Response { result: Json::Null }
    ));
}

#[test]
fn requests_are_single_lines() {
    let line = write_request(4, "tools/call", Json::empty_object().with("a", Json::text("x\ny")));
    assert!(line.ends_with('\n'));
    assert_eq!(line.matches('\n').count(), 1);
    let v: serde_json::Value = serde_json::from_str(&line).unwrap();
    assert_eq!(v["jsonrpc"], "2.0");
    assert_eq!(v["id"], 4);
    assert_eq!(v["method"], "tools/call");
    assert_eq!(v["params"]["a"], "x\ny");
    let v: serde_json::Value =
        serde_json::from_str(&write_notification("notifications/initialized")).unwrap();
    assert_eq!(v["method"], "notifications/initialized");
    assert!(v.get("id").is_none());
}

#[test]
fn a_single_answer_must_match() {
    let v = Json::empty_object().with("id", num(1)).with("result", num(2));
    assert_eq!(reply_to_json(&v, 1).ok().and_then(|r| r.as_u64()), Some(2));
    assert_eq!(
        reply_to_json(&v, 7).err().unwrap().message(),
        "protocol error: http response has no result/error for id 7: {\"id\":1,\"result\":2}"
    );
    assert_eq!(
        unanswered(7, "x").message(),
        "protocol error: http response has no result/error for id 7: x"
    );
}

#[test]
fn error_words() {
    assert_eq!(McpError::Io("a".into()).message(), "io error: a");
    assert_eq!(McpError::Json("a".into()).message(), "json error: a");
    assert_eq!(
        McpError::ServerError { code: -3, message: "m".into() }.message(),
        "server returned error -3: m"
    );
}

#[test]
fn config_missing_file_returns_empty() {
    let cfg = load_config_from(ConfigRead::NotFound).ok().unwrap();
    assert!(cfg.is_empty());
}

#[test]
fn config_errors_and_servers() {
    assert!(matches!(
        load_config_from(ConfigRead::Failed("denied".into())),
        Err(McpError::Io(e)) if e == "denied"
    ));
    assert!(matches!(
        load_config_from(ConfigRead::BadJson("eof".into())),
        Err(McpError::Json(e)) if e == "eof"
    ));
    let mut t = Table::new();
    t.insert("github".to_string(), server(Some("npx"), None));
    t.insert("remote".to_string(), server(None, Some("https://mcp.example.dev/mcp")));
    let list = load_config_from(ConfigRead::Servers(t)).ok().unwrap();
    assert_eq!(list.len(), 2);
    assert_eq!(list[0].0, "github");
    assert!(!list[0].1.is_http());
    assert!(list[1].1.is_http());
}

#[test]
fn a_server_is_reached_by_url_or_command() {
    match transport_of(server(Some("npx"), Some("http://x"))) {
        Transport::Http { url, .. } => assert_eq!(url, "http://x"),
        _ => panic!("expected Http"),
    }
    match transport_of(server(Some("npx"), None)) {
        Transport::Stdio { command, args, .. } => {
            assert_eq!(command, "npx");
            assert_eq!(args, vec!["-y"]);
        }
        _ => panic!("expected Stdio"),
    }
    match transport_of(server(None, None)) {
        Transport::Stdio { command, .. } => assert_eq!(command, ""),
        _ => panic!("expected Stdio"),
    }
}

#[test]
fn config_path_and_timeout_settings() {
    assert_eq!(mcp_config_path(Some("/x.json".into()), "/c"), "/x.json");
    assert_eq!(mcp_config_path(None, "/c"), "/c/mcp.json");
    assert_eq!(mcp_config_path(None, "/c/"), "/c/mcp.json");
    assert_eq!(mcp_call_timeout(&None), 60);
    assert_eq!(mcp_call_timeout(&Some("90".into())), 90);
    assert_eq!(mcp_call_timeout(&Some("+5".into())), 5);
    assert_eq!(mcp_call_timeout(&Some("-5".into())), 60);
    assert_eq!(mcp_call_timeout(&Some("18446744073709551616".into())), 60);
    assert_eq!(mcp_call_timeout(&Some("".into())), 60);
}

#[test]
fn a_server_that_fails_is_skipped() {
    let def = |n: &str| mcp_tool_definition("s", tool(n, None));
    let mut all = LoadedTools::new();
    assert!(all.take("one", Ok(vec![def("a"), def("b")])).is_none());
    assert_eq!(
        all.take("two", Err(McpError::Protocol("x".into()))).as_deref(),
        Some("mcp two load failed: protocol error: x")
    );
    assert!(all.take("three", Ok(vec![def("c")])).is_none());
    let names: Vec<String> = all.into_tools().into_iter().map(|d: ToolDefinition| d.name).collect();
    assert_eq!(names, vec!["mcp__s__a", "mcp__s__b", "mcp__s__c"]);
}

#[test]
fn tool_definitions_are_prefixed_and_risky() {
    let d = mcp_tool_definition("test", tool("echo", None));
    assert_eq!(d.name, "mcp__test__echo");
    assert_eq!(d.label, "test/echo");
    assert_eq!(d.description, "d");
    assert_eq!(d.risk, RiskLevel::High);
    assert_eq!(d.parameters.get("type").and_then(|t| t.as_str()).map(|s| s.as_str()), Some("object"));
    assert_eq!(mcp_tool_definition("test", tool("echo", Some("Echo"))).label, "test/Echo");
}

#[test]
fn calls_map_to_results() {
    assert!(before_call(false).is_none());
    let r = before_call(true).unwrap();
    assert!(r.is_error);
    assert_eq!(text_of(&r.content[0]), "aborted");
    let r = after_call(Ok(CallResult { content: Vec::new(), is_error: true })).ok().unwrap();
    assert!(r.is_error);
    assert_eq!(text_of(&r.content[0]), "");
    assert_eq!(after_call(Err(McpError::Timeout("60s".into()))).err().unwrap(), "call timeout after 60s");
    assert_eq!(
        decoded_call(Err("bad".into())).err().unwrap().message(),
        "protocol error: tools/call parse error: bad"
    );
}

#[test]
fn handshake_runs_in_order() {
    let (mut h, first) = Handshake::begin("fake", "1.0");
    match first {
        ConnectAction::Request { id, method, params } => {
            assert_eq!(id, 1);
            assert_eq!(method, "initialize");
            assert_eq!(
                params.get("protocolVersion").and_then(|v| v.as_str()).map(|s| s.as_str()),
                Some("2025-06-18")
            );
        }
        _ => panic!("expected a request"),
    }
    match h.step(ConnectEvent::Reply(Json::Null)) {
        ConnectAction::Notify { method } => assert_eq!(method, "notifications/initialized"),
        _ => panic!("expected a notification"),
    }
    match h.step(ConnectEvent::Sent) {
        ConnectAction::Request { id, method, .. } => {
            assert_eq!(id, 2);
            assert_eq!(method, "tools/list");
        }
        _ => panic!("expected a request"),
    }
    assert!(matches!(h.step(ConnectEvent::Reply(num(1))), ConnectAction::Decode(_)));
    match h.step(ConnectEvent::Listed(vec![tool("echo", None)])) {
        ConnectAction::Finish(defs) => {
            assert_eq!(defs.len(), 1);
            assert_eq!(defs[0].name, "mcp__fake__echo");
        }
        _ => panic!("expected the tools"),
    }
}

#[test]
fn handshake_gives_up_on_errors() {
    let (mut h, _) = Handshake::begin("fake", "1.0");
    assert!(matches!(
        h.step(ConnectEvent::Failed(McpError::Timeout("1s".into()))),
        ConnectAction::Fail(McpError::Timeout(_))
    ));
    let (mut h, _) = Handshake::begin("fake", "1.0");
    h.step(ConnectEvent::Reply(Json::Null));
    h.step(ConnectEvent::Sent);
    h.step(ConnectEvent::Reply(Json::Null));
    match h.step(ConnectEvent::Unreadable("bad".into())) {
        ConnectAction::Fail(e) => {
            assert_eq!(e.message(), "protocol error: tools/list parse error: bad")
        }
        _ => panic!("expected to give up"),
    }
}

#[test]
fn request_ids_count_up() {
    let mut ids = RequestIds::new();
    assert!(!ids.is_spent());
    assert_eq!(ids.take(), 1);
    assert_eq!(ids.take(), 2);
}

#[test]
fn lines_of_a_subprocess() {
    assert!(recv_response(LineEvent::Line("  \n".into()), 1).is_none());
    assert!(recv_response(LineEvent::Line("{\"method\":\"x\"}\n".into()), 1).is_none());
    let r = recv_response(LineEvent::Line(" {\"id\":1,\"result\":5}\r\n".into()), 1);
    assert_eq!(r.unwrap().ok().and_then(|v| v.as_u64()), Some(5));
    let words = |ev| recv_response(ev, 1).unwrap().err().unwrap().message();
    assert_eq!(words(LineEvent::Closed), "protocol error: server closed stdout");
    assert_eq!(words(LineEvent::Failed("pipe".into())), "io error: pipe");
    assert_eq!(words(LineEvent::TimedOut("60s".into())), "call timeout after 60s");
}

#[test]
fn http_failures_and_content_types() {
    assert_eq!(
        http_error(HttpFailure::Build("b".into())).message(),
        "protocol error: http client build error: b"
    );
    assert_eq!(http_error(HttpFailure::Post("p".into())).message(), "protocol error: http post error: p");
    assert_eq!(
        http_error(HttpFailure::Body("j".into())).message(),
        "protocol error: http response json parse error: j"
    );
    assert!(is_event_stream(&Some("text/event-stream; charset=utf-8".into())));
    assert!(!is_event_stream(&Some("application/json".into())));
    assert!(!is_event_stream(&None));
}

#[test]
fn http_session_id_captured_and_echoed() {
    let mut s = HttpSession::new();
    let none = Table::new();
    assert_eq!(s.headers(&none).len(), 2);
    s.capture_session_id(&Some(" sess-abc-123 ".into()));
    s.capture_session_id(&None);
    s.capture_session_id(&Some("  ".into()));
    let h = s.headers(&none);
    assert_eq!(h.len(), 3);
    assert_eq!(h[2], ("mcp-session-id".to_string(), "sess-abc-123".to_string()));
}

#[test]
fn http_stateless_server_gets_no_session_id() {
    let mut s = HttpSession::new();
    s.capture_session_id(&None);
    s.capture_session_id(&Some("".into()));
    assert!(s.headers(&Table::new()).iter().all(|(k, _)| k != "mcp-session-id"));
}

#[test]
fn headers_that_cannot_be_sent_are_left_out() {
    let mut t = Table::new();
    t.insert("Authorization".to_string(), "Bearer tok123".to_string());
    t.insert("bad name".to_string(), "x".to_string());
    t.insert("".to_string(), "x".to_string());
    t.insert("X-Ctl".to_string(), "a\nb".to_string());
    t.insert("X-Tab".to_string(), "a\tb\u{fc}".to_string());
    t.insert("X-Del".to_string(), "\u{7f}".to_string());
    t.insert("x\u{fc}".to_string(), "v".to_string());
    let h = HttpSession::new().headers(&t);
    let names: Vec<&str> = h.iter().map(|(k, _)| k.as_str()).collect();
    assert_eq!(names, vec!["content-type", "accept", "Authorization", "X-Tab"]);
    assert_eq!(h[1].1, "application/json, text/event-stream");
}

#[test]
fn tool_proxy_wins_over_legacy_env() {
    assert_eq!(
        pick_mcp_proxy(
            Some("socks5://tool:1080".into()),
            Some("http://llm:8080".into()),
            None,
            None
        ),
        Some("socks5://tool:1080".to_string())
    );
}

#[test]
fn legacy_llm_proxy_still_works() {
    assert_eq!(
        pick_mcp_proxy(None, Some("http://llm:8080".into()), None, None),
        Some("http://llm:8080".to_string())
    );
    assert_eq!(pick_mcp_proxy(None, None, None, None), None);
}

#[test]
fn a_blank_proxy_setting_hides_those_behind_it() {
    assert_eq!(pick_mcp_proxy(None, Some("  ".into()), Some("http://h".into()), None), None);
    assert_eq!(
        pick_mcp_proxy(None, None, Some(" http://h ".into()), Some("http://l".into())),
        Some("http://h".to_string())
    );
    assert_eq!(
        pick_mcp_proxy(None, None, None, Some("http://l".into())),
        Some("http://l".to_string())
    );
}

#[test]
fn a_foreign_id_answers_no_request() {
    let line = "{\"jsonrpc\":\"2.0\",\"id\":\"x\",\"result\":{}}";
    assert!(matches!(parse_incoming(line, u64::MAX), IncomingMessage::Other));
    let line = "{\"jsonrpc\":\"2.0\",\"id\":-1,\"result\":{}}";
    assert!(matches!(parse_incoming(line, u64::MAX), IncomingMessage::Other));
    let line = "{\"jsonrpc\":\"2.0\",\"id\":18446744073709551615,\"result\":{}}";
    assert!(matches!(parse_incoming(line, u64::MAX), IncomingMessage::Response { .. }));
}
