use conga_gasket::ext_js::{
    after_hook, before_verdict, build_extensions, call_outcome, collect, error_string, find_tool,
    hook_text, no_extensions, script_context, script_error, tool_result_from_js, AfterReturn,
    BeforeHooks, BeforeReturn, Delivery, RawTool, Returned, ScriptError, ToolCallVerdict,
    ToolContext, ToolResultMessage, PRELUDE, SANDBOX_MEMORY_LIMIT, SANDBOX_STACK_LIMIT,
};
use conga_gasket::json::Json;
use conga_gasket::table::Table;
use conga_gasket::tool::{risk_from_name, risk_name, ContentBlock, RiskLevel, ToolResult};

fn raw(name: &str) -> RawTool {
    RawTool {
        name: Ok(name.into()),
        label: Ok(None),
        description: Ok(None),
        risk: Ok(None),
        parameters: Ok(None),
        execute: Ok(()),
    }
}

fn text_of(b: &ContentBlock) -> &str {
    match b {
        ContentBlock::Text { text } => text,
        _ => panic!("expected a text block"),
    }
}

fn message(text: &str, is_error: bool) -> ToolResultMessage {
    ToolResultMessage {
        tool_call_id: "tc".into(),
        tool_name: "bash".into(),
        content: vec![ContentBlock::Text { text: text.into() }],
        is_error,
        timestamp: 0,
    }
}

#[test]
fn registrations_are_read_with_defaults() {
    let mut hello = raw("js_hello");
    hello.label = Ok(Some("JS Hello".into()));
    hello.risk = Ok(Some("low".into()));
    hello.parameters = Ok(Some(Json::empty_object().with("type", Json::text("x"))));
    let mut odd = raw("odd");
    odd.risk = Ok(Some("LOW".into()));
    let tools = collect(vec![Ok(hello), Ok(odd)]).ok().unwrap();
    assert_eq!(tools.len(), 2);
    assert_eq!(tools[0].name, "js_hello");
    assert_eq!(tools[0].label, "JS Hello");
    assert_eq!(tools[0].description, "");
    assert_eq!(tools[0].risk, RiskLevel::Low);
    assert_eq!(tools[1].risk, RiskLevel::High);
    let t = |j: &Json, k: &str| j.get(k).and_then(|v| v.as_str()).map(|s| s.clone());
    assert_eq!(t(&tools[0].parameters, "type").as_deref(), Some("x"));
    assert_eq!(t(&tools[1].parameters, "type").as_deref(), Some("object"));
    assert!(matches!(tools[1].parameters.get("properties"), Some(Json::Object(m)) if m.is_empty()));
}

#[test]
fn the_first_registration_that_cannot_be_read_is_reported() {
    let with = |f: &dyn Fn(&mut RawTool)| {
        let mut t = raw("t");
        f(&mut t);
        collect(vec![Ok(raw("ok")), Ok(t), Err("later".into())]).err().unwrap()
    };
    assert_eq!(with(&|t| t.name = Err("e".into())), "tool #1: e");
    assert_eq!(with(&|t| t.label = Err("e".into())), "tool t.label: e");
    assert_eq!(with(&|t| t.description = Err("e".into())), "tool t.description: e");
    assert_eq!(with(&|t| t.risk = Err("e".into())), "tool t.risk: e");
    assert_eq!(with(&|t| t.parameters = Err("e".into())), "tool t: e");
    assert_eq!(with(&|t| t.execute = Err("e".into())), "tool t: e");
    assert_eq!(with(&|_| ()), "later");
}

#[test]
fn tools_are_found_by_name() {
    let tools = collect(vec![Ok(raw("a")), Ok(raw("b")), Ok(raw("b"))]).ok().unwrap();
    assert_eq!(find_tool(&tools, "b"), Ok(1));
    assert_eq!(find_tool(&tools, "c"), Err("no such js tool: c".to_string()));
}

#[test]
fn extensions_have_the_hooks_that_were_registered() {
    let none = no_extensions();
    assert!(none.tools.is_empty() && !none.hooks.before && !none.hooks.after);
    let e = build_extensions(Vec::new(), 2, 0);
    assert!(e.hooks.before && !e.hooks.after);
}

#[test]
fn object_results_and_thrown_errors_map_to_results() {
    let ok = tool_result_from_js(Returned::Object {
        content: Some("done".into()),
        is_error: false,
        details: Some(Json::empty_object().with("n", Json::unsigned(2))),
    })
    .ok()
    .unwrap();
    assert_eq!(text_of(&ok.content[0]), "done");
    assert_eq!(ok.details.get("n").and_then(|n| n.as_u64()), Some(2));
    assert!(!ok.is_error);
    let err = tool_result_from_js(Returned::Threw("boom\n at x".into())).ok().unwrap();
    assert!(err.is_error);
    assert_eq!(text_of(&err.content[0]), "boom\n at x");
    let text = tool_result_from_js(Returned::Text(Ok("Hello, world!".into()))).ok().unwrap();
    assert_eq!(text_of(&text.content[0]), "Hello, world!");
    assert!(matches!(text.details, Json::Null));
    let empty = tool_result_from_js(Returned::Nothing).ok().unwrap();
    assert!(!empty.is_error);
    assert_eq!(text_of(&empty.content[0]), "");
    let bare = Returned::Object { content: None, is_error: true, details: None };
    let bare = tool_result_from_js(bare).ok().unwrap();
    assert!(bare.is_error);
    assert_eq!(text_of(&bare.content[0]), "");
    assert_eq!(tool_result_from_js(Returned::Text(Err("x".into()))).err().unwrap(), "x");
}

#[test]
fn deliveries_map_to_outcomes() {
    let r = call_outcome(Delivery::Aborted).ok().unwrap();
    assert!(r.is_error);
    assert_eq!(text_of(&r.content[0]), "aborted");
    let words = |d| call_outcome(d).err().unwrap();
    assert_eq!(words(Delivery::Unavailable), "ext-js runtime unavailable");
    assert_eq!(words(Delivery::JoinFailed("p".into())), "ext-js join: p");
    assert_eq!(words(Delivery::Dropped), "ext-js reply dropped");
    assert_eq!(words(Delivery::Replied(Err("e".into()))), "e");
    assert!(call_outcome(Delivery::Replied(Ok(ToolResult::text("t".into())))).is_ok());
}

#[test]
fn before_hooks_block_and_modify() {
    let mut h = BeforeHooks::new(Json::text("ls"));
    assert!(h.step(BeforeReturn::Other).is_none());
    assert_eq!(
        h.step(BeforeReturn::Object { block: Some("no bash in demo".into()), modify: Some(Json::Null) }),
        Some("no bash in demo".to_string())
    );

    let mut h = BeforeHooks::new(Json::text("https://evil.com"));
    assert!(h.step(BeforeReturn::Threw).is_none());
    assert_eq!(h.args().as_str().map(|s| s.as_str()), Some("https://evil.com"));
    let modify = |s: &str| BeforeReturn::Object { block: None, modify: Some(Json::text(s)) };
    assert!(h.step(modify("https://example.org")).is_none());
    assert_eq!(h.args().as_str().map(|s| s.as_str()), Some("https://example.org"));
    assert!(h.step(modify("https://example.com")).is_none());
    assert!(h.step(BeforeReturn::Object { block: None, modify: None }).is_none());
    match h.finish() {
        ToolCallVerdict::Modify(args) => {
            assert_eq!(args.as_str().map(|s| s.as_str()), Some("https://example.com"))
        }
        _ => panic!("expected Modify"),
    }

    let mut h = BeforeHooks::new(Json::Null);
    assert!(h.step(BeforeReturn::Other).is_none());
    assert!(matches!(h.finish(), ToolCallVerdict::Allow));
    assert!(matches!(BeforeHooks::new(Json::Null).finish(), ToolCallVerdict::Allow));
}

#[test]
fn a_runtime_that_is_gone_lets_calls_pass() {
    assert!(matches!(before_verdict(None), ToolCallVerdict::Allow));
    assert!(matches!(
        before_verdict(Some(ToolCallVerdict::Block("r".into()))),
        ToolCallVerdict::Block(r) if r == "r"
    ));
}

#[test]
fn after_hooks_rewrite() {
    let mut m = message("secret", true);
    assert_eq!(hook_text(&m), "secret");
    after_hook(
        &mut m,
        AfterReturn::Object { text: Some("[redacted error]".into()), is_error: Some(true) },
    );
    assert_eq!(text_of(&m.content[0]), "[redacted error]");
    assert!(m.is_error);
    after_hook(&mut m, AfterReturn::Object { text: None, is_error: Some(false) });
    assert_eq!(text_of(&m.content[0]), "[redacted error]");
    assert!(!m.is_error);
    let mut m = message("fine", false);
    after_hook(&mut m, AfterReturn::Other);
    after_hook(&mut m, AfterReturn::Threw);
    assert_eq!(text_of(&m.content[0]), "fine");
    assert_eq!(m.tool_call_id, "tc");
}

#[test]
fn hooks_see_the_first_text() {
    let mut m = message("b", false);
    m.content.insert(0, ContentBlock::Image { data: "d".into(), mime_type: "m".into() });
    m.content.push(ContentBlock::Text { text: "c".into() });
    assert_eq!(hook_text(&m), "b");
    m.content.clear();
    assert_eq!(hook_text(&m), "");
}

#[test]
fn errors_in_words() {
    let ex = |m: Option<&str>, s: Option<&str>| {
        error_string(ScriptError::Exception {
            message: m.map(|x| x.to_string()),
            stack: s.map(|x| x.to_string()),
        })
    };
    assert_eq!(ex(Some("boom"), Some("at x")), "boom\nat x");
    assert_eq!(ex(Some("boom"), None), "boom");
    assert_eq!(ex(None, None), "unknown error");
    assert_eq!(error_string(ScriptError::Thrown("t".into())), "t");
    assert_eq!(error_string(ScriptError::Engine("e".into())), "e");
    assert_eq!(script_error("bad.js", "nope"), "bad.js: nope");
}

#[test]
fn scripts_get_no_environment() {
    let mut env = Table::new();
    env.insert("TOKEN".to_string(), "secret".to_string());
    let ctx = ToolContext {
        cwd: "/tmp".into(),
        env,
        session_id: "sess".into(),
        state_dir: "/tmp/state".into(),
    };
    let p = |k: &str, v: &str| (k.to_string(), v.to_string());
    assert_eq!(
        script_context(ctx),
        vec![p("cwd", "/tmp"), p("sessionId", "sess"), p("stateDir", "/tmp/state")]
    );
}

#[test]
fn risk_names() {
    for r in [RiskLevel::Low, RiskLevel::Medium, RiskLevel::High] {
        assert_eq!(risk_from_name(risk_name(r)), r);
    }
    assert_eq!(risk_from_name(""), RiskLevel::High);
}

#[test]
fn the_sandbox_is_limited() {
    assert_eq!(SANDBOX_MEMORY_LIMIT, 67_108_864);
    assert_eq!(SANDBOX_STACK_LIMIT, 1_048_576);
    assert!(PRELUDE.contains("\"use strict\";\nvar __conga_tools = []"));
}
