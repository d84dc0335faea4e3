use conga_gasket::json::Json;
use conga_gasket::wire::{context_stats, ContextStats, OutgoingEvent};

fn percent(s: &ContextStats) -> f64 {
    match s.occupancy {
        Some((n, d)) => (n as f64 / d as f64) * 100.0,
        None => 0.0,
    }
}

fn line(ev: OutgoingEvent) -> serde_json::Value {
    let l = ev.to_line();
    assert!(!l.contains('\n'));
    serde_json::from_str(&l).unwrap()
}

fn value(text: &str) -> serde_json::Value {
    serde_json::from_str(text).unwrap()
}

#[test]
fn context_stats_scenarios() {
    let stats = context_stats(0, 0, 0, 0, 0, 128_000);
    assert_eq!(stats.current_tokens, 0);
    assert_eq!(percent(&stats), 0.0);
    assert_eq!(stats.is_compressing, false);
    assert_eq!(stats.cumulative_in, 0);
    assert_eq!(stats.cumulative_out, 0);
    assert_eq!(stats.cache_read_tokens, 0);
    assert_eq!(stats.cache_write_tokens, 0);
    assert_eq!(stats.max_tokens, 128_000);

    let stats = context_stats(64_000, 100_000, 50_000, 30_000, 10_000, 128_000);
    assert_eq!(stats.current_tokens, 64_000);
    assert_eq!(percent(&stats), 50.0);
    assert_eq!(stats.cumulative_in, 100_000);
    assert_eq!(stats.cumulative_out, 50_000);
    assert_eq!(stats.cache_read_tokens, 30_000);
    assert_eq!(stats.cache_write_tokens, 10_000);
    assert_eq!(stats.max_tokens, 128_000);

    let stats = context_stats(25_000, 999, 999, 0, 0, 50_000);
    assert_eq!(stats.current_tokens, 25_000);
    assert_eq!(percent(&stats), 50.0);
    assert_eq!(stats.max_tokens, 50_000);

    let stats = context_stats(1_000, 1_000, 1_000, 0, 0, 0);
    assert_eq!(stats.current_tokens, 1_000);
    assert_eq!(percent(&stats), 0.0);
    assert!(stats.occupancy.is_none());
}

#[test]
fn done_with_summary_carries_cache_fields() {
    let v = line(OutgoingEvent::done_with_summary(10, 20, 30, 40, 1_000));
    assert_eq!(v["type"], "done");
    assert_eq!(v["usage_in"], 10);
    assert_eq!(v["usage_out"], 20);
    assert_eq!(v["usage_cache_read"], 30);
    assert_eq!(v["usage_cache_write"], 40);
    assert_eq!(v["elapsed_ms"], 1_000);
    let v = line(OutgoingEvent::done());
    assert!(v.get("usage_in").is_none() && v.get("usage_cache_read").is_none());
}

#[test]
fn every_event_has_its_own_fields_only() {
    let args = Json::empty_object()
        .with("content", Json::text("hi"))
        .with("path", Json::text("notes/x.txt"));
    let cases = vec![
        (OutgoingEvent::content("你好".into()), r#"{"type":"content","content":"你好"}"#),
        (
            OutgoingEvent::thinking("checking the plan".into()),
            r#"{"type":"thinking","content":"checking the plan"}"#,
        ),
        (
            OutgoingEvent::tool_start("bash".into(), r#"{"cmd":"ls"}"#.into(), "tc1".into()),
            r#"{"type":"tool_start","name":"bash","arguments":"{\"cmd\":\"ls\"}","tool_call_id":"tc1"}"#,
        ),
        (
            OutgoingEvent::tool_end("bash".into(), "a.txt\nb.txt".into(), "tc1".into()),
            r#"{"type":"tool_end","name":"bash","output":"a.txt\nb.txt","tool_call_id":"tc1"}"#,
        ),
        (
            OutgoingEvent::error("provider unreachable".into()),
            r#"{"type":"error","content":"provider unreachable","message":"provider unreachable"}"#,
        ),
        (
            OutgoingEvent::busy("a turn is already running".into()),
            r#"{"type":"busy","content":"a turn is already running","message":"a turn is already running"}"#,
        ),
        (
            OutgoingEvent::queued("mid-turn steer".into()),
            r#"{"type":"queued","message":"mid-turn steer"}"#,
        ),
        (
            OutgoingEvent::approval_request(
                "req1".into(),
                "write".into(),
                &args,
                Some("--- a/x.txt\n+++ b/x.txt\n+hi".into()),
            ),
            r#"{"type":"approval_request","id":"req1","tool_name":"write","description":"{\"content\":\"hi\",\"path\":\"notes/x.txt\"}","arguments":"{\"content\":\"hi\",\"path\":\"notes/x.txt\"}","preview":"--- a/x.txt\n+++ b/x.txt\n+hi"}"#,
        ),
        (OutgoingEvent::done(), r#"{"type":"done"}"#),
        (
            OutgoingEvent::done_with_summary(1_234, 567, 89, 12, 4_321),
            r#"{"type":"done","usage_in":1234,"usage_out":567,"usage_cache_read":89,"usage_cache_write":12,"elapsed_ms":4321}"#,
        ),
    ];
    for (ev, want) in cases {
        assert_eq!(line(ev), value(want));
    }
}

#[test]
fn long_arguments_are_shortened_for_display() {
    let long = "\u{fc}".repeat(301);
    let ev = OutgoingEvent::approval_of("r".into(), "t".into(), long.clone(), None);
    assert_eq!(ev.description, Some(format!("{}...", "\u{fc}".repeat(300))));
    assert_eq!(ev.arguments, Some(long));
    let exact = "x".repeat(300);
    let ev = OutgoingEvent::approval_of("r".into(), "t".into(), exact.clone(), None);
    assert_eq!(ev.description, Some(exact));
}
