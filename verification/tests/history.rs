use conga_gasket::history::{matches_keywords, show_report, Entry, HistoryQueryTool};
use conga_gasket::json::Json;
use conga_gasket::store::event::{EventType, SessionEvent};
use conga_gasket::time::Instant;

fn event(content: &str, secs: i64, sequence: i64) -> SessionEvent {
    SessionEvent {
        id: 1,
        session_key: "cli:test".into(),
        event_type: EventType::UserMessage,
        content: content.into(),
        metadata: Json::Null,
        created_at: Instant { secs, nanos: 0 },
        sequence,
    }
}

#[test]
fn test_history_query_by_keywords() {
    let tool = HistoryQueryTool::new();
    let text = tool.execute(
        vec![event("Hello world", 0, 0), event("Another message", 1, 1)],
        &Some("Hello".into()),
        Some(10),
    );
    assert!(text.contains("Hello world"));
    assert!(text.contains("user"));
    assert!(!text.contains("Another"));
}

#[test]
fn test_history_query_no_results() {
    let tool = HistoryQueryTool::new();
    let text = tool.execute(vec![event("Hello world", 0, 0)], &Some("nonexistent".into()), None);
    assert!(text.contains("No history found"));
}

#[test]
fn newest_first_and_case_does_not_matter() {
    let mut events = vec![
        event("\u{c4}PFEL", 5, 1),
        event("\u{e4}pfel b", 5, 2),
        event("\u{e4}pfel c", 9, 0),
        event("\u{e4}pfel d", 9, 0),
        event("birne", 10, 0),
    ];
    events[2].event_type = EventType::AssistantMessage;
    events[3].event_type = EventType::Summary;
    assert_eq!(
        HistoryQueryTool::new().execute(events, &Some("\u{c4}pfel".into()), None),
        "Conversation history (3 messages):\n[1970-01-01T00:00:09+00:00] assistant:\n\u{e4}pfel c\n[1970-01-01T00:00:05+00:00] user:\n\u{e4}pfel b\n[1970-01-01T00:00:05+00:00] user:\n\u{c4}PFEL"
    );
}

#[test]
fn answers_are_bounded() {
    let many = |n: i64| (0..n).map(|i| event("m", i, i)).collect::<Vec<_>>();
    let tool = HistoryQueryTool::new();
    assert!(tool.execute(many(150), &None, Some(500)).starts_with("Conversation history (100 messages):"));
    assert!(tool.execute(many(150), &None, None).starts_with("Conversation history (20 messages):"));
    assert!(tool.execute(many(5), &None, None).starts_with("Conversation history (5 messages):"));
    assert_eq!(tool.execute(many(5), &None, Some(0)), "No history found.");
}

#[test]
fn long_messages_are_shortened() {
    let e = |n: usize| Entry { when: "t".into(), role: "user", content: "x".repeat(n) };
    assert_eq!(
        show_report(&vec![e(400)]),
        format!("Conversation history (1 messages):\n[t] user:\n{}", "x".repeat(400))
    );
    assert_eq!(
        show_report(&vec![e(401)]),
        format!("Conversation history (1 messages):\n[t] user:\n{}...", "x".repeat(400))
    );
}

#[test]
fn keywords_are_runs_of_characters() {
    assert!(matches_keywords("abc", &Some("bc".into())));
    assert!(matches_keywords("abc", &Some("".into())));
    assert!(!matches_keywords("abc", &Some("ac".into())));
    assert!(matches_keywords("abc", &None));
}

#[test]
fn what_the_tool_declares() {
    let tool = HistoryQueryTool::new();
    assert_eq!(tool.name(), "query_history");
    assert!(tool.description().starts_with("Query conversation history"));
    let p = tool.parameters();
    let limit = p.get("properties").and_then(|v| v.get("limit")).unwrap();
    assert_eq!(limit.get("default").and_then(|v| v.as_u64()), Some(20));
    assert!(matches!(p.get("required"), Some(Json::Array(v)) if v.is_empty()));
}
