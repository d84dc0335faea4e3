use conga_gasket::json::Json;
use conga_gasket::store::error::StoreError;
use conga_gasket::store::event::{
    get_event_ids_up_to, get_events_after_sequence, get_events_by_ids_global,
    get_events_up_to_sequence, get_max_sequence, get_recent_events, get_session_history,
    scan_active_sessions, EventType, SessionEvent,
};
use conga_gasket::store::files::{
    collect_events, config_dir, event_lines, frame, frame_all, is_event_file, safe_name, session_of,
    SessionKey,
};
use conga_gasket::store::json_store::JsonStore;
use conga_gasket::store::log::SessionLog;
use conga_gasket::store::meta::SessionMeta;
use conga_gasket::time::Instant;

const NOW: Instant = Instant { secs: 1_700_000_000, nanos: 0 };

fn event(key: &str, content: &str, sequence: i64) -> SessionEvent {
    SessionEvent {
        id: 7,
        session_key: key.into(),
        event_type: EventType::UserMessage,
        content: content.into(),
        metadata: Json::Null,
        created_at: NOW,
        sequence,
    }
}

fn log() -> SessionLog {
    SessionLog::cleared()
}

fn numbers(events: &[SessionEvent]) -> Vec<i64> {
    events.iter().map(|e| e.sequence).collect()
}

#[test]
fn test_meta_roundtrip() {
    let mut meta = SessionMeta::empty();
    meta.save_summary("s", 5, "t");
    assert_eq!(meta.summary, "s");
    assert_eq!(meta.watermark, 5);
    assert_eq!(meta.updated_at, "t");
}

#[test]
fn test_append_assigns_monotonic_seq() {
    let mut l = log();
    assert_eq!(l.append(event("cli:s", "hi", 0), &NOW), 0);
    assert_eq!(l.append(event("cli:s", "hi", 0), &NOW), 1);
    assert_eq!(l.append(event("cli:s", "hi", 9), &NOW), 2);
    assert_eq!(numbers(&l.events), vec![0, 1, 2]);
}

#[test]
fn test_history_and_after_watermark() {
    let mut l = log();
    for i in 0..5 {
        l.append(event("cli:s", &format!("m{i}"), i), &NOW);
    }
    let after = get_events_after_sequence(
        l.events.iter().map(|e| event("cli:s", &e.content, e.sequence)).collect(),
        2,
    );
    assert_eq!(after.len(), 2);
    let all = get_session_history(l.events);
    assert_eq!(all.len(), 5);
    assert_eq!(all[0].content, "m0");
}

#[test]
fn test_gc_drops_prefix_and_preserves_seq_monotonicity() {
    let mut l = log();
    for _ in 0..5 {
        l.append(event("cli:s", "hi", 0), &NOW);
    }
    let deleted = l.delete_events_upto(2);
    assert_eq!(deleted, 3);
    assert_eq!(l.events.len(), 2);
    assert_eq!(l.events[0].sequence, 3);
    let next = l.append(event("cli:s", "hi", 0), &NOW);
    assert_eq!(next, 5);
}

#[test]
fn test_summary_lifecycle() {
    let mut m = SessionMeta::empty();
    assert_eq!(m.load_summary(), None);
    m.save_summary("sum", 3, "t");
    assert_eq!(m.load_summary(), Some(("sum".into(), 3)));
    assert!(m.delete_summary());
    assert_eq!(m.load_summary(), None);
    assert!(!m.delete_summary());
}

#[test]
fn test_compaction_cycle_append_summary_gc_append() {
    let mut l = log();
    for _ in 0..10 {
        l.append(event("cli:cyc", "hi", 0), &NOW);
    }
    l.save_summary("summary", 5, &NOW);
    let deleted = l.delete_events_upto(5);
    assert_eq!(deleted, 6);
    assert!(l.events.iter().all(|e| e.sequence > 5));
    assert_eq!(l.events.len(), 4);
    assert_eq!(l.meta.load_summary(), Some(("summary".into(), 5)));
    let next = l.append(event("cli:cyc", "hi", 0), &NOW);
    assert_eq!(next, 10);
}

#[test]
fn a_log_that_is_all_summary_goes_on_behind_its_watermark() {
    let mut l = log();
    for _ in 0..3 {
        l.append(event("cli:s", "hi", 0), &NOW);
    }
    l.save_summary("summary", 2, &NOW);
    assert_eq!(l.delete_events_upto(2), 3);
    assert!(l.events.is_empty());
    assert_eq!(l.append(event("cli:s", "hi", 0), &NOW), 3);
}

#[test]
fn appending_touches_the_sidecar() {
    let mut l = log();
    l.append(event("cli:s", "hi", 0), &NOW);
    assert_eq!(l.meta.created_at, "2023-11-14T22:13:20+00:00");
    assert_eq!(l.meta.updated_at, "2023-11-14T22:13:20+00:00");
    l.append(event("cli:s", "hi", 0), &Instant { secs: 1_700_000_001, nanos: 500_000_000 });
    assert_eq!(l.meta.created_at, "2023-11-14T22:13:20+00:00");
    assert_eq!(l.meta.updated_at, "2023-11-14T22:13:21.500+00:00");
}

#[test]
fn queries_sort_and_filter() {
    let mk = || {
        let mut v = vec![event("k", "c", 3), event("k", "a", 1), event("k", "b", 2)];
        v[2].event_type = EventType::Summary;
        v
    };
    assert_eq!(numbers(&get_session_history(mk())), vec![1, 2, 3]);
    assert_eq!(numbers(&get_events_up_to_sequence(mk(), 2)), vec![1]);
    assert_eq!(numbers(&get_events_after_sequence(mk(), 1)), vec![2, 3]);
    assert_eq!(get_max_sequence(&mk()), 3);
    assert_eq!(get_max_sequence(&Vec::new()), 0);
    assert_eq!(get_max_sequence(&vec![event("k", "", -4)]), -4);
}

#[test]
fn ids_are_shown_as_uuids() {
    let mut v = vec![event("k", "a", 1), event("k", "b", 2), event("k", "c", 9)];
    v[0].id = 0x0190_a1b2_c3d4_7e5f_8a9b_0c1d_2e3f_4a5b;
    v[1].id = 1;
    assert_eq!(
        get_event_ids_up_to(&v, 2),
        vec!["0190a1b2-c3d4-7e5f-8a9b-0c1d2e3f4a5b", "00000000-0000-0000-0000-000000000001"]
    );
}

#[test]
fn events_of_all_sessions() {
    let mk = || {
        let mut b = vec![event("b", "1", 1), event("b", "0", 0)];
        b[0].id = 1;
        b[1].id = 2;
        let mut a = vec![event("a", "5", 5), event("a", "s", 6)];
        a[0].id = 3;
        a[1].event_type = EventType::Other("tool".into());
        vec![b, Vec::new(), a]
    };
    let of = |v: Vec<SessionEvent>| -> Vec<(String, i64)> {
        v.into_iter().map(|e| (e.session_key, e.sequence)).collect()
    };
    let p = |k: &str, n: i64| (k.to_string(), n);
    assert_eq!(of(get_recent_events(mk(), 0)), vec![p("a", 5), p("b", 0), p("b", 1)]);
    assert_eq!(of(get_recent_events(mk(), 2)), vec![p("a", 5), p("b", 1)]);
    assert_eq!(of(get_recent_events(mk(), 3)), vec![p("a", 5), p("b", 0), p("b", 1)]);
    assert_eq!(of(get_events_by_ids_global(mk(), &vec![3, 1, 99])), vec![p("a", 5), p("b", 1)]);
    let mut sessions: Vec<(Vec<SessionEvent>, String)> =
        mk().into_iter().map(|events| (events, String::new())).collect();
    sessions[0].1 = "later".into();
    sessions[0].0[1].created_at = Instant { secs: i64::MAX, nanos: 0 };
    sessions[1].1 = "never".into();
    sessions[2].0[1].created_at = Instant { secs: NOW.secs + 1, nanos: 0 };
    assert_eq!(
        scan_active_sessions(&sessions),
        vec![
            ("b".to_string(), 2, "later".to_string()),
            ("a".to_string(), 2, "2023-11-14T22:13:21+00:00".to_string())
        ]
    );
}

#[test]
fn checkpoints_replace_and_the_furthest_is_loaded() {
    let mut l = log();
    assert_eq!(l.meta.load_summary_with_checkpoint(), (String::new(), String::new(), 0));
    l.save_checkpoint(5, "five", &NOW);
    l.save_checkpoint(9, "nine", &NOW);
    l.save_checkpoint(7, "seven", &NOW);
    assert_eq!(l.meta.load_summary_with_checkpoint().1, "nine");
    l.save_checkpoint(9, "nine again", &NOW);
    assert_eq!(l.meta.checkpoints.len(), 3);
    assert_eq!(l.meta.load_summary_with_checkpoint().1, "nine again");
    assert_eq!(l.meta.checkpoints[2].created_at, "2023-11-14T22:13:20+00:00");
}

#[test]
fn compaction_marks() {
    let mut l = log();
    l.mark_compaction_started(&NOW);
    assert!(l.meta.compaction_in_progress);
    assert_eq!(l.meta.compaction_started_at.as_deref(), Some("2023-11-14T22:13:20+00:00"));
    l.meta.mark_compaction_finished();
    assert!(!l.meta.compaction_in_progress);
    assert!(l.meta.compaction_started_at.is_none());
}

#[test]
fn files_of_a_session() {
    let s = JsonStore::new("/b".into());
    let k = SessionKey { channel: "cli".into(), chat_id: "a/b:c".into() };
    assert_eq!(s.sessions_dir(), "/b/sessions");
    assert_eq!(s.channel_dir(&k), "/b/sessions/cli");
    assert_eq!(s.events_path(&k), "/b/sessions/cli/a_b_c.jsonl");
    assert_eq!(s.meta_path(&k), "/b/sessions/cli/a_b_c.meta.json");
    assert_eq!(k.to_text(), "cli:a/b:c");
    assert_eq!(safe_name("/\\:\0\"\n\rx"), "_______x");
    assert_eq!(config_dir(&Some("/h".into())), "/h/.gasket");
    assert_eq!(config_dir(&None), "./.gasket");
    assert_eq!(session_of("x").chat_id, "x");
    assert_eq!(session_of("x").channel, "cli");
    assert_eq!(session_of("tg:a:b").chat_id, "a:b");
    assert_eq!(session_of("tg:a:b").channel, "tg");
    let again = SessionKey::parse(&k.to_text()).unwrap();
    assert_eq!((again.channel.as_str(), again.chat_id.as_str()), ("cli", "a/b:c"));
    assert!(SessionKey::parse("plain").is_none());
    for (name, want) in [("a.jsonl", true), (".jsonl", false), ("a.meta.json", false), ("jsonl", false), ("a.b.jsonl", true)] {
        assert_eq!(is_event_file(name), want, "{name}");
    }
}

#[test]
fn next_numbers_are_kept_per_session() {
    let mut s = JsonStore::new("/b".into());
    let a = SessionKey { channel: "cli".into(), chat_id: "a".into() };
    let b = SessionKey { channel: "cli".into(), chat_id: "b".into() };
    let mut l = s.open(&a, vec![event("cli:a", "", 4)], SessionMeta::empty());
    assert_eq!(l.append(event("cli:a", "", 0), &NOW), 5);
    s.close(&a, &l);
    assert_eq!(s.open(&a, Vec::new(), SessionMeta::empty()).next_seq, Some(6));
    assert_eq!(s.open(&b, Vec::new(), SessionMeta::empty()).next_seq, None);
    l.delete_events_upto(100);
    s.close(&a, &l);
    assert_eq!(s.open(&a, Vec::new(), SessionMeta::empty()).next_seq, Some(6));
    s.close(&a, &SessionLog::cleared());
    assert_eq!(s.open(&a, Vec::new(), SessionMeta::empty()).next_seq, None);
}

#[test]
fn lines_are_read_back() {
    let lines = vec!["{\"a\":1}".to_string(), "{\"b\":2}".to_string()];
    let file = frame_all(&lines);
    assert_eq!(file, "{\"a\":1}\n{\"b\":2}\n");
    assert_eq!(event_lines(&file), lines);
    assert_eq!(frame("x"), "x\n");
    assert_eq!(event_lines("\n  \nx\r\n\ty"), vec!["x", "\ty"]);
    assert_eq!(event_lines(""), Vec::<String>::new());
    let events = collect_events(vec![Some(event("k", "a", 1)), None, Some(event("k", "b", 2))]);
    assert_eq!(numbers(&events), vec![1, 2]);
}

#[test]
fn store_error_words() {
    assert_eq!(StoreError::Database("x".into()).message(), "Database error: x");
    assert_eq!(StoreError::Io("x".into()).message(), "IO error: x");
    assert_eq!(StoreError::Serialization("x".into()).message(), "Serialization error: x");
    assert_eq!(StoreError::InvalidUuid("x".into()).message(), "Invalid UUID: x");
    assert_eq!(StoreError::InvalidEventType("x".into()).message(), "Invalid event type: x");
    assert_eq!(StoreError::Other("x".into()).message(), "Other: x");
}

#[test]
fn torn_line_costs_only_itself() {
    let lines = vec!["{\"a\":1}".to_string(), "{\"b\":2}".to_string()];
    let whole = frame_all(&lines);
    assert_eq!(event_lines(&whole), lines);
    let torn = format!("{whole}{{\"c\":");
    assert_eq!(event_lines(&torn), vec!["{\"a\":1}", "{\"b\":2}", "{\"c\":"]);
    assert_eq!(event_lines(&format!("{whole}  ")), lines);
    assert_eq!(event_lines(&format!("{whole}x\r")), vec!["{\"a\":1}", "{\"b\":2}", "x\r"]);
}

#[test]
fn restart_goes_on() {
    let mut l = log();
    l.append(event("cli:s", "a", 0), &NOW);
    l.append(event("cli:s", "b", 0), &NOW);
    let mut again = SessionLog { events: l.events, meta: l.meta, next_seq: None };
    assert_eq!(again.cached_next_seq(), 2);
    assert_eq!(again.append(event("cli:s", "c", 0), &NOW), 2);
}

#[test]
fn numbers_are_never_reused() {
    let mut l = log();
    for n in 0..3 {
        assert_eq!(l.append(event("cli:s", "hi", 0), &NOW), n);
    }
    assert_eq!(l.delete_events_upto(2), 3);
    assert!(l.events.is_empty());
    let restarted = SessionLog { events: Vec::new(), meta: l.meta, next_seq: None };
    assert_eq!(restarted.next_number(), Some(3));
    let mut l = restarted;
    assert_eq!(l.append(event("cli:s", "hi", 0), &NOW), 3);
    l.save_summary("up to the first", 0, &NOW);
    assert_eq!(l.delete_events_upto(3), 1);
    l.meta.delete_summary();
    l.next_seq = None;
    assert_eq!(l.append(event("cli:s", "hi", 0), &NOW), 4);
    l.save_summary("ahead", 10, &NOW);
    assert_eq!(l.append(event("cli:s", "hi", 0), &NOW), 11);
}

#[test]
fn numbers_run_out() {
    let mut l = log();
    l.events.push(event("cli:s", "last", i64::MAX));
    assert_eq!(l.next_number(), None);
    assert_eq!(l.delete_events_upto(i64::MAX), 1);
    assert_eq!(l.next_number(), Some(i64::MAX));
    let mut l = log();
    l.meta.watermark = i64::MAX;
    assert_eq!(l.next_number(), None);
    l.meta.watermark = 0;
    l.events.push(event("cli:s", "", -7));
    assert_eq!(l.rebuild_next_seq(), 0);
}

#[test]
fn an_empty_summary_of_something_is_a_summary() {
    let mut m = SessionMeta::empty();
    m.save_summary("", 4, "t");
    assert_eq!(m.load_summary(), Some((String::new(), 4)));
    assert!(m.delete_summary());
    assert_eq!(m.load_summary(), None);
    assert!(!m.delete_summary());
}

#[test]
fn the_newest_messages_are_kept() {
    let mk = || {
        let mut v = vec![event("b", "old", 0), event("b", "new", 1), event("a", "newest", 0)];
        v[2].created_at = Instant { secs: NOW.secs + 5, nanos: 0 };
        vec![v]
    };
    let of = |limit: usize| -> Vec<String> {
        get_recent_events(mk(), limit).into_iter().map(|e| e.content).collect()
    };
    assert_eq!(of(1), vec!["newest"]);
    assert_eq!(of(2), vec!["newest", "new"]);
    assert_eq!(of(0), vec!["newest", "old", "new"]);
}

#[test]
fn history_keeps_its_tail() {
    let mk = || vec![event("k", "c", 3), event("k", "a", 1), event("k", "b", 2)];
    let mut l = SessionLog { events: mk(), meta: SessionMeta::empty(), next_seq: None };
    l.delete_events_upto(1);
    assert_eq!(numbers(&get_session_history(l.events)), vec![2, 3]);
    assert_eq!(numbers(&get_session_history(mk())), vec![1, 2, 3]);
}
