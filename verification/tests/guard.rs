use conga_gasket::guard::{repeat_advisory, RepeatGuard};

#[test]
fn counts_consecutive_identical_calls() {
    let mut g = RepeatGuard::new();
    assert_eq!(g.observe("bash", r#"{"command":"ls"}"#), 1);
    assert_eq!(g.observe("bash", r#"{"command":"ls"}"#), 2);
    assert_eq!(g.observe("bash", r#"{"command":"ls"}"#), 3);
    assert_eq!(g.observe("bash", r#"{"command":"pwd"}"#), 1);
    assert_eq!(g.observe("read", r#"{"command":"pwd"}"#), 1);
    assert_eq!(g.observe("bash", r#"{"command":"ls"}"#), 1);
}

#[test]
fn advisory_fires_only_at_three() {
    assert!(repeat_advisory(1).is_none());
    assert!(repeat_advisory(2).is_none());
    let msg = repeat_advisory(3).unwrap();
    assert!(msg.contains("identical"), "{msg}");
    assert!(repeat_advisory(4).is_none());
    assert!(repeat_advisory(9).is_none());
}

#[test]
fn the_note_comes_once_in_a_streak() {
    let mut g = RepeatGuard::default();
    let notes: Vec<bool> =
        (0..6).map(|_| repeat_advisory(g.observe("t", "a")).is_some()).collect();
    assert_eq!(notes, vec![false, false, true, false, false, false]);
    assert_eq!(
        repeat_advisory(3).unwrap(),
        "note: this is the third identical call in a row — the result is unlikely to change. If it failed twice, change the arguments or approach."
    );
}
