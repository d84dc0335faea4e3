use conga_gasket::exec::{
    closing_events, exit_code, headless_approval, parse_args, run_code, start, task_from_stdin,
    CancelCause, Mode, Start, TurnEndReason, Usage, UsageTotals, USAGE,
};

fn s(v: &[&str]) -> Vec<String> {
    v.iter().map(|x| x.to_string()).collect()
}

#[test]
fn parse_task_and_flags() {
    let a = parse_args(&s(&["--json", "--mode=plan", "--resume=last", "fix the bug"]))
        .ok()
        .expect("parse");
    assert_eq!(a.task.as_deref(), Some("fix the bug"));
    assert!(a.json);
    assert_eq!(a.mode, Mode::Plan);
    assert_eq!(a.resume.as_deref(), Some("last"));
}

#[test]
fn parse_defaults_full_auto_fresh_session() {
    let a = parse_args(&s(&["do things"])).ok().expect("parse");
    assert_eq!(a.task.as_deref(), Some("do things"));
    assert!(!a.json);
    assert_eq!(a.mode, Mode::FullAuto);
    assert!(a.resume.is_none());
}

#[test]
fn parse_rejects_unknown_flag_and_extra_positional_and_bad_mode() {
    assert!(parse_args(&s(&["--wat", "x"])).is_err());
    assert!(parse_args(&s(&["one", "two"])).is_err());
    assert!(parse_args(&s(&["--mode=bogus", "x"])).is_err());
}

#[test]
fn parse_missing_task_is_ok_placeholder_checked_in_run() {
    let a = parse_args(&s(&["--json"])).ok().expect("parse");
    assert!(a.task.is_none());
}

#[test]
fn exit_codes_follow_ciconvention() {
    assert_eq!(exit_code(&TurnEndReason::Completed), 0);
    assert_eq!(exit_code(&TurnEndReason::Error { message: "boom".into() }), 1);
    assert_eq!(exit_code(&TurnEndReason::Aborted { cause: Some(CancelCause::User) }), 130);
}

#[test]
fn parse_errors_name_the_argument_and_end_in_the_usage_line() {
    let e = parse_args(&s(&["--wat", "--mode=bogus"])).err().unwrap();
    assert_eq!(e, format!("unknown flag: --wat\n{USAGE}"));
    let e = parse_args(&s(&["--mode=bogus", "--wat"])).err().unwrap();
    assert_eq!(e, format!("unknown --mode: bogus\n{USAGE}"));
    let e = parse_args(&s(&["one", "two", "--wat"])).err().unwrap();
    assert_eq!(e, format!("unexpected extra argument: two\n{USAGE}"));
}

#[test]
fn parse_collects_scripts_and_the_last_of_a_flag() {
    let a = parse_args(&s(&[
        "--ext-js=a.js",
        "--mode=suggest",
        "--ext-js=b.js",
        "--mode=auto-edit",
        "--resume=1",
        "--resume=",
        "-",
    ]))
    .ok()
    .unwrap();
    assert_eq!(a.ext_js, vec!["a.js", "b.js"]);
    assert_eq!(a.mode, Mode::AutoEdit);
    assert_eq!(a.resume.as_deref(), Some(""));
    assert_eq!(a.task.as_deref(), Some("-"));
}

#[test]
fn mode_names() {
    assert_eq!(Mode::parse("suggest"), Some(Mode::Suggest));
    assert_eq!(Mode::parse("auto-edit"), Some(Mode::AutoEdit));
    assert_eq!(Mode::parse("full-auto"), Some(Mode::FullAuto));
    assert_eq!(Mode::parse("plan"), Some(Mode::Plan));
    assert_eq!(Mode::parse("Plan"), None);
}

#[test]
fn start_runs_reads_or_exits() {
    match start(&s(&["--json", "do it"])) {
        Start::Run { task, json, mode, resume, ext_js } => {
            assert_eq!(task, "do it");
            assert!(json);
            assert_eq!(mode, Mode::FullAuto);
            assert!(resume.is_none() && ext_js.is_empty());
        }
        _ => panic!("expected Run"),
    }
    assert!(matches!(start(&s(&["-"])), Start::ReadStdin { .. }));
    match start(&s(&["--json"])) {
        Start::Exit { code, message } => {
            assert_eq!(code, 2);
            assert_eq!(message, USAGE);
        }
        _ => panic!("expected Exit"),
    }
    match start(&s(&["--wat"])) {
        Start::Exit { code, message } => {
            assert_eq!(code, 2);
            assert!(message.starts_with("unknown flag: --wat\n"));
        }
        _ => panic!("expected Exit"),
    }
}

#[test]
fn stdin_and_approval() {
    assert_eq!(task_from_stdin(Some("t".into())), Ok("t".to_string()));
    assert_eq!(task_from_stdin(None), Err((2, "failed to read task from stdin".to_string())));
    assert_eq!(
        headless_approval("bash"),
        (false, "[exec] approval for bash denied (headless)".to_string())
    );
}

#[test]
fn usage_totals_add_up_and_wrap() {
    let mut t = UsageTotals::new();
    t.record(&Usage {
        input_tokens: 10,
        output_tokens: 2,
        cache_read_tokens: Some(3),
        cache_write_tokens: None,
    });
    t.record(&Usage {
        input_tokens: u64::MAX,
        output_tokens: 5,
        cache_read_tokens: None,
        cache_write_tokens: Some(7),
    });
    assert_eq!(t, UsageTotals { input: 9, output: 7, cache_read: 3, cache_write: 7 });
}

#[test]
fn a_turn_ends_in_done_and_then_the_error() {
    let t = UsageTotals { input: 1, output: 2, cache_read: 3, cache_write: 4 };
    let evs = closing_events(&t, 5, &None);
    assert_eq!(evs.len(), 1);
    assert_eq!(evs[0].event_type, "done");
    assert_eq!(evs[0].usage_in, Some(1));
    assert_eq!(evs[0].usage_cache_write, Some(4));
    assert_eq!(evs[0].elapsed_ms, Some(5));
    let evs = closing_events(&t, 0, &None);
    assert_eq!(evs.len(), 1);
    assert_eq!(evs[0].event_type, "done");
    assert_eq!(evs[0].usage_in, Some(1));
    assert_eq!(evs[0].usage_out, Some(2));
    assert_eq!(evs[0].usage_cache_read, Some(3));
    assert_eq!(evs[0].usage_cache_write, Some(4));
    assert_eq!(evs[0].elapsed_ms, Some(0));
    let evs = closing_events(&t, 0, &Some("boom".into()));
    assert_eq!(evs.len(), 2);
    assert_eq!(evs[0].event_type, "done");
    assert_eq!(evs[0].usage_in, Some(1));
    assert_eq!(evs[1].event_type, "error");
    assert_eq!(evs[1].message.as_deref(), Some("boom"));
}

#[test]
fn run_codes() {
    assert_eq!(run_code(&Ok(TurnEndReason::Completed)), 0);
    assert_eq!(run_code(&Ok(TurnEndReason::Aborted { cause: None })), 130);
    assert_eq!(run_code(&Err("no provider".into())), 1);
}
