use conga_gasket::cron::{CronPersistence, CronStateFile};
use conga_gasket::time::Instant;

fn t(secs: i64, nanos: u32) -> Option<Instant> {
    Some(Instant { secs, nanos })
}

#[test]
fn test_cron_json() {
    let mut f = CronStateFile::new();
    assert_eq!(f.get("job"), None);
    f.upsert("job", Some("now".into()), Some("later".into()));
    let got = f.get("job").unwrap();
    assert_eq!(got.0.as_deref(), Some("now"));
    assert_eq!(got.1.as_deref(), Some("later"));
    assert!(f.delete("job"));
    assert!(!f.delete("job"));
}

#[test]
fn what_is_saved_is_restored() {
    let p = CronPersistence::new("/s/cron.json".into());
    assert_eq!(p.path(), "/s/cron.json");
    for (last, next) in [
        (t(1_700_000_000, 123_456_789), t(1_700_000_060, 0)),
        (t(-62_167_219_200, 1), t(253_402_300_799, 999_999_999)),
        (None, t(-1, 500_000_000)),
        (t(1_483_228_799, 1_000_000_000), t(1_483_228_799, 1_999_999_999)),
        (t(253_402_300_799, 1_500_000_000), t(-62_167_219_141, 1_000_000_001)),
        (None, None),
    ] {
        let mut f = CronStateFile::new();
        p.save_state(&mut f, "job", &last, &next);
        p.save_state(&mut f, "other", &None, &t(1, 0));
        assert_eq!(p.restore_state(Ok(f), "job"), Ok(Some((last, next))));
    }
}

#[test]
fn texts_that_are_no_times_are_dropped() {
    let p = CronPersistence::new("x".into());
    let mut f = CronStateFile::new();
    f.upsert("job", Some("yesterday".into()), Some("2023-11-14T23:13:20+01:00".into()));
    assert_eq!(p.restore_state(Ok(f), "job"), Ok(Some((None, t(1_700_000_000, 0)))));
    assert_eq!(p.restore_state(Ok(CronStateFile::new()), "job"), Ok(None));
}

#[test]
fn state_is_kept_as_text() {
    let p = CronPersistence::new("x".into());
    let mut f = CronStateFile::loaded(None);
    p.save_state(&mut f, "job", &t(0, 0), &None);
    assert_eq!(f.get("job").unwrap(), (Some("1970-01-01T00:00:00+00:00".to_string()), None));
}

#[test]
fn errors_name_the_job() {
    let p = CronPersistence::new("x".into());
    assert_eq!(
        p.restore_state(Err("gone".into()), "j"),
        Err("Failed to load cron state for j: gone".to_string())
    );
    assert_eq!(
        p.deleted("j", Err("gone".into())),
        Err("Failed to delete cron state for j: gone".to_string())
    );
    assert_eq!(p.deleted("j", Ok(())), Ok(()));
}

#[test]
fn a_leap_second_is_written_as_the_second_sixty() {
    let p = CronPersistence::new("x".into());
    let mut f = CronStateFile::new();
    p.save_state(&mut f, "job", &t(1_483_228_799, 1_000_000_000), &None);
    assert_eq!(f.get("job").unwrap().0.as_deref(), Some("2016-12-31T23:59:60+00:00"));
}

#[test]
fn what_is_deleted_is_not_restored() {
    let p = CronPersistence::new("x".into());
    let mut f = CronStateFile::new();
    p.save_state(&mut f, "job", &t(1, 0), &t(2, 0));
    p.save_state(&mut f, "other", &t(3, 0), &None);
    assert!(p.delete_state(&mut f, "job"));
    assert!(!p.delete_state(&mut f, "job"));
    assert_eq!(f.get("job"), None);
    assert_eq!(p.restore_state(Ok(f), "other"), Ok(Some((t(3, 0), None))));
}
