use bucketmount::updater::{check_failed, up_to_date, wait_until_idle, Check, IdleWait, Schedule};

const SECOND: u64 = 1_000_000_000;

#[test]
fn updates_are_looked_for() {
    let mut s = Schedule::new(5);
    assert_eq!(s.poll(5 + 60 * SECOND - 1), Check::No);
    assert_eq!(s.poll(5 + 60 * SECOND), Check::Due);
    assert_eq!(s.poll(5 + 60 * SECOND + 4 * 3600 * SECOND - 1), Check::No);
    s.check_now();
    assert_eq!(s.poll(100 * SECOND), Check::Manual);
    assert_eq!(s.poll(100 * SECOND), Check::No);
    assert_eq!(s.poll(100 * SECOND + 4 * 3600 * SECOND), Check::Due);
}

#[test]
fn updates_wait_for_idle_mounts() {
    assert_eq!(wait_until_idle(0, true), IdleWait::Again { millis: 5000 });
    assert_eq!(wait_until_idle(0, false), IdleWait::Install);
    assert_eq!(wait_until_idle(900 * SECOND, true), IdleWait::InstallAnyway);
}

#[test]
fn outcomes_are_told() {
    assert_eq!(check_failed("e", false), ("update check failed: e".to_string(), None));
    assert_eq!(
        check_failed("e", true).1,
        Some("Could not check for updates: e".to_string())
    );
    assert_eq!(up_to_date("1.2", true), Some("BucketMount 1.2 is up to date.".to_string()));
    assert_eq!(up_to_date("1.2", false), None);
}
