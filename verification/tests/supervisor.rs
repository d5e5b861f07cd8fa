use bucketmount::supervisor::{
    elapsed, log_path, log_path_in, needs_rotation, old_log_path_in, prepare_mount_point_in,
    signin_detail, terminate, Ctx, MountStatus, Preparation, State, Terminating,
};
use bucketmount::sso::SsoProfile;

const SECOND: u64 = 1_000_000_000;

const ALL: [State; 8] = [
    State::Disabled,
    State::Starting,
    State::Connected,
    State::Syncing,
    State::Disconnected,
    State::SignInRequired,
    State::Down,
    State::Error,
];

#[test]
fn states() {
    assert_eq!(State::Starting.label(), "Mounting");
    assert_eq!(State::Disconnected.label(), "Connection lost");
    assert_eq!(State::SignInRequired.label(), "Sign-in required");
    assert_eq!(State::Down.label(), "Mount down");
    assert_eq!(State::Connected.hex(), "#34c759");
    assert_eq!(State::Syncing.hex(), "#0a84ff");
    assert_eq!(State::Starting.hex(), "#ff9f0a");
    assert_eq!(State::Error.hex(), "#ff453a");
    assert_eq!(State::Disabled.hex(), "#8e8e93");
    assert_eq!(State::Connected.rgb(), (52, 199, 89));
    for a in ALL {
        assert_eq!(a.is_problem(), a.severity() == 4);
        assert!(!(a.is_healthy() && a.is_problem()));
        for b in ALL {
            assert_eq!(a.severity() == b.severity(), a.rgb() == b.rgb());
            assert_eq!(a.label() == b.label(), a == b);
        }
    }
}

#[test]
fn status_begins_empty() {
    let s = MountStatus::new(State::Starting, "Starting…", 5);
    assert_eq!(s.since, 5);
    assert_eq!(s.detail, "Starting…");
    assert!(!s.mounted && s.pid.is_none() && s.last_ok.is_none() && s.log_tail.is_empty());
    assert_eq!(s.clone().detail, s.detail);
}

#[test]
fn setting_a_state() {
    let mut c = Ctx::new("photos");
    let mut s = MountStatus::new(State::Starting, "", 0);
    let e = c.set(&mut s, State::Connected, "Connected", 7);
    assert!(e.refresh);
    assert_eq!(e.log, Some("[photos] Mounting -> Connected: Connected".to_string()));
    assert_eq!(e.notice, None);
    assert_eq!((s.since, s.last_ok), (7, Some(7)));
    let e = c.set(&mut s, State::Connected, "Connected", 8);
    assert!(!e.refresh && e.log.is_none() && e.notice.is_none());
    let e = c.set(&mut s, State::Connected, "Connected · 1", 9);
    assert!(e.refresh && e.log.is_none());
    assert_eq!((s.since, s.last_ok), (7, Some(9)));
}

#[test]
fn user_is_told_of_problems() {
    let cases = [
        (State::Disconnected, "n: connection to the bucket lost. d"),
        (State::SignInRequired, "n: AWS sign-in required. Open BucketMount and click Sign in. d"),
        (State::Down, "n: mount stopped, restarting. d"),
        (State::Error, "n: needs attention. d"),
    ];
    for (state, notice) in cases {
        let mut c = Ctx::new("n");
        let mut s = MountStatus::new(State::Connected, "", 0);
        assert_eq!(c.set(&mut s, state, "d", 1).notice, Some(notice.to_string()));
        assert_eq!(c.set(&mut s, State::Down, "other", 2).notice, None);
    }
}

#[test]
fn warnings_are_a_minute_apart() {
    let mut c = Ctx::new("n");
    let mut s = MountStatus::new(State::Connected, "", 0);
    assert!(c.set(&mut s, State::Down, "a", 0).notice.is_some());
    c.set(&mut s, State::Connected, "", 1);
    assert!(c.set(&mut s, State::Down, "b", 60 * SECOND - 1).notice.is_none());
    c.set(&mut s, State::Connected, "", 60 * SECOND - 1);
    assert!(c.set(&mut s, State::Down, "c", 60 * SECOND).notice.is_some());
}

#[test]
fn restored_only_after_health() {
    let mut c = Ctx::new("n");
    let mut s = MountStatus::new(State::Down, "", 0);
    assert_eq!(c.set(&mut s, State::Connected, "", 1).notice, None);
    c.set(&mut s, State::Down, "", 2);
    let e = c.set(&mut s, State::Syncing, "", 3);
    assert_eq!(e.notice, Some("n: connection restored".to_string()));
}

#[test]
fn log_lines_are_taken_in() {
    let mut s = MountStatus::new(State::Connected, "", 0);
    for i in 0..205 {
        s.log_line(&format!("line {i}"));
    }
    assert_eq!(s.log_tail.len(), 200);
    assert_eq!(s.log_tail[0], "line 5");
    assert_eq!(s.log_tail[199], "line 204");
    assert_eq!(s.last_error, None);
    s.log_line("2026/09/23 09:30:27 ERROR : 403");
    assert_eq!(s.last_error, Some("403".to_string()));
    s.log_line("2026/09/23 09:30:28 Failed to 1");
    assert_eq!(s.last_error, Some("Failed to 1".to_string()));
    s.log_line("2026/09/23 09:30:29 CRITICAL: 2");
    assert_eq!(s.last_error, Some("2".to_string()));
}

#[test]
fn stopping_and_waiting() {
    assert!(!Ctx::stopping(false, false));
    assert!(Ctx::stopping(true, false) && Ctx::stopping(false, true));
    assert_eq!(Ctx::wait(5, 15, 5 + 15 * SECOND - 1, false), Some(200));
    assert_eq!(Ctx::wait(5, 15, 5 + 15 * SECOND, false), None);
    assert_eq!(Ctx::wait(5, 15, 5, true), None);
    assert_eq!(terminate(0, false), Terminating::Again { millis: 100 });
    assert_eq!(terminate(0, true), Terminating::Gone);
    assert_eq!(terminate(10 * SECOND, true), Terminating::Kill);
    assert_eq!(elapsed(3, 10), 7);
    assert_eq!(elapsed(10, 3), 0);
}

#[test]
fn mount_points_are_prepared() {
    let p = |found| prepare_mount_point_in("/h/x", found, "/h");
    let entry = |s: &str| Some(s.to_string());
    assert_eq!(p(Preparation::Entries(vec![entry(".DS_Store"), entry(".localized")])), Ok(()));
    let full = Err("Mount point ~/x is not empty. Choose an empty folder.".to_string());
    assert_eq!(p(Preparation::Entries(vec![entry(".DS_Store"), entry("a")])), full);
    assert_eq!(p(Preparation::Entries(vec![None])), full);
    assert_eq!(p(Preparation::UnmountFailed("u".into())), Err("u".to_string()));
    assert_eq!(
        p(Preparation::CreateFailed("e".into())),
        Err("Cannot create mount point /h/x: e".to_string())
    );
    assert_eq!(
        p(Preparation::ReadFailed("e".into())),
        Err("Cannot read mount point /h/x: e".to_string())
    );
}

#[test]
fn log_files() {
    assert_eq!(log_path_in("a b", "/h"), "/h/Library/Logs/BucketMount/a_b.log");
    assert_eq!(old_log_path_in("a b", "/h"), "/h/Library/Logs/BucketMount/a_b.log.1");
    assert!(log_path("x").ends_with("/Library/Logs/BucketMount/x.log"));
    assert!(needs_rotation(Some(10 * 1024 * 1024 + 1)));
    assert!(!needs_rotation(Some(10 * 1024 * 1024)));
    assert!(!needs_rotation(None));
}

#[test]
fn signin_details() {
    let p = SsoProfile {
        profile: "work".into(),
        session: None,
        start_url: String::new(),
        region: String::new(),
        scopes: vec![],
    };
    assert_eq!(signin_detail(Some(&p)), "AWS SSO session for profile 'work' has expired");
    assert_eq!(signin_detail(None), "AWS SSO session has expired");
}
