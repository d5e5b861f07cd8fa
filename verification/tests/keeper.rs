use bucketmount::keeper::{backoff_secs, count_up, Keeper, KeeperAction, KeeperEvent};
use bucketmount::sso::SsoProfile;
use bucketmount::supervisor::{Ctx, Effects, MountStatus, State};

const SECOND: u64 = 1_000_000_000;

struct Run {
    keeper: Keeper,
    status: MountStatus,
    ctx: Ctx,
}

impl Run {
    fn new() -> Run {
        Run {
            keeper: Keeper::new(),
            status: MountStatus::new(State::Starting, "Starting…", 0),
            ctx: Ctx::new("n"),
        }
    }

    fn event(&mut self, e: KeeperEvent) -> (KeeperAction, Effects) {
        self.keeper.next(e, &mut self.status, &mut self.ctx)
    }

    fn act(&mut self, e: KeeperEvent) -> KeeperAction {
        self.event(e).0
    }

    fn session(&mut self, from: u64, to: u64, profile: Option<SsoProfile>, reason: &str, needs_login: bool) {
        self.act(KeeperEvent::Resolved { profile, now: from });
        self.act(KeeperEvent::Ended { reason: reason.to_string() });
        let a = self.act(KeeperEvent::Cleaned { stopping: false, needs_login, generation: 1, now: to });
        assert_eq!(a, KeeperAction::Count);
    }
}

fn work() -> SsoProfile {
    SsoProfile {
        profile: "work".into(),
        session: None,
        start_url: String::new(),
        region: String::new(),
        scopes: vec![],
    }
}

#[test]
fn backoff_doubles_up_to_a_minute() {
    let waits: Vec<u64> = (0..9).map(backoff_secs).collect();
    assert_eq!(waits, vec![2, 2, 4, 8, 16, 32, 60, 60, 60]);
    assert_eq!(backoff_secs(u32::MAX), 60);
    assert_eq!(count_up(3), 4);
    assert_eq!(count_up(u32::MAX), u32::MAX);
}

#[test]
fn attempts_begin() {
    let mut r = Run::new();
    let ready = |stopping, rclone_found| KeeperEvent::Ready { stopping, rclone_found, now: 0 };
    assert_eq!(r.act(ready(true, true)), KeeperAction::Close);
    assert_eq!(r.act(ready(false, false)), KeeperAction::Wait { secs: 30 });
    assert_eq!(r.status.state, State::Error);
    assert_eq!(
        r.status.detail,
        "rclone not found. Reinstall BucketMount or set rclone_path in config.toml."
    );
    assert_eq!(r.act(ready(false, true)), KeeperAction::Prepare);
    let bad = KeeperEvent::Prepared { result: Err("e".into()), stopping: false, now: 0 };
    assert_eq!(r.act(bad), KeeperAction::Wait { secs: 15 });
    assert_eq!(r.status.detail, "e");
    let good = |stopping| KeeperEvent::Prepared { result: Ok(()), stopping, now: 0 };
    assert_eq!(r.act(good(true)), KeeperAction::Close);
    assert_eq!(r.act(good(false)), KeeperAction::Resolve);
    let resolved = KeeperEvent::Resolved { profile: Some(work()), now: 9 };
    assert_eq!(r.act(resolved), KeeperAction::Session);
    assert_eq!(r.status.sso_profile, Some("work".to_string()));
    assert_eq!(r.keeper.started, 9);
}

#[test]
fn session_leaves_nothing_behind() {
    let mut r = Run::new();
    r.status.pid = Some(1);
    r.status.mounted = true;
    r.status.uploads_pending = 3;
    assert_eq!(r.act(KeeperEvent::Ended { reason: "x".into() }), KeeperAction::Clean);
    assert!(r.status.pid.is_none() && !r.status.mounted && r.status.uploads_pending == 0);
}

#[test]
fn counts_down_to_a_restart() {
    let mut r = Run::new();
    r.session(0, 10 * SECOND, None, "rclone exited", false);
    assert_eq!(r.status.restarts, 1);
    assert_eq!(r.keeper.remaining, 2);
    let second = |stopping, generation| KeeperEvent::Second { stopping, generation, now: 11 * SECOND };
    assert_eq!(r.act(second(false, 1)), KeeperAction::Sleep);
    assert_eq!(r.status.state, State::Down);
    assert_eq!(r.status.detail, "rclone exited. Restarting in 2s");
    assert_eq!(r.act(second(false, 1)), KeeperAction::Sleep);
    assert_eq!(r.status.detail, "rclone exited. Restarting in 1s");
    assert_eq!(r.act(second(false, 1)), KeeperAction::Again);
    r.session(0, 10 * SECOND, None, "rclone exited", false);
    assert_eq!(r.keeper.remaining, 4);
    assert_eq!(r.act(second(false, 2)), KeeperAction::Again);
    r.session(0, 10 * SECOND, None, "rclone exited", false);
    assert_eq!(r.act(second(true, 1)), KeeperAction::Again);
}

#[test]
fn long_session_resets_the_backoff() {
    let mut r = Run::new();
    for _ in 0..4 {
        r.session(0, SECOND, None, "x", false);
    }
    assert_eq!(r.keeper.remaining, 16);
    r.session(0, 300 * SECOND, None, "x", false);
    assert_eq!(r.keeper.remaining, 32);
    r.session(0, 300 * SECOND + 1, None, "x", false);
    assert_eq!(r.keeper.remaining, 2);
    assert_eq!(r.status.restarts, 6);
}

#[test]
fn waits_for_a_sign_in() {
    let second = || KeeperEvent::Second { stopping: false, generation: 1, now: 0 };
    let mut r = Run::new();
    r.session(0, 1, Some(work()), "no SSO token", false);
    r.act(second());
    assert_eq!(r.status.state, State::SignInRequired);
    assert_eq!(r.status.detail, "AWS SSO session for profile 'work' has expired");
    let mut r = Run::new();
    r.session(0, 1, Some(work()), "x", true);
    r.act(second());
    assert_eq!(r.status.state, State::SignInRequired);
    let mut r = Run::new();
    r.session(0, 1, None, "no SSO token", true);
    r.act(second());
    assert_eq!(r.status.state, State::Down);
}

#[test]
fn supervisor_stops() {
    let mut r = Run::new();
    let stop = KeeperEvent::Cleaned { stopping: true, needs_login: false, generation: 0, now: 0 };
    assert_eq!(r.act(stop), KeeperAction::Close);
    assert_eq!(r.status.restarts, 0);
    let (a, e) = r.event(KeeperEvent::Closed);
    assert_eq!(a, KeeperAction::Done);
    assert_eq!(e.log, Some("[n] supervisor stopped".to_string()));
    assert_eq!((r.status.state, r.status.detail.as_str()), (State::Disabled, "Stopped"));
}
