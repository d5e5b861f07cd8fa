use bucketmount::config::MountConfig;
use bucketmount::sso::SsoProfile;
use bucketmount::supervisor::{Ctx, Effects, MountStatus, State};
use bucketmount::sync::{run_bisync, Failure, RunEnd};
use bucketmount::syncer::{watch_error, SyncAction, SyncEvent, Syncer};

const SECOND: u64 = 1_000_000_000;

struct Run {
    syncer: Syncer,
    status: MountStatus,
    ctx: Ctx,
}

impl Run {
    fn new(write_back_secs: u64, dir_cache_secs: u64) -> Run {
        let m = MountConfig { write_back_secs, dir_cache_secs, ..MountConfig::default() };
        Run {
            syncer: Syncer::new(&m),
            status: MountStatus::new(State::Starting, "Starting…", 0),
            ctx: Ctx::new("n"),
        }
    }

    fn watching() -> Run {
        let mut r = Run::new(5, 60);
        let a = r.act(SyncEvent::Watching { generation: 1, now: 0 });
        assert!(matches!(a, SyncAction::Tick { changed: false }));
        r
    }

    fn event(&mut self, e: SyncEvent) -> (SyncAction, Effects) {
        self.syncer.next(e, &mut self.status, &mut self.ctx)
    }

    fn act(&mut self, e: SyncEvent) -> SyncAction {
        self.event(e).0
    }

    fn tick(&mut self, changed: Option<u64>, now: u64) -> SyncAction {
        self.act(SyncEvent::Tick { stopping: false, generation: 1, changed, now })
    }

    fn ran(&mut self, result: Result<(), Failure>, needs_login: bool, now: u64) -> SyncAction {
        self.act(SyncEvent::Ran { result, stopping: false, needs_login, now })
    }
}

fn work() -> SsoProfile {
    SsoProfile {
        profile: "work".into(),
        session: None,
        start_url: String::new(),
        region: String::new(),
        scopes: vec![],
    }
}

#[test]
fn folder_is_set_up() {
    let mut r = Run::new(0, 0);
    assert_eq!((r.syncer.quiet_secs, r.syncer.poll_secs), (1, 10));
    let ready = |stopping, rclone_found| SyncEvent::Ready { stopping, rclone_found, now: 0 };
    assert!(matches!(r.act(ready(true, true)), SyncAction::Close));
    assert!(matches!(r.act(ready(false, false)), SyncAction::Wait { secs: 30 }));
    assert!(matches!(r.act(ready(false, true)), SyncAction::Prepare));
    let a = r.act(SyncEvent::Prepared { folder: Err("e".into()), now: 0 });
    assert!(matches!(a, SyncAction::Wait { secs: 15 }));
    assert_eq!((r.status.state, r.status.detail.as_str()), (State::Error, "e"));
    assert!(matches!(r.act(SyncEvent::Prepared { folder: Ok(()), now: 0 }), SyncAction::Resolve));
    assert!(r.status.mounted);
    assert!(matches!(r.act(SyncEvent::Resolved { profile: Some(work()) }), SyncAction::Watch));
    assert_eq!(r.status.sso_profile, Some("work".to_string()));
    let m = MountConfig { name: "n".to_string(), ..MountConfig::default() };
    assert_eq!(watch_error(&m, "/f", "e"), "[n] cannot watch /f: e; syncing on the timer only");
}

#[test]
fn first_sync_is_a_resync() {
    let mut r = Run::watching();
    assert!(matches!(r.tick(None, 0), SyncAction::AskState));
    match r.act(SyncEvent::StateKnown { known: false, now: 0 }) {
        SyncAction::Run { resync, note } => {
            assert!(resync);
            assert_eq!(note, Some("[n] no sync state yet: running a full resync".to_string()));
        }
        other => panic!("{other:?}"),
    }
    assert_eq!((r.status.state, r.status.detail.as_str()), (State::Starting, "First sync with the bucket…"));
    assert!(matches!(r.ran(Ok(()), false, 7), SyncAction::Tick { changed: false }));
    assert_eq!((r.status.state, r.status.detail.as_str()), (State::Connected, "Up to date"));
    assert_eq!(r.status.last_ok, Some(7));
}

#[test]
fn bucket_is_polled() {
    let mut r = Run::watching();
    r.ran(Ok(()), false, 0);
    assert!(matches!(r.tick(None, 60 * SECOND - 1), SyncAction::Sleep { millis: 250 }));
    assert!(matches!(r.tick(None, 60 * SECOND), SyncAction::AskState));
    match r.act(SyncEvent::StateKnown { known: true, now: 60 * SECOND }) {
        SyncAction::Run { resync, note } => assert!(!resync && note.is_none()),
        other => panic!("{other:?}"),
    }
    assert_eq!(r.status.state, State::Connected);
}

#[test]
fn local_changes_settle_first() {
    let mut r = Run::watching();
    r.ran(Ok(()), false, 0);
    assert!(matches!(r.tick(Some(SECOND), 6 * SECOND - 1), SyncAction::Sleep { millis: 250 }));
    assert_eq!(
        (r.status.state, r.status.detail.as_str()),
        (State::Syncing, "Local changes waiting to upload")
    );
    assert!(matches!(r.tick(Some(SECOND), 6 * SECOND), SyncAction::AskState));
    r.act(SyncEvent::StateKnown { known: true, now: 6 * SECOND });
    assert_eq!(r.status.detail, "Syncing local changes…");
}

#[test]
fn failures_are_waited_out() {
    let mut r = Run::watching();
    r.ran(Ok(()), false, 0);
    r.tick(Some(0), 5 * SECOND);
    let a = r.ran(Err(Failure::Other("x".into())), false, 10 * SECOND);
    assert!(matches!(a, SyncAction::Tick { changed: true }));
    assert_eq!(
        (r.status.state, r.status.detail.as_str()),
        (State::Disconnected, "Sync failed: x. Retrying in 2s")
    );
    assert!(matches!(r.tick(Some(0), 12 * SECOND - 1), SyncAction::Sleep { .. }));
    assert!(matches!(r.tick(Some(0), 12 * SECOND), SyncAction::AskState));
    r.ran(Err(Failure::Other("x".into())), false, 12 * SECOND);
    assert_eq!(r.status.detail, "Sync failed: x. Retrying in 4s");
    let signed_in = SyncEvent::Tick { stopping: false, generation: 2, changed: None, now: 12 * SECOND };
    assert!(matches!(r.act(signed_in), SyncAction::AskState));
}

#[test]
fn sign_in_for_a_folder() {
    let mut r = Run::watching();
    r.ran(Err(Failure::SignIn), false, 0);
    assert_eq!((r.status.state, r.status.detail.as_str()), (State::SignInRequired, "AWS SSO session has expired"));
    let mut r = Run::watching();
    r.ran(Err(Failure::Other("x".into())), true, 0);
    assert_eq!(r.status.state, State::Disconnected);
    r.act(SyncEvent::Resolved { profile: Some(work()) });
    r.ran(Err(Failure::Other("x".into())), true, 0);
    assert_eq!(r.status.state, State::SignInRequired);
}

#[test]
fn lost_state_stops_everything() {
    let mut r = Run::watching();
    r.ran(Err(Failure::NeedsResync("m".into())), false, 0);
    assert!(r.status.needs_resync);
    assert_eq!(r.status.state, State::Error);
    assert_eq!(
        r.status.detail,
        "Sync state was lost (m). Click Resync to merge the folder and the bucket again."
    );
    let later = SyncEvent::Tick { stopping: false, generation: 9, changed: Some(0), now: 999 * SECOND };
    assert!(matches!(r.act(later), SyncAction::Sleep { .. }));
}

#[test]
fn syncing_stops() {
    let mut r = Run::watching();
    let stop = SyncEvent::Tick { stopping: true, generation: 1, changed: None, now: 0 };
    assert!(matches!(r.act(stop), SyncAction::Close));
    let failed = SyncEvent::Ran {
        result: Err(Failure::Other("Stopped".into())),
        stopping: true,
        needs_login: false,
        now: 0,
    };
    assert!(matches!(r.act(failed), SyncAction::Close));
    let (a, e) = r.event(SyncEvent::Closed);
    assert!(matches!(a, SyncAction::Done));
    assert_eq!(e.log, Some("[n] sync stopped".to_string()));
    assert_eq!((r.status.state, r.status.mounted), (State::Disabled, false));
}

#[test]
fn status_has_the_process() {
    let mut r = Run::watching();
    assert!(matches!(r.act(SyncEvent::Started { pid: 5 }), SyncAction::Attend));
    assert_eq!(r.status.pid, Some(5));
    let end = RunEnd::Exited { success: true, output: vec![] };
    let result = run_bisync(end, false, &mut r.status);
    r.ran(result, false, 0);
    assert_eq!(r.status.pid, None);
    assert_eq!(r.status.state, State::Connected);
}
