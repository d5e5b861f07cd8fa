use bucketmount::rclone::VfsStats;
use bucketmount::session::{can_count, CheckAnswer, Look, Session, SessionAction, SessionEvent};
use bucketmount::sso::SsoProfile;
use bucketmount::supervisor::{Ctx, Effects, MountStatus, State};

const SECOND: u64 = 1_000_000_000;

struct Run {
    session: Session,
    status: MountStatus,
    ctx: Ctx,
}

impl Run {
    fn new(profile: Option<SsoProfile>) -> Run {
        Run {
            session: Session::new(30, profile),
            status: MountStatus::new(State::Starting, "Starting…", 0),
            ctx: Ctx::new("n"),
        }
    }

    fn event(&mut self, e: SessionEvent) -> (SessionAction, Effects) {
        self.session.next(e, &mut self.status, &mut self.ctx)
    }

    fn act(&mut self, e: SessionEvent) -> SessionAction {
        self.event(e).0
    }

    fn started() -> Run {
        let mut r = Run::new(None);
        assert!(matches!(r.act(SessionEvent::Begin { now: 0 }), SessionAction::Spawn));
        assert!(matches!(
            r.act(SessionEvent::Spawned { pid: 7, generation: 3, now: 0 }),
            SessionAction::Look
        ));
        r
    }

    /// One round in which the volume is there and nothing is pending.
    fn round(&mut self, now: u64, check: CheckAnswer, needs_login: bool) {
        match self.act(SessionEvent::Mounted { mounted: true, now }) {
            SessionAction::AskStats => {
                self.act(SessionEvent::Stats { answer: Ok(VfsStats::default()), now });
            }
            SessionAction::AskGeneration => {}
            other => panic!("{other:?}"),
        }
        match self.act(SessionEvent::Generation { generation: 3, now }) {
            SessionAction::Check { .. } => {
                self.act(SessionEvent::Checked { check, needs_login, now });
            }
            SessionAction::Sleep => {}
            other => panic!("{other:?}"),
        }
    }
}

fn reason(a: SessionAction) -> (String, bool) {
    match a {
        SessionAction::End { reason, terminate } => (reason, terminate),
        other => panic!("{other:?}"),
    }
}

fn work() -> SsoProfile {
    SsoProfile {
        profile: "work".into(),
        session: None,
        start_url: String::new(),
        region: String::new(),
        scopes: vec![],
    }
}

#[test]
fn session_begins() {
    let mut r = Run::started();
    assert_eq!(r.status.pid, Some(7));
    assert_eq!((r.status.state, r.status.detail.as_str()), (State::Starting, "Mounting…"));
    assert!(matches!(r.act(SessionEvent::Looked { look: Look::Running }), SessionAction::AskMounted));
}

#[test]
fn rclone_cannot_be_started() {
    let mut r = Run::new(None);
    let a = r.act(SessionEvent::SpawnFailed { error: "no".into(), now: 1 });
    assert_eq!(reason(a), ("Cannot start rclone: no".to_string(), false));
    assert_eq!((r.status.state, r.status.detail.as_str()), (State::Error, "Cannot start rclone: no"));
}

#[test]
fn process_ends() {
    let mut r = Run::started();
    let mut look = |look| reason(r.act(SessionEvent::Looked { look }));
    assert_eq!(look(Look::Stopping), ("Stopped".to_string(), true));
    assert_eq!(look(Look::Exited("exit status: 1".into())), ("rclone exited (exit status: 1)".to_string(), false));
    assert_eq!(look(Look::Failed("e".into())), ("rclone wait failed: e".to_string(), false));
    let mut r = Run::started();
    r.status.last_error = Some("403".to_string());
    assert_eq!(
        reason(r.act(SessionEvent::Looked { look: Look::Exited("s".into()) })).0,
        "rclone exited (s): 403"
    );
}

#[test]
fn volume_never_appears() {
    let mut r = Run::started();
    assert!(matches!(
        r.act(SessionEvent::Mounted { mounted: false, now: 45 * SECOND }),
        SessionAction::Sleep
    ));
    assert_eq!(
        reason(r.act(SessionEvent::Mounted { mounted: false, now: 45 * SECOND + 1 })),
        ("Mount did not come up in time".to_string(), true)
    );
    r.status.last_error = Some("e".to_string());
    assert_eq!(
        reason(r.act(SessionEvent::Mounted { mounted: false, now: 46 * SECOND })).0,
        "Mount did not come up: e"
    );
}

#[test]
fn volume_is_ejected() {
    let mut r = Run::started();
    r.round(0, CheckAnswer::Pending, false);
    assert!(r.status.mounted);
    let gone = |r: &mut Run, now| r.act(SessionEvent::Mounted { mounted: false, now });
    assert!(matches!(gone(&mut r, SECOND), SessionAction::Sleep));
    assert!(!r.status.mounted);
    r.round(2 * SECOND, CheckAnswer::Pending, false);
    assert!(matches!(gone(&mut r, 3 * SECOND), SessionAction::Sleep));
    assert!(matches!(gone(&mut r, 11 * SECOND), SessionAction::Sleep));
    assert_eq!(
        reason(gone(&mut r, 11 * SECOND + 1)),
        ("Volume was unmounted".to_string(), true)
    );
}

#[test]
fn rclone_hangs() {
    let mut r = Run::started();
    let mute = |r: &mut Run, now| {
        r.act(SessionEvent::Stats { answer: Err("timed out".into()), now })
    };
    assert!(matches!(mute(&mut r, 0), SessionAction::AskGeneration));
    assert!(matches!(mute(&mut r, 90 * SECOND), SessionAction::AskGeneration));
    assert_eq!(
        reason(mute(&mut r, 90 * SECOND + 1)),
        ("rclone stopped responding".to_string(), true)
    );
    r.act(SessionEvent::Stats { answer: Ok(VfsStats::default()), now: 91 * SECOND });
    assert!(matches!(mute(&mut r, 92 * SECOND), SessionAction::AskGeneration));
}

#[test]
fn queue_is_asked_for_every_five_seconds() {
    let mut r = Run::started();
    let look = |r: &mut Run, now| r.act(SessionEvent::Mounted { mounted: true, now });
    assert!(matches!(look(&mut r, 0), SessionAction::AskStats));
    assert!(matches!(look(&mut r, 5 * SECOND - 1), SessionAction::AskGeneration));
    assert!(matches!(look(&mut r, 5 * SECOND), SessionAction::AskStats));
}

#[test]
fn bucket_is_checked() {
    let mut r = Run::started();
    let ask = |r: &mut Run, generation, now| r.act(SessionEvent::Generation { generation, now });
    assert!(matches!(ask(&mut r, 3, 0), SessionAction::Check { start: true }));
    assert!(matches!(ask(&mut r, 3, 1), SessionAction::Check { start: false }));
    r.act(SessionEvent::Checked { check: CheckAnswer::Done(Ok(2)), needs_login: false, now: 0 });
    assert_eq!((r.status.state, r.status.detail.as_str()), (State::Connected, "Connected"));
    assert!(matches!(ask(&mut r, 3, 30 * SECOND - 1), SessionAction::Sleep));
    assert!(matches!(ask(&mut r, 4, 1), SessionAction::Check { start: true }));
    let failed = CheckAnswer::Done(Err("x".into()));
    r.act(SessionEvent::Checked { check: failed, needs_login: false, now: 0 });
    assert!(matches!(ask(&mut r, 4, 10 * SECOND - 1), SessionAction::Sleep));
    assert!(matches!(ask(&mut r, 4, 10 * SECOND), SessionAction::Check { start: true }));
    r.act(SessionEvent::Checked { check: CheckAnswer::Lost, needs_login: false, now: 10 * SECOND });
    assert_eq!(r.status.state, State::Disconnected);
}

#[test]
fn what_is_shown_of_a_mount() {
    let mut r = Run::started();
    r.round(0, CheckAnswer::Pending, false);
    assert_eq!((r.status.state, r.status.detail.as_str()), (State::Starting, "Mounted, checking bucket…"));
    let shows = |r: &mut Run, queued, errored| {
        r.session.stats = VfsStats { uploads_queued: queued, uploads_in_progress: 1, errored_files: errored };
        r.session.report()
    };
    r.session.reachable = Some(true);
    assert_eq!(shows(&mut r, 2, 0), (State::Syncing, "Uploading 3 file(s)".to_string()));
    r.session.reachable = Some(false);
    r.session.health_detail = "x".to_string();
    assert_eq!(
        shows(&mut r, 0, 0),
        (State::Disconnected, "Bucket unreachable: x · 1 file(s) waiting to upload".to_string())
    );
    r.session.signin_needed = true;
    assert_eq!(
        shows(&mut r, 0, 0),
        (
            State::SignInRequired,
            "AWS SSO session has expired · 1 file(s) waiting to upload".to_string()
        )
    );
    r.session.reachable = Some(true);
    r.session.stats = VfsStats { uploads_queued: 0, uploads_in_progress: 0, errored_files: 4 };
    assert_eq!(
        r.session.report(),
        (State::Connected, "Connected · 4 file(s) failed to upload, see log".to_string())
    );
}

#[test]
fn sign_in_is_asked_for() {
    let expired = || CheckAnswer::Done(Err("AWS SSO session expired or invalid".to_string()));
    let mut r = Run::started();
    r.round(0, expired(), true);
    assert_eq!(r.status.state, State::Disconnected);
    let mut r = Run::started();
    r.session.profile = Some(work());
    r.round(0, expired(), false);
    assert_eq!(r.status.state, State::SignInRequired);
    assert_eq!(r.status.detail, "AWS SSO session for profile 'work' has expired");
    let mut r = Run::started();
    r.session.profile = Some(work());
    r.round(0, CheckAnswer::Done(Err("other".to_string())), false);
    assert_eq!(r.status.state, State::Disconnected);
    let mut r = Run::started();
    r.session.profile = Some(work());
    r.round(0, CheckAnswer::Done(Err("other".to_string())), true);
    assert_eq!(r.status.state, State::SignInRequired);
}

#[test]
fn counts_are_limited() {
    assert!(can_count(&VfsStats { uploads_queued: u64::MAX, uploads_in_progress: 0, errored_files: 1 }));
    assert!(!can_count(&VfsStats { uploads_queued: u64::MAX, uploads_in_progress: 1, errored_files: 0 }));
}
