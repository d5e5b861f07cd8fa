//! One run of `rclone nfsmount`, from its start until it dies or has to be
//! killed: every second the process and the mount table are looked at, every
//! few seconds the remote-control API, and every so often the bucket itself.

use crate::number;
use crate::number::decimal_string;
use crate::rclone::VfsStats;
use crate::sso;
use crate::sso::{SsoModel, SsoProfile};
use crate::supervisor;
use crate::supervisor::{
    elapsed, signin_detail, Ctx, CtxModel, Effects, EffectsModel, MountStatus, State, StatusModel,
};
use crate::text;
use crate::text::same;
use std::collections::VecDeque;
use vstd::prelude::*;

verus! {

/// How long a volume may take to appear.
pub const MOUNT_APPEAR_TIMEOUT: u64 = 45_000_000_000;

/// How long a volume may be missing before the session is given up.
pub const UNMOUNTED_GRACE: u64 = 8_000_000_000;

/// How long rclone may leave questions unanswered.
pub const RC_HUNG_AFTER: u64 = 90_000_000_000;

/// How often rclone is asked for its upload queue.
pub const RC_POLL: u64 = 5_000_000_000;

/// How long to wait between two looks at the process, in milliseconds.
pub const LOOK_MILLIS: u64 = 1000;

/// How long to wait after the process has exited for its log to be read, in
/// milliseconds.
pub const LOG_SETTLE_MILLIS: u64 = 300;

/// How often at least the bucket is checked while it cannot be reached.
pub const RECHECK_SECS: u64 = 10;

// ---------------------------------------------------------------------------
// What happens, and what is to be done
// ---------------------------------------------------------------------------

/// What a look at the process showed.
#[derive(Debug)]
pub enum Look {
    /// The supervisor has to stop; the process was not looked at.
    Stopping,
    /// The process has exited, with this status.
    Exited(String),
    /// It could not be looked at, for this reason.
    Failed(String),
    Running,
}

/// What has become of a check of the bucket.
#[derive(Debug)]
pub enum CheckAnswer {
    /// It is still running.
    Pending,
    /// It has ended without a result.
    Lost,
    /// The number of entries, or why there was no listing.
    Done(Result<usize, String>),
}

#[derive(Debug)]
pub enum SessionEvent {
    /// The session begins.
    Begin { now: u64 },
    /// rclone was started. `generation` counts the sign-ins so far.
    Spawned { pid: u32, generation: u64, now: u64 },
    /// rclone could not be started.
    SpawnFailed { error: String, now: u64 },
    /// The process was looked at.
    Looked { look: Look },
    /// The mount table was looked at.
    Mounted { mounted: bool, now: u64 },
    /// rclone was asked for its upload queue.
    Stats { answer: Result<VfsStats, String>, now: u64 },
    /// The sign-ins were counted.
    Generation { generation: u64, now: u64 },
    /// The check of the bucket was looked at. `needs_login`: the profile behind
    /// the mount has no token that serves.
    Checked { check: CheckAnswer, needs_login: bool, now: u64 },
}

/// What is to be done next. Whatever it is, what comes of it is the next
/// event.
#[derive(Debug)]
pub enum SessionAction {
    Spawn,
    /// Look at the process.
    Look,
    /// Wait for `LOOK_MILLIS`, then look at the process.
    Sleep,
    /// Look at the mount table.
    AskMounted,
    /// Ask rclone for its upload queue.
    AskStats,
    /// Count the sign-ins.
    AskGeneration,
    /// Look at the check of the bucket, after starting one if there is none.
    Check { start: bool },
    /// The session is over, for this reason; end the process if it may still
    /// be running.
    End { reason: String, terminate: bool },
}

/// What a `SessionAction` says, as a value.
pub enum ActionModel {
    Spawn,
    Look,
    Sleep,
    AskMounted,
    AskStats,
    AskGeneration,
    Check { start: bool },
    End { reason: Seq<char>, terminate: bool },
}

impl View for SessionAction {
    type V = ActionModel;

    open spec fn view(&self) -> ActionModel {
        match self {
            SessionAction::Spawn => ActionModel::Spawn,
            SessionAction::Look => ActionModel::Look,
            SessionAction::Sleep => ActionModel::Sleep,
            SessionAction::AskMounted => ActionModel::AskMounted,
            SessionAction::AskStats => ActionModel::AskStats,
            SessionAction::AskGeneration => ActionModel::AskGeneration,
            SessionAction::Check { start } => ActionModel::Check { start: *start },
            SessionAction::End { reason, terminate } => ActionModel::End {
                reason: reason@,
                terminate: *terminate,
            },
        }
    }
}

// ---------------------------------------------------------------------------
// What a session remembers
// ---------------------------------------------------------------------------

#[derive(Debug)]
pub struct Session {
    /// How often the bucket is checked, in seconds.
    pub health_interval_secs: u64,
    /// The SSO profile behind the mount.
    pub profile: Option<SsoProfile>,
    pub started: u64,
    pub mounted_seen: bool,
    pub unmounted_since: Option<u64>,
    pub last_rc: Option<u64>,
    pub rc_fail_since: Option<u64>,
    pub stats: VfsStats,
    /// A check of the bucket is running.
    pub checking: bool,
    pub last_health: Option<u64>,
    /// None until the first bucket check has completed.
    pub reachable: Option<bool>,
    pub health_detail: String,
    pub signin_needed: bool,
    pub login_generation: u64,
}

/// What a `Session` says, as values.
#[verifier::ext_equal]
pub struct SessionModel {
    pub health_interval_secs: u64,
    pub profile: Option<SsoModel>,
    pub started: u64,
    pub mounted_seen: bool,
    pub unmounted_since: Option<u64>,
    pub last_rc: Option<u64>,
    pub rc_fail_since: Option<u64>,
    pub stats: VfsStats,
    pub checking: bool,
    pub last_health: Option<u64>,
    pub reachable: Option<bool>,
    pub health_detail: Seq<char>,
    pub signin_needed: bool,
    pub login_generation: u64,
}

impl View for Session {
    type V = SessionModel;

    open spec fn view(&self) -> SessionModel {
        SessionModel {
            health_interval_secs: self.health_interval_secs,
            profile: sso::opt_profile(self.profile),
            started: self.started,
            mounted_seen: self.mounted_seen,
            unmounted_since: self.unmounted_since,
            last_rc: self.last_rc,
            rc_fail_since: self.rc_fail_since,
            stats: self.stats,
            checking: self.checking,
            last_health: self.last_health,
            reachable: self.reachable,
            health_detail: self.health_detail@,
            signin_needed: self.signin_needed,
            login_generation: self.login_generation,
        }
    }
}

/// The number of files that are being or wait to be uploaded.
pub open spec fn pending(stats: VfsStats) -> int {
    stats.uploads_queued + stats.uploads_in_progress
}

/// Everything after one event.
#[verifier::ext_equal]
pub struct Outcome {
    pub session: SessionModel,
    pub status: StatusModel,
    pub ctx: CtxModel,
    pub action: ActionModel,
    pub effects: EffectsModel,
}

/// It is time for something that was last done at `last` and is to be done
/// every `every` nanoseconds.
pub open spec fn due(last: Option<u64>, every: int, now: u64) -> bool {
    match last {
        Some(t) => supervisor::since(t, now) >= every,
        None => true,
    }
}

/// The first time of a row that ends `now`.
pub open spec fn first_time(earlier: Option<u64>, now: u64) -> u64 {
    match earlier {
        Some(t) => t,
        None => now,
    }
}

impl SessionModel {
    pub open spec fn fresh(health_interval_secs: u64, profile: Option<SsoModel>) -> SessionModel {
        SessionModel {
            health_interval_secs,
            profile,
            started: 0,
            mounted_seen: false,
            unmounted_since: None,
            last_rc: None,
            rc_fail_since: None,
            stats: VfsStats { uploads_queued: 0, uploads_in_progress: 0, errored_files: 0 },
            checking: false,
            last_health: None,
            reachable: None,
            health_detail: Seq::empty(),
            signin_needed: false,
            login_generation: 0,
        }
    }

    /// The time between two checks of the bucket: shorter while it cannot be
    /// reached.
    pub open spec fn check_every(self) -> int {
        if self.reachable == Some(false) && self.health_interval_secs > RECHECK_SECS {
            RECHECK_SECS * supervisor::SECOND
        } else {
            self.health_interval_secs * supervisor::SECOND
        }
    }

    /// What is added for files that wait for the bucket.
    pub open spec fn waiting_text(self) -> Seq<char> {
        if pending(self.stats) > 0 {
            " · "@ + number::decimal(pending(self.stats) as nat) + " file(s) waiting to upload"@
        } else {
            Seq::empty()
        }
    }

    /// What is shown of the mounted volume.
    pub open spec fn verdict(self) -> (State, Seq<char>) {
        if self.reachable is None {
            (State::Starting, "Mounted, checking bucket…"@)
        } else if self.reachable == Some(false) && self.signin_needed {
            (State::SignInRequired, supervisor::expired_text(self.profile) + self.waiting_text())
        } else if self.reachable == Some(false) {
            (
                State::Disconnected,
                "Bucket unreachable: "@ + self.health_detail + self.waiting_text(),
            )
        } else if pending(self.stats) > 0 {
            (
                State::Syncing,
                "Uploading "@ + number::decimal(pending(self.stats) as nat) + " file(s)"@,
            )
        } else if self.stats.errored_files > 0 {
            (
                State::Connected,
                "Connected · "@ + number::decimal(self.stats.errored_files as nat)
                    + " file(s) failed to upload, see log"@,
            )
        } else {
            (State::Connected, "Connected"@)
        }
    }

    /// The session goes on, or ends, with nothing new to show.
    pub open spec fn silent(self, status: StatusModel, ctx: CtxModel, action: ActionModel) -> Outcome {
        Outcome { session: self, status, ctx, action, effects: EffectsModel::none() }
    }

    /// `state` and `detail` are shown.
    pub open spec fn shown(
        self,
        status: StatusModel,
        ctx: CtxModel,
        state: State,
        detail: Seq<char>,
        now: u64,
        action: ActionModel,
    ) -> Outcome {
        Outcome {
            session: self,
            status: status.showing(state, detail, now),
            ctx: ctx.after(status, state, detail, now),
            action,
            effects: ctx.effects(status, state, detail, now),
        }
    }

    /// A round of questions is over: what they showed is shown.
    pub open spec fn concluded(self, status: StatusModel, ctx: CtxModel, now: u64) -> Outcome {
        let counted = StatusModel {
            uploads_pending: pending(self.stats) as u64,
            errored_files: self.stats.errored_files,
            ..status
        };
        self.shown(counted, ctx, self.verdict().0, self.verdict().1, now, ActionModel::Sleep)
    }

    pub open spec fn on_look(self, status: StatusModel, ctx: CtxModel, look: Look) -> Outcome {
        let action = match look {
            Look::Stopping => ActionModel::End { reason: "Stopped"@, terminate: true },
            Look::Exited(st) => ActionModel::End {
                reason: match status.last_error {
                    Some(e) => "rclone exited ("@ + st@ + "): "@ + e,
                    None => "rclone exited ("@ + st@ + ")"@,
                },
                terminate: false,
            },
            Look::Failed(e) => ActionModel::End {
                reason: "rclone wait failed: "@ + e@,
                terminate: false,
            },
            Look::Running => ActionModel::AskMounted,
        };
        self.silent(status, ctx, action)
    }

    /// The mount table shows the volume, or does not.
    pub open spec fn on_mounted(
        self,
        status: StatusModel,
        ctx: CtxModel,
        mounted: bool,
        now: u64,
    ) -> Outcome {
        let status = StatusModel { mounted, ..status };
        if mounted {
            let seen = SessionModel { mounted_seen: true, unmounted_since: None, ..self };
            if due(self.last_rc, RC_POLL as int, now) {
                SessionModel { last_rc: Some(now), ..seen }.silent(status, ctx, ActionModel::AskStats)
            } else {
                seen.silent(status, ctx, ActionModel::AskGeneration)
            }
        } else if self.mounted_seen {
            let gone = first_time(self.unmounted_since, now);
            let s = SessionModel { unmounted_since: Some(gone), ..self };
            if supervisor::since(gone, now) > UNMOUNTED_GRACE {
                s.silent(
                    status,
                    ctx,
                    ActionModel::End { reason: "Volume was unmounted"@, terminate: true },
                )
            } else {
                s.silent(status, ctx, ActionModel::Sleep)
            }
        } else if supervisor::since(self.started, now) > MOUNT_APPEAR_TIMEOUT {
            let reason = match status.last_error {
                Some(e) => "Mount did not come up: "@ + e,
                None => "Mount did not come up in time"@,
            };
            self.silent(status, ctx, ActionModel::End { reason, terminate: true })
        } else {
            self.shown(status, ctx, State::Starting, "Mounting…"@, now, ActionModel::Sleep)
        }
    }

    /// rclone has answered, or has not.
    pub open spec fn on_stats(
        self,
        status: StatusModel,
        ctx: CtxModel,
        answer: Result<VfsStats, String>,
        now: u64,
    ) -> Outcome {
        match answer {
            Ok(stats) => SessionModel { stats, rc_fail_since: None, ..self }.silent(
                status,
                ctx,
                ActionModel::AskGeneration,
            ),
            Err(_) => {
                let mute = first_time(self.rc_fail_since, now);
                let s = SessionModel { rc_fail_since: Some(mute), ..self };
                if supervisor::since(mute, now) > RC_HUNG_AFTER {
                    s.silent(
                        status,
                        ctx,
                        ActionModel::End { reason: "rclone stopped responding"@, terminate: true },
                    )
                } else {
                    s.silent(status, ctx, ActionModel::AskGeneration)
                }
            },
        }
    }

    /// A fresh sign-in makes a check of the bucket due right away.
    pub open spec fn on_generation(
        self,
        status: StatusModel,
        ctx: CtxModel,
        generation: u64,
        now: u64,
    ) -> Outcome {
        let s = if generation != self.login_generation {
            SessionModel { login_generation: generation, last_health: None, ..self }
        } else {
            self
        };
        if s.checking {
            s.silent(status, ctx, ActionModel::Check { start: false })
        } else if due(s.last_health, s.check_every(), now) {
            SessionModel { checking: true, ..s }.silent(
                status,
                ctx,
                ActionModel::Check { start: true },
            )
        } else {
            s.concluded(status, ctx, now)
        }
    }

    pub open spec fn on_check(
        self,
        status: StatusModel,
        ctx: CtxModel,
        answer: CheckAnswer,
        needs_login: bool,
        now: u64,
    ) -> Outcome {
        let s = match answer {
            CheckAnswer::Pending => self,
            CheckAnswer::Lost => SessionModel { checking: false, last_health: Some(now), ..self },
            CheckAnswer::Done(Ok(_)) => SessionModel {
                checking: false,
                last_health: Some(now),
                reachable: Some(true),
                health_detail: Seq::empty(),
                signin_needed: false,
                ..self
            },
            CheckAnswer::Done(Err(e)) => SessionModel {
                checking: false,
                last_health: Some(now),
                reachable: Some(false),
                health_detail: e@,
                signin_needed: self.profile is Some && (e@ == sso::SESSION_EXPIRED@ || needs_login),
                ..self
            },
        };
        s.concluded(status, ctx, now)
    }

    /// What one event does.
    pub open spec fn step(self, event: SessionEvent, status: StatusModel, ctx: CtxModel) -> Outcome {
        match event {
            SessionEvent::Begin { now } => self.shown(
                status,
                ctx,
                State::Starting,
                "Mounting…"@,
                now,
                ActionModel::Spawn,
            ),
            SessionEvent::Spawned { pid, generation, now } => SessionModel {
                started: now,
                login_generation: generation,
                ..self
            }.silent(
                StatusModel { pid: Some(pid), log_tail: Seq::empty(), ..status },
                ctx,
                ActionModel::Look,
            ),
            SessionEvent::SpawnFailed { error, now } => {
                let reason = "Cannot start rclone: "@ + error@;
                self.shown(
                    status,
                    ctx,
                    State::Error,
                    reason,
                    now,
                    ActionModel::End { reason, terminate: false },
                )
            },
            SessionEvent::Looked { look } => self.on_look(status, ctx, look),
            SessionEvent::Mounted { mounted, now } => self.on_mounted(status, ctx, mounted, now),
            SessionEvent::Stats { answer, now } => self.on_stats(status, ctx, answer, now),
            SessionEvent::Generation { generation, now } => self.on_generation(
                status,
                ctx,
                generation,
                now,
            ),
            SessionEvent::Checked { check, needs_login, now } => self.on_check(
                status,
                ctx,
                check,
                needs_login,
                now,
            ),
        }
    }

    /// The files that wait can be counted.
    pub open spec fn countable(self) -> bool {
        pending(self.stats) <= u64::MAX
    }
}

/// The files that the event tells of can be counted.
pub open spec fn event_countable(event: SessionEvent) -> bool {
    event matches SessionEvent::Stats { answer: Ok(stats), .. } ==> pending(stats) <= u64::MAX
}

/// Whether the files that wait can be counted.
pub fn can_count(stats: &VfsStats) -> (r: bool)
    ensures
        r == (pending(*stats) <= u64::MAX),
{
    stats.uploads_queued <= u64::MAX - stats.uploads_in_progress
}

fn is_due(last: Option<u64>, every: u128, now: u64) -> (r: bool)
    ensures
        r == due(last, every as int, now),
{
    match last {
        Some(t) => elapsed(t, now) as u128 >= every,
        None => true,
    }
}

fn end(reason: &str, terminate: bool) -> (r: SessionAction)
    ensures
        r@ == (ActionModel::End { reason: reason@, terminate }),
{
    SessionAction::End { reason: reason.to_owned(), terminate }
}

impl Session {
    pub fn new(health_interval_secs: u64, profile: Option<SsoProfile>) -> (r: Self)
        ensures
            r@ == SessionModel::fresh(health_interval_secs, sso::opt_profile(profile)),
            r@.countable(),
    {
        let health_detail = String::new();
        assert(health_detail@ =~= Seq::<char>::empty());
        Session {
            health_interval_secs,
            profile,
            started: 0,
            mounted_seen: false,
            unmounted_since: None,
            last_rc: None,
            rc_fail_since: None,
            stats: VfsStats::default(),
            checking: false,
            last_health: None,
            reachable: None,
            health_detail,
            signin_needed: false,
            login_generation: 0,
        }
    }

    fn pending(&self) -> (r: u64)
        requires
            self@.countable(),
        ensures
            r == pending(self@.stats),
    {
        self.stats.uploads_queued + self.stats.uploads_in_progress
    }

    fn waiting(&self) -> (r: String)
        requires
            self@.countable(),
        ensures
            r@ == self@.waiting_text(),
    {
        let n: u64 = self.pending();
        if n > 0 {
            " · ".to_owned().concat(decimal_string(n).as_str()).concat(" file(s) waiting to upload")
        } else {
            let r = String::new();
            assert(r@ =~= Seq::<char>::empty());
            r
        }
    }

    /// What is to be shown of the mounted volume.
    pub fn report(&self) -> (r: (State, String))
        requires
            self@.countable(),
        ensures
            r.0 == self@.verdict().0,
            r.1@ == self@.verdict().1,
    {
        match self.reachable {
            None => (State::Starting, "Mounted, checking bucket…".to_owned()),
            Some(false) => if self.signin_needed {
                let detail = signin_detail(self.profile.as_ref());
                (State::SignInRequired, detail.concat(self.waiting().as_str()))
            } else {
                (
                    State::Disconnected,
                    "Bucket unreachable: ".to_owned().concat(self.health_detail.as_str()).concat(
                        self.waiting().as_str(),
                    ),
                )
            },
            Some(true) => if self.pending() > 0 {
                (
                    State::Syncing,
                    "Uploading ".to_owned().concat(decimal_string(self.pending()).as_str()).concat(
                        " file(s)",
                    ),
                )
            } else if self.stats.errored_files > 0 {
                (
                    State::Connected,
                    "Connected · ".to_owned().concat(
                        decimal_string(self.stats.errored_files).as_str(),
                    ).concat(" file(s) failed to upload, see log"),
                )
            } else {
                (State::Connected, "Connected".to_owned())
            },
        }
    }

    fn conclude(&self, status: &mut MountStatus, ctx: &mut Ctx, now: u64) -> (r: (
        SessionAction,
        Effects,
    ))
        requires
            self@.countable(),
        ensures
            (Outcome {
                session: self@,
                status: final(status)@,
                ctx: final(ctx)@,
                action: r.0@,
                effects: r.1@,
            }) == self@.concluded(old(status)@, old(ctx)@, now),
    {
        status.uploads_pending = self.pending();
        status.errored_files = self.stats.errored_files;
        let (state, detail) = self.report();
        let effects = ctx.set(status, state, detail.as_str(), now);
        (SessionAction::Sleep, effects)
    }

    fn look(&self, status: &MountStatus, look: Look) -> (r: SessionAction)
        ensures
            forall|ctx: CtxModel| #[trigger]
                self@.on_look(status@, ctx, look) == self@.silent(status@, ctx, r@),
    {
        match look {
            Look::Stopping => end("Stopped", true),
            Look::Exited(st) => {
                let exited = "rclone exited (".to_owned().concat(st.as_str());
                match &status.last_error {
                    Some(e) => end(exited.concat("): ").concat(e.as_str()).as_str(), false),
                    None => end(exited.concat(")").as_str(), false),
                }
            },
            Look::Failed(e) => end("rclone wait failed: ".to_owned().concat(e.as_str()).as_str(), false),
            Look::Running => SessionAction::AskMounted,
        }
    }

    fn mounted(&mut self, status: &mut MountStatus, ctx: &mut Ctx, mounted: bool, now: u64) -> (r: (
        SessionAction,
        Effects,
    ))
        ensures
            (Outcome {
                session: final(self)@,
                status: final(status)@,
                ctx: final(ctx)@,
                action: r.0@,
                effects: r.1@,
            }) == old(self)@.on_mounted(old(status)@, old(ctx)@, mounted, now),
    {
        status.mounted = mounted;
        if mounted {
            self.mounted_seen = true;
            self.unmounted_since = None;
            if is_due(self.last_rc, RC_POLL as u128, now) {
                self.last_rc = Some(now);
                (SessionAction::AskStats, Effects::none())
            } else {
                (SessionAction::AskGeneration, Effects::none())
            }
        } else if self.mounted_seen {
            let gone: u64 = match self.unmounted_since {
                Some(t) => t,
                None => now,
            };
            self.unmounted_since = Some(gone);
            if elapsed(gone, now) > UNMOUNTED_GRACE {
                (end("Volume was unmounted", true), Effects::none())
            } else {
                (SessionAction::Sleep, Effects::none())
            }
        } else if elapsed(self.started, now) > MOUNT_APPEAR_TIMEOUT {
            let action = match &status.last_error {
                Some(e) => end(
                    "Mount did not come up: ".to_owned().concat(e.as_str()).as_str(),
                    true,
                ),
                None => end("Mount did not come up in time", true),
            };
            (action, Effects::none())
        } else {
            let effects = ctx.set(status, State::Starting, "Mounting…", now);
            (SessionAction::Sleep, effects)
        }
    }

    fn answered(&mut self, answer: Result<VfsStats, String>, now: u64) -> (r: SessionAction)
        requires
            old(self)@.countable(),
            answer matches Ok(stats) ==> pending(stats) <= u64::MAX,
        ensures
            final(self)@.countable(),
            forall|status: StatusModel, ctx: CtxModel| #[trigger]
                old(self)@.on_stats(status, ctx, answer, now) == final(self)@.silent(
                    status,
                    ctx,
                    r@,
                ),
    {
        match answer {
            Ok(stats) => {
                self.stats = stats;
                self.rc_fail_since = None;
                SessionAction::AskGeneration
            },
            Err(_) => {
                let mute: u64 = match self.rc_fail_since {
                    Some(t) => t,
                    None => now,
                };
                self.rc_fail_since = Some(mute);
                if elapsed(mute, now) > RC_HUNG_AFTER {
                    end("rclone stopped responding", true)
                } else {
                    SessionAction::AskGeneration
                }
            },
        }
    }

    fn check_every(&self) -> (r: u128)
        ensures
            r == self@.check_every(),
    {
        let secs: u64 = match self.reachable {
            Some(false) => if self.health_interval_secs > RECHECK_SECS {
                RECHECK_SECS
            } else {
                self.health_interval_secs
            },
            _ => self.health_interval_secs,
        };
        secs as u128 * supervisor::SECOND as u128
    }

    fn counted(
        &mut self,
        status: &mut MountStatus,
        ctx: &mut Ctx,
        generation: u64,
        now: u64,
    ) -> (r: (SessionAction, Effects))
        requires
            old(self)@.countable(),
        ensures
            final(self)@.countable(),
            (Outcome {
                session: final(self)@,
                status: final(status)@,
                ctx: final(ctx)@,
                action: r.0@,
                effects: r.1@,
            }) == old(self)@.on_generation(old(status)@, old(ctx)@, generation, now),
    {
        if generation != self.login_generation {
            self.login_generation = generation;
            self.last_health = None;
        }
        if self.checking {
            (SessionAction::Check { start: false }, Effects::none())
        } else if is_due(self.last_health, self.check_every(), now) {
            self.checking = true;
            (SessionAction::Check { start: true }, Effects::none())
        } else {
            self.conclude(status, ctx, now)
        }
    }

    fn checked(
        &mut self,
        status: &mut MountStatus,
        ctx: &mut Ctx,
        answer: CheckAnswer,
        needs_login: bool,
        now: u64,
    ) -> (r: (SessionAction, Effects))
        requires
            old(self)@.countable(),
        ensures
            final(self)@.countable(),
            (Outcome {
                session: final(self)@,
                status: final(status)@,
                ctx: final(ctx)@,
                action: r.0@,
                effects: r.1@,
            }) == old(self)@.on_check(old(status)@, old(ctx)@, answer, needs_login, now),
    {
        match answer {
            CheckAnswer::Pending => {},
            CheckAnswer::Lost => {
                self.checking = false;
                self.last_health = Some(now);
            },
            CheckAnswer::Done(Ok(_)) => {
                self.checking = false;
                self.last_health = Some(now);
                self.reachable = Some(true);
                self.health_detail = String::new();
                assert(self.health_detail@ =~= Seq::<char>::empty());
                self.signin_needed = false;
            },
            CheckAnswer::Done(Err(e)) => {
                self.checking = false;
                self.last_health = Some(now);
                self.reachable = Some(false);
                self.signin_needed = self.profile.is_some() && (same(
                    e.as_str(),
                    sso::SESSION_EXPIRED,
                ) || needs_login);
                self.health_detail = e;
            },
        }
        self.conclude(status, ctx, now)
    }

    /// Takes in one event: brings the status up to date, and says what is to
    /// be done next and what the user is to be told.
    pub fn next(&mut self, event: SessionEvent, status: &mut MountStatus, ctx: &mut Ctx) -> (r: (
        SessionAction,
        Effects,
    ))
        requires
            old(self)@.countable(),
            event_countable(event),
        ensures
            final(self)@.countable(),
            (Outcome {
                session: final(self)@,
                status: final(status)@,
                ctx: final(ctx)@,
                action: r.0@,
                effects: r.1@,
            }) == old(self)@.step(event, old(status)@, old(ctx)@),
    {
        match event {
            SessionEvent::Begin { now } => {
                let effects = ctx.set(status, State::Starting, "Mounting…", now);
                (SessionAction::Spawn, effects)
            },
            SessionEvent::Spawned { pid, generation, now } => {
                self.started = now;
                self.login_generation = generation;
                status.pid = Some(pid);
                status.log_tail = VecDeque::new();
                assert(text::views(status.log_tail@) =~= Seq::<Seq<char>>::empty());
                (SessionAction::Look, Effects::none())
            },
            SessionEvent::SpawnFailed { error, now } => {
                let reason = "Cannot start rclone: ".to_owned().concat(error.as_str());
                let effects = ctx.set(status, State::Error, reason.as_str(), now);
                (SessionAction::End { reason, terminate: false }, effects)
            },
            SessionEvent::Looked { look } => (self.look(status, look), Effects::none()),
            SessionEvent::Mounted { mounted, now } => self.mounted(status, ctx, mounted, now),
            SessionEvent::Stats { answer, now } => (self.answered(answer, now), Effects::none()),
            SessionEvent::Generation { generation, now } => self.counted(
                status,
                ctx,
                generation,
                now,
            ),
            SessionEvent::Checked { check, needs_login, now } => self.checked(
                status,
                ctx,
                check,
                needs_login,
                now,
            ),
        }
    }
}

// ---------------------------------------------------------------------------
// What holds of every session
// ---------------------------------------------------------------------------

/// An event, and what was shown and remembered when it came.
pub struct Moment {
    pub event: SessionEvent,
    pub status: StatusModel,
    pub ctx: CtxModel,
}

impl SessionModel {
    /// What one moment does.
    pub open spec fn at(self, m: Moment) -> Outcome {
        self.step(m.event, m.status, m.ctx)
    }

    /// The session after the first `k` of the moments.
    pub open spec fn after(self, moments: Seq<Moment>, k: int) -> SessionModel
        decreases k,
    {
        if k <= 0 {
            self
        } else {
            self.after(moments, k - 1).at(moments[k - 1]).session
        }
    }

    /// What is to be done after moment `k`.
    pub open spec fn action_at(self, moments: Seq<Moment>, k: int) -> ActionModel {
        self.after(moments, k).at(moments[k]).action
    }
}

/// The mount table did not show the volume.
pub open spec fn missing(m: Moment) -> bool {
    m.event matches SessionEvent::Mounted { mounted, .. } && !mounted
}

/// The mount table showed the volume.
pub open spec fn present(m: Moment) -> bool {
    m.event matches SessionEvent::Mounted { mounted, .. } && mounted
}

/// rclone did not answer.
pub open spec fn mute(m: Moment) -> bool {
    m.event matches SessionEvent::Stats { answer, .. } && answer is Err
}

/// rclone answered.
pub open spec fn answering(m: Moment) -> bool {
    m.event matches SessionEvent::Stats { answer, .. } && answer is Ok
}

/// A check of the bucket came to an end, with or without success.
pub open spec fn check_result(m: Moment) -> Option<bool> {
    match m.event {
        SessionEvent::Checked { check: CheckAnswer::Done(r), .. } => Some(r is Ok),
        _ => None,
    }
}

/// When the mount table or rclone was asked.
pub open spec fn asked_at(m: Moment) -> u64 {
    match m.event {
        SessionEvent::Mounted { now, .. } => now,
        SessionEvent::Stats { now, .. } => now,
        _ => 0,
    }
}

/// From moment `j` until before moment `k` the volume was missing.
pub open spec fn missing_between(moments: Seq<Moment>, j: int, k: int) -> bool {
    0 <= j < k && missing(moments[j]) && forall|i: int|
        j <= i < k ==> !present(#[trigger] moments[i])
}

/// From moment `j` until before moment `k` rclone was mute.
pub open spec fn mute_between(moments: Seq<Moment>, j: int, k: int) -> bool {
    0 <= j < k && mute(moments[j]) && forall|i: int|
        j <= i < k ==> !answering(#[trigger] moments[i])
}

/// What one moment does to what a session remembers.
proof fn lemma_step(s: SessionModel, m: Moment)
    ensures
        s.at(m).session.profile == s.profile,
        s.at(m).session.reachable == (match check_result(m) {
            Some(b) => Some(b),
            None => s.reachable,
        }),
        s.at(m).session.signin_needed ==> s.signin_needed || s.profile is Some,
        s.at(m).session.unmounted_since == (if present(m) {
            None
        } else if missing(m) && s.mounted_seen {
            Some(first_time(s.unmounted_since, asked_at(m)))
        } else {
            s.unmounted_since
        }),
        s.at(m).session.rc_fail_since == (if answering(m) {
            None
        } else if mute(m) {
            Some(first_time(s.rc_fail_since, asked_at(m)))
        } else {
            s.rc_fail_since
        }),
{
    match m.event {
        SessionEvent::Mounted { mounted, now } => {},
        SessionEvent::Stats { answer, now } => {},
        SessionEvent::Generation { generation, now } => {},
        SessionEvent::Checked { check, needs_login, now } => {},
        _ => {},
    }
}

proof fn lemma_missing_since(s: SessionModel, moments: Seq<Moment>, k: int)
    requires
        s.unmounted_since is None,
        0 <= k <= moments.len(),
    ensures
        s.after(moments, k).unmounted_since matches Some(t) ==> exists|j: int|
            #[trigger] missing_between(moments, j, k) && asked_at(moments[j]) == t,
    decreases k,
{
    if k > 0 {
        lemma_missing_since(s, moments, k - 1);
        lemma_step(s.after(moments, k - 1), moments[k - 1]);
        let before = s.after(moments, k - 1);
        let now = s.after(moments, k);
        if now.unmounted_since is Some {
            let t = now.unmounted_since->Some_0;
            assert(!present(moments[k - 1]));
            if before.unmounted_since == Some(t) {
                let j = choose|j: int| #[trigger]
                    missing_between(moments, j, k - 1) && asked_at(moments[j]) == t;
                assert(missing_between(moments, j, k));
            } else {
                assert(missing_between(moments, k - 1, k));
            }
        }
    }
}

proof fn lemma_mute_since(s: SessionModel, moments: Seq<Moment>, k: int)
    requires
        s.rc_fail_since is None,
        0 <= k <= moments.len(),
    ensures
        s.after(moments, k).rc_fail_since matches Some(t) ==> exists|j: int|
            #[trigger] mute_between(moments, j, k) && asked_at(moments[j]) == t,
    decreases k,
{
    if k > 0 {
        lemma_mute_since(s, moments, k - 1);
        lemma_step(s.after(moments, k - 1), moments[k - 1]);
        let before = s.after(moments, k - 1);
        let now = s.after(moments, k);
        if now.rc_fail_since is Some {
            let t = now.rc_fail_since->Some_0;
            assert(!answering(moments[k - 1]));
            if before.rc_fail_since == Some(t) {
                let j = choose|j: int| #[trigger]
                    mute_between(moments, j, k - 1) && asked_at(moments[j]) == t;
                assert(mute_between(moments, j, k));
            } else {
                assert(mute_between(moments, k - 1, k));
            }
        }
    }
}

/// A session in which the volume was seen is given up over a missing volume
/// only when the mount table has not shown it for more than eight seconds on
/// end.
pub proof fn lemma_unmounted_for_long(
    health_interval_secs: u64,
    profile: Option<SsoModel>,
    moments: Seq<Moment>,
    k: int,
)
    requires
        0 <= k < moments.len(),
        missing(moments[k]),
        SessionModel::fresh(health_interval_secs, profile).after(moments, k).mounted_seen,
        SessionModel::fresh(health_interval_secs, profile).action_at(moments, k) is End,
    ensures
        exists|j: int|
            #[trigger] missing_between(moments, j, k + 1) && asked_at(moments[k]) - asked_at(
                moments[j],
            ) > UNMOUNTED_GRACE,
{
    let s = SessionModel::fresh(health_interval_secs, profile);
    lemma_missing_since(s, moments, k + 1);
    let t = s.after(moments, k + 1).unmounted_since->Some_0;
    let j = choose|j: int| #[trigger]
        missing_between(moments, j, k + 1) && asked_at(moments[j]) == t;
    assert(missing_between(moments, j, k + 1));
}

/// rclone is given up as hung only when it has left every question of more
/// than ninety seconds unanswered.
pub proof fn lemma_mute_for_long(
    health_interval_secs: u64,
    profile: Option<SsoModel>,
    moments: Seq<Moment>,
    k: int,
)
    requires
        0 <= k < moments.len(),
        moments[k].event is Stats,
        SessionModel::fresh(health_interval_secs, profile).action_at(moments, k) is End,
    ensures
        exists|j: int|
            #[trigger] mute_between(moments, j, k + 1) && asked_at(moments[k]) - asked_at(
                moments[j],
            ) > RC_HUNG_AFTER,
{
    let s = SessionModel::fresh(health_interval_secs, profile);
    lemma_mute_since(s, moments, k + 1);
    let t = s.after(moments, k + 1).rc_fail_since->Some_0;
    let j = choose|j: int| #[trigger] mute_between(moments, j, k + 1) && asked_at(moments[j]) == t;
    assert(mute_between(moments, j, k + 1));
}

/// What the last of the first `k` moments that ended a check showed.
pub open spec fn last_check(moments: Seq<Moment>, k: int) -> Option<bool>
    decreases k,
{
    if k <= 0 {
        None
    } else if check_result(moments[k - 1]) is Some {
        check_result(moments[k - 1])
    } else {
        last_check(moments, k - 1)
    }
}

/// The bucket counts as reachable by the last check that came to an end; a
/// mount is shown as healthy only when that one succeeded, and as one that
/// has to be signed in to only when it failed and a profile is behind it.
pub proof fn lemma_verdict_follows_checks(
    health_interval_secs: u64,
    profile: Option<SsoModel>,
    moments: Seq<Moment>,
    k: int,
)
    requires
        0 <= k <= moments.len(),
    ensures
        ({
            let s = SessionModel::fresh(health_interval_secs, profile).after(moments, k);
            &&& s.reachable == last_check(moments, k)
            &&& s.verdict().0.healthy() <==> last_check(moments, k) == Some(true)
            &&& s.verdict().0.problem() <==> last_check(moments, k) == Some(false)
            &&& s.verdict().0 == State::SignInRequired ==> profile is Some
        }),
{
    lemma_reachable(SessionModel::fresh(health_interval_secs, profile), moments, k);
    let s = SessionModel::fresh(health_interval_secs, profile).after(moments, k);
    if s.reachable is Some {
        assert(s.reachable == Some(true) || s.reachable == Some(false));
    }
}

proof fn lemma_reachable(s: SessionModel, moments: Seq<Moment>, k: int)
    requires
        0 <= k <= moments.len(),
        s.reachable is None,
        !s.signin_needed,
    ensures
        s.after(moments, k).reachable == last_check(moments, k),
        s.after(moments, k).profile == s.profile,
        s.after(moments, k).signin_needed ==> s.profile is Some,
    decreases k,
{
    if k > 0 {
        lemma_reachable(s, moments, k - 1);
        lemma_step(s.after(moments, k - 1), moments[k - 1]);
    }
}

/// After a fresh sign-in the bucket is checked right away, unless a check is
/// running; a check is started only when none is running; and while the
/// bucket cannot be reached the checks come at least every ten seconds and at
/// no longer intervals than otherwise.
pub proof fn lemma_checks(s: SessionModel, status: StatusModel, ctx: CtxModel, generation: u64, now: u64)
    ensures
        generation != s.login_generation ==> s.on_generation(status, ctx, generation, now).action
            == (ActionModel::Check { start: !s.checking }),
        s.on_generation(status, ctx, generation, now).action == (ActionModel::Check {
            start: true,
        }) ==> !s.checking && s.on_generation(status, ctx, generation, now).session.checking,
        s.reachable == Some(false) ==> s.check_every() <= RECHECK_SECS * supervisor::SECOND,
        s.check_every() <= s.health_interval_secs * supervisor::SECOND,
{
}

/// A check that fails while all seems well makes the mount a problem at once,
/// and the user is told, unless they were told of another one a short while
/// ago; without an SSO profile it is the connection that is lost.
pub proof fn lemma_lost_connection_is_told(
    s: SessionModel,
    status: StatusModel,
    ctx: CtxModel,
    e: String,
    needs_login: bool,
    now: u64,
)
    requires
        status.state.healthy(),
    ensures
        ({
            let o = s.on_check(status, ctx, CheckAnswer::Done(Err(e)), needs_login, now);
            &&& o.status.state.problem()
            &&& o.effects.refresh
            &&& !ctx.throttled(now) ==> o.effects.notice is Some
            &&& s.profile is None ==> o.status.state == State::Disconnected
        }),
{
}

/// A check that succeeds makes the mount healthy at once, and the user is told
/// if it was in trouble and had been healthy before.
pub proof fn lemma_restored_connection_is_told(
    s: SessionModel,
    status: StatusModel,
    ctx: CtxModel,
    entries: usize,
    needs_login: bool,
    now: u64,
)
    ensures
        ({
            let o = s.on_check(status, ctx, CheckAnswer::Done(Ok(entries)), needs_login, now);
            &&& o.status.state.healthy()
            &&& status.state.problem() && ctx.ever_healthy ==> o.effects.notice == Some(
                ctx.name + ": connection restored"@,
            )
        }),
{
}

/// A session does end when its time is up: over a volume that did not appear
/// within 45 seconds, one that was gone for more than eight, and an rclone that
/// was mute for more than ninety. The process is ended with it.
pub proof fn lemma_gives_up(
    s: SessionModel,
    status: StatusModel,
    ctx: CtxModel,
    t: u64,
    now: u64,
    e: String,
)
    requires
        t <= now,
    ensures
        !s.mounted_seen && s.started == t && now - t > MOUNT_APPEAR_TIMEOUT ==> (s.on_mounted(
            status,
            ctx,
            false,
            now,
        ).action matches ActionModel::End { terminate, .. } && terminate),
        s.mounted_seen && s.unmounted_since == Some(t) && now - t > UNMOUNTED_GRACE ==> s.on_mounted(
            status,
            ctx,
            false,
            now,
        ).action == (ActionModel::End { reason: "Volume was unmounted"@, terminate: true }),
        s.rc_fail_since == Some(t) && now - t > RC_HUNG_AFTER ==> s.on_stats(
            status,
            ctx,
            Err(e),
            now,
        ).action == (ActionModel::End { reason: "rclone stopped responding"@, terminate: true }),
{
}

/// Once it has to stop, a session ends with the next look at the process, and
/// the process is ended with it.
pub proof fn lemma_stops(s: SessionModel, status: StatusModel, ctx: CtxModel)
    ensures
        s.on_look(status, ctx, Look::Stopping).action == (ActionModel::End {
            reason: "Stopped"@,
            terminate: true,
        }),
{
}

} // verus!
