//! Keeping a folder in sync: when bisync is run, and what is shown of it.

use crate::config::MountConfig;
use crate::keeper;
use crate::keeper::{backoff_secs, count_up, MOUNT_POINT_WAIT, NO_RCLONE, NO_RCLONE_WAIT};
use crate::number;
use crate::number::decimal_string;
use crate::sso;
use crate::sso::{SsoModel, SsoProfile};
use crate::supervisor;
use crate::supervisor::{
    elapsed, signin_detail, Ctx, CtxModel, Effects, EffectsModel, MountStatus, State, StatusModel,
};
use crate::sync::{Failure, FailureModel};
use crate::text;
use vstd::prelude::*;

verus! {

/// The bucket is looked at for changes at most this often, in seconds.
pub const MIN_POLL_SECS: u64 = 10;

#[derive(Debug)]
pub enum SyncEvent {
    /// The folder may be prepared.
    Ready { stopping: bool, rclone_found: bool, now: u64 },
    /// The folder was prepared, or could not be.
    Prepared { folder: Result<(), String>, now: u64 },
    /// The SSO profile behind the folder was looked up.
    Resolved { profile: Option<SsoProfile> },
    /// The folder is being watched. `generation` counts the sign-ins so far.
    Watching { generation: u64, now: u64 },
    /// `changed` is when the last local change came that is not yet synced.
    Tick { stopping: bool, generation: u64, changed: Option<u64>, now: u64 },
    /// bisync's work directory was looked at for the state of this pair.
    StateKnown { known: bool, now: u64 },
    /// bisync was started.
    Started { pid: u32 },
    /// A run of bisync is over. `needs_login`: the profile behind the folder
    /// has no token that serves.
    Ran { result: Result<(), Failure>, stopping: bool, needs_login: bool, now: u64 },
    /// Everything was closed.
    Closed,
}

/// What is to be done next. Whatever it is, what comes of it is the next
/// event.
#[derive(Debug)]
pub enum SyncAction {
    /// Wait this many seconds, or until the supervisor has to stop; then begin
    /// anew.
    Wait { secs: u64 },
    /// Prepare the folder.
    Prepare,
    /// Look up the SSO profile behind the folder.
    Resolve,
    /// Begin to watch the folder.
    Watch,
    /// Go on at once. `changed`: there are still local changes that are not
    /// synced; keep the time of the last, or note the present time if there is
    /// none.
    Tick { changed: bool },
    /// Go on after this many milliseconds.
    Sleep { millis: u64 },
    /// Forget the time of the last local change, and look for bisync's state.
    AskState,
    /// Start bisync, after noting this in the application's log.
    Run { resync: bool, note: Option<String> },
    /// Wait until bisync has come to its end.
    Attend,
    /// Close everything.
    Close,
    /// Nothing: the supervisor has stopped.
    Done,
}

/// What a `SyncAction` says, as a value.
pub enum SyncActionModel {
    Wait { secs: u64 },
    Prepare,
    Resolve,
    Watch,
    Tick { changed: bool },
    Sleep { millis: u64 },
    AskState,
    Run { resync: bool, note: Option<Seq<char>> },
    Attend,
    Close,
    Done,
}

impl View for SyncAction {
    type V = SyncActionModel;

    open spec fn view(&self) -> SyncActionModel {
        match self {
            SyncAction::Wait { secs } => SyncActionModel::Wait { secs: *secs },
            SyncAction::Prepare => SyncActionModel::Prepare,
            SyncAction::Resolve => SyncActionModel::Resolve,
            SyncAction::Watch => SyncActionModel::Watch,
            SyncAction::Tick { changed } => SyncActionModel::Tick { changed: *changed },
            SyncAction::Sleep { millis } => SyncActionModel::Sleep { millis: *millis },
            SyncAction::AskState => SyncActionModel::AskState,
            SyncAction::Run { resync, note } => SyncActionModel::Run {
                resync: *resync,
                note: text::opt_string(*note),
            },
            SyncAction::Attend => SyncActionModel::Attend,
            SyncAction::Close => SyncActionModel::Close,
            SyncAction::Done => SyncActionModel::Done,
        }
    }
}

#[derive(Debug)]
pub struct Syncer {
    /// How long local changes have to have settled, in seconds.
    pub quiet_secs: u64,
    /// How often the bucket is looked at, in seconds.
    pub poll_secs: u64,
    pub profile: Option<SsoProfile>,
    /// When the bucket is looked at next.
    pub next_remote: u128,
    /// No run begins before that.
    pub retry_at: u128,
    /// Failed runs in a row.
    pub failures: u32,
    /// bisync's state is lost: nothing is run any more.
    pub needs_resync: bool,
    pub login_generation: u64,
    /// The run is due to a local change.
    pub local_due: bool,
}

/// What a `Syncer` says, as values.
#[verifier::ext_equal]
pub struct SyncerModel {
    pub quiet_secs: u64,
    pub poll_secs: u64,
    pub profile: Option<SsoModel>,
    pub next_remote: u128,
    pub retry_at: u128,
    pub failures: u32,
    pub needs_resync: bool,
    pub login_generation: u64,
    pub local_due: bool,
}

impl View for Syncer {
    type V = SyncerModel;

    open spec fn view(&self) -> SyncerModel {
        SyncerModel {
            quiet_secs: self.quiet_secs,
            poll_secs: self.poll_secs,
            profile: sso::opt_profile(self.profile),
            next_remote: self.next_remote,
            retry_at: self.retry_at,
            failures: self.failures,
            needs_resync: self.needs_resync,
            login_generation: self.login_generation,
            local_due: self.local_due,
        }
    }
}

/// Everything after one event.
#[verifier::ext_equal]
pub struct SyncOutcome {
    pub syncer: SyncerModel,
    pub status: StatusModel,
    pub ctx: CtxModel,
    pub action: SyncActionModel,
    pub effects: EffectsModel,
}

impl SyncerModel {
    /// Local changes are synced `write_back_secs` after the last change, and
    /// the bucket is looked at every `dir_cache_secs`.
    pub open spec fn fresh(write_back_secs: u64, dir_cache_secs: u64) -> SyncerModel {
        SyncerModel {
            quiet_secs: if write_back_secs == 0 {
                1
            } else {
                write_back_secs
            },
            poll_secs: if dir_cache_secs < MIN_POLL_SECS {
                MIN_POLL_SECS
            } else {
                dir_cache_secs
            },
            profile: None,
            next_remote: 0,
            retry_at: 0,
            failures: 0,
            needs_resync: false,
            login_generation: 0,
            local_due: false,
        }
    }

    pub open spec fn silent(
        self,
        status: StatusModel,
        ctx: CtxModel,
        action: SyncActionModel,
    ) -> SyncOutcome {
        SyncOutcome { syncer: self, status, ctx, action, effects: EffectsModel::none() }
    }

    pub open spec fn shown(
        self,
        status: StatusModel,
        ctx: CtxModel,
        state: State,
        detail: Seq<char>,
        now: u64,
        action: SyncActionModel,
    ) -> SyncOutcome {
        SyncOutcome {
            syncer: self,
            status: status.showing(state, detail, now),
            ctx: ctx.after(status, state, detail, now),
            action,
            effects: ctx.effects(status, state, detail, now),
        }
    }

    /// The local changes have settled.
    pub open spec fn settled(self, changed: Option<u64>, now: u64) -> bool {
        changed matches Some(t) && supervisor::since(t, now) >= self.quiet_secs * supervisor::SECOND
    }

    /// After a fresh sign-in nothing is waited for.
    pub open spec fn noticing(self, generation: u64, now: u64) -> SyncerModel {
        if generation != self.login_generation {
            SyncerModel {
                login_generation: generation,
                retry_at: now as u128,
                next_remote: now as u128,
                ..self
            }
        } else {
            self
        }
    }

    /// It is time for a run.
    pub open spec fn run_due(self, changed: Option<u64>, now: u64) -> bool {
        !self.needs_resync && now >= self.retry_at && (self.settled(changed, now) || now
            >= self.next_remote)
    }

    pub open spec fn on_tick(
        self,
        status: StatusModel,
        ctx: CtxModel,
        stopping: bool,
        generation: u64,
        changed: Option<u64>,
        now: u64,
    ) -> SyncOutcome {
        let s = self.noticing(generation, now);
        if stopping {
            self.silent(status, ctx, SyncActionModel::Close)
        } else if s.run_due(changed, now) {
            SyncerModel { local_due: s.settled(changed, now), ..s }.silent(
                status,
                ctx,
                SyncActionModel::AskState,
            )
        } else if changed is Some && !s.needs_resync && status.state.healthy() {
            s.shown(
                status,
                ctx,
                State::Syncing,
                "Local changes waiting to upload"@,
                now,
                SyncActionModel::Sleep { millis: 250 },
            )
        } else {
            s.silent(status, ctx, SyncActionModel::Sleep { millis: 250 })
        }
    }

    pub open spec fn on_state(
        self,
        status: StatusModel,
        ctx: CtxModel,
        known: bool,
        now: u64,
    ) -> SyncOutcome {
        if !known {
            self.shown(
                status,
                ctx,
                State::Starting,
                "First sync with the bucket…"@,
                now,
                SyncActionModel::Run {
                    resync: true,
                    note: Some("["@ + ctx.name + "] no sync state yet: running a full resync"@),
                },
            )
        } else if self.local_due {
            self.shown(
                status,
                ctx,
                State::Syncing,
                "Syncing local changes…"@,
                now,
                SyncActionModel::Run { resync: false, note: None },
            )
        } else {
            self.silent(status, ctx, SyncActionModel::Run { resync: false, note: None })
        }
    }

    /// After a run that brought both sides in sync.
    pub open spec fn in_sync(self, status: StatusModel, ctx: CtxModel, now: u64) -> SyncOutcome {
        SyncerModel {
            failures: 0,
            retry_at: now as u128,
            next_remote: (now + self.poll_secs * supervisor::SECOND) as u128,
            ..self
        }.shown(
            StatusModel { last_error: None, last_ok: Some(now), ..status },
            ctx,
            State::Connected,
            "Up to date"@,
            now,
            SyncActionModel::Tick { changed: false },
        )
    }

    /// After a run that failed.
    pub open spec fn failed(
        self,
        status: StatusModel,
        ctx: CtxModel,
        failure: FailureModel,
        needs_login: bool,
        now: u64,
    ) -> SyncOutcome {
        let failures = keeper::one_more(self.failures);
        let wait = keeper::backoff(failures as nat);
        let at = (now + wait * supervisor::SECOND) as u128;
        let s = SyncerModel { failures, retry_at: at, next_remote: at, ..self };
        let action = SyncActionModel::Tick { changed: self.local_due };
        match failure {
            FailureModel::NeedsResync(e) => SyncerModel { needs_resync: true, ..s }.shown(
                StatusModel { needs_resync: true, ..status },
                ctx,
                State::Error,
                "Sync state was lost ("@ + e
                    + "). Click Resync to merge the folder and the bucket again."@,
                now,
                action,
            ),
            FailureModel::Other(e) if !(self.profile is Some && needs_login) => s.shown(
                status,
                ctx,
                State::Disconnected,
                "Sync failed: "@ + e + ". Retrying in "@ + number::decimal(wait as nat) + "s"@,
                now,
                action,
            ),
            _ => s.shown(
                status,
                ctx,
                State::SignInRequired,
                supervisor::expired_text(self.profile),
                now,
                action,
            ),
        }
    }

    /// What one event does.
    pub open spec fn step(self, event: SyncEvent, status: StatusModel, ctx: CtxModel) -> SyncOutcome {
        match event {
            SyncEvent::Ready { stopping, rclone_found, now } => if stopping {
                self.silent(status, ctx, SyncActionModel::Close)
            } else if !rclone_found {
                self.shown(
                    status,
                    ctx,
                    State::Error,
                    NO_RCLONE@,
                    now,
                    SyncActionModel::Wait { secs: NO_RCLONE_WAIT },
                )
            } else {
                self.silent(status, ctx, SyncActionModel::Prepare)
            },
            SyncEvent::Prepared { folder, now } => match folder {
                Err(e) => self.shown(
                    status,
                    ctx,
                    State::Error,
                    e@,
                    now,
                    SyncActionModel::Wait { secs: MOUNT_POINT_WAIT },
                ),
                Ok(_) => self.silent(
                    StatusModel { mounted: true, ..status },
                    ctx,
                    SyncActionModel::Resolve,
                ),
            },
            SyncEvent::Resolved { profile } => SyncerModel {
                profile: sso::opt_profile(profile),
                ..self
            }.silent(
                StatusModel {
                    sso_profile: match profile {
                        Some(p) => Some(p.profile@),
                        None => None,
                    },
                    ..status
                },
                ctx,
                SyncActionModel::Watch,
            ),
            SyncEvent::Watching { generation, now } => SyncerModel {
                next_remote: now as u128,
                retry_at: now as u128,
                failures: 0,
                needs_resync: false,
                login_generation: generation,
                ..self
            }.silent(status, ctx, SyncActionModel::Tick { changed: false }),
            SyncEvent::Tick { stopping, generation, changed, now } => self.on_tick(
                status,
                ctx,
                stopping,
                generation,
                changed,
                now,
            ),
            SyncEvent::StateKnown { known, now } => self.on_state(status, ctx, known, now),
            SyncEvent::Started { pid } => self.silent(
                StatusModel { pid: Some(pid), ..status },
                ctx,
                SyncActionModel::Attend,
            ),
            SyncEvent::Ran { result, stopping, needs_login, now } => match result {
                Ok(_) => self.in_sync(status, ctx, now),
                Err(f) => if stopping {
                    self.silent(status, ctx, SyncActionModel::Close)
                } else {
                    self.failed(status, ctx, f@, needs_login, now)
                },
            },
            SyncEvent::Closed => SyncOutcome {
                syncer: self,
                status: StatusModel {
                    state: State::Disabled,
                    detail: "Stopped"@,
                    mounted: false,
                    pid: None,
                    ..status
                },
                ctx,
                action: SyncActionModel::Done,
                effects: EffectsModel {
                    refresh: false,
                    log: Some("["@ + ctx.name + "] sync stopped"@),
                    notice: None,
                },
            },
        }
    }
}

/// The line for the application's log when a folder cannot be watched.
pub fn watch_error(m: &MountConfig, folder: &str, e: &str) -> (r: String)
    ensures
        r@ == "["@ + m@.name + "] cannot watch "@ + folder@ + ": "@ + e@
            + "; syncing on the timer only"@,
{
    "[".to_owned().concat(m.name.as_str()).concat("] cannot watch ").concat(folder).concat(": ").concat(
        e,
    ).concat("; syncing on the timer only")
}

/// The status of a folder that is synced no more, and the line for the
/// application's log.
pub fn stopped(status: &mut MountStatus, ctx: &Ctx) -> (r: String)
    ensures
        final(status)@ == (StatusModel {
            state: State::Disabled,
            detail: "Stopped"@,
            mounted: false,
            pid: None,
            ..old(status)@
        }),
        r@ == "["@ + ctx@.name + "] sync stopped"@,
{
    status.state = State::Disabled;
    status.detail = "Stopped".to_owned();
    status.mounted = false;
    status.pid = None;
    "[".to_owned().concat(ctx.name.as_str()).concat("] sync stopped")
}

impl Syncer {
    pub fn new(m: &MountConfig) -> (r: Self)
        ensures
            r@ == SyncerModel::fresh(m@.write_back_secs, m@.dir_cache_secs),
    {
        Syncer {
            quiet_secs: if m.write_back_secs == 0 {
                1
            } else {
                m.write_back_secs
            },
            poll_secs: if m.dir_cache_secs < MIN_POLL_SECS {
                MIN_POLL_SECS
            } else {
                m.dir_cache_secs
            },
            profile: None,
            next_remote: 0,
            retry_at: 0,
            failures: 0,
            needs_resync: false,
            login_generation: 0,
            local_due: false,
        }
    }

    fn tick(
        &mut self,
        status: &mut MountStatus,
        ctx: &mut Ctx,
        stopping: bool,
        generation: u64,
        changed: Option<u64>,
        now: u64,
    ) -> (r: (SyncAction, Effects))
        ensures
            (SyncOutcome {
                syncer: final(self)@,
                status: final(status)@,
                ctx: final(ctx)@,
                action: r.0@,
                effects: r.1@,
            }) == old(self)@.on_tick(
                old(status)@,
                old(ctx)@,
                stopping,
                generation,
                changed,
                now,
            ),
    {
        if stopping {
            return (SyncAction::Close, Effects::none());
        }
        if generation != self.login_generation {
            self.login_generation = generation;
            self.retry_at = now as u128;
            self.next_remote = now as u128;
        }
        let local_due = match changed {
            Some(t) => elapsed(t, now) as u128 >= self.quiet_secs as u128 * 1_000_000_000,
            None => false,
        };
        let time = now as u128;
        if self.needs_resync || time < self.retry_at || !(local_due || time >= self.next_remote) {
            let effects = if changed.is_some() && !self.needs_resync && status.state.is_healthy() {
                ctx.set(status, State::Syncing, "Local changes waiting to upload", now)
            } else {
                Effects::none()
            };
            return (SyncAction::Sleep { millis: 250 }, effects);
        }
        self.local_due = local_due;
        (SyncAction::AskState, Effects::none())
    }

    fn state_known(
        &self,
        status: &mut MountStatus,
        ctx: &mut Ctx,
        known: bool,
        now: u64,
    ) -> (r: (SyncAction, Effects))
        ensures
            (SyncOutcome {
                syncer: self@,
                status: final(status)@,
                ctx: final(ctx)@,
                action: r.0@,
                effects: r.1@,
            }) == self@.on_state(old(status)@, old(ctx)@, known, now),
    {
        if !known {
            let note = "[".to_owned().concat(ctx.name.as_str()).concat(
                "] no sync state yet: running a full resync",
            );
            let effects = ctx.set(status, State::Starting, "First sync with the bucket…", now);
            (SyncAction::Run { resync: true, note: Some(note) }, effects)
        } else {
            let effects = if self.local_due {
                ctx.set(status, State::Syncing, "Syncing local changes…", now)
            } else {
                Effects::none()
            };
            (SyncAction::Run { resync: false, note: None }, effects)
        }
    }

    fn failed(
        &mut self,
        status: &mut MountStatus,
        ctx: &mut Ctx,
        failure: Failure,
        needs_login: bool,
        now: u64,
    ) -> (r: (SyncAction, Effects))
        ensures
            (SyncOutcome {
                syncer: final(self)@,
                status: final(status)@,
                ctx: final(ctx)@,
                action: r.0@,
                effects: r.1@,
            }) == old(self)@.failed(old(status)@, old(ctx)@, failure@, needs_login, now),
    {
        self.failures = count_up(self.failures);
        let wait: u64 = backoff_secs(self.failures);
        proof {
            keeper::lemma_backoff(self.failures as nat);
        }
        self.retry_at = now as u128 + wait as u128 * 1_000_000_000;
        self.next_remote = self.retry_at;
        let action = SyncAction::Tick { changed: self.local_due };
        let effects = match failure {
            Failure::SignIn => {
                let detail = signin_detail(self.profile.as_ref());
                ctx.set(status, State::SignInRequired, detail.as_str(), now)
            },
            Failure::NeedsResync(e) => {
                self.needs_resync = true;
                status.needs_resync = true;
                let detail = "Sync state was lost (".to_owned().concat(e.as_str()).concat(
                    "). Click Resync to merge the folder and the bucket again.",
                );
                ctx.set(status, State::Error, detail.as_str(), now)
            },
            Failure::Other(e) => if self.profile.is_some() && needs_login {
                let detail = signin_detail(self.profile.as_ref());
                ctx.set(status, State::SignInRequired, detail.as_str(), now)
            } else {
                let detail = "Sync failed: ".to_owned().concat(e.as_str()).concat(
                    ". Retrying in ",
                ).concat(decimal_string(wait).as_str()).concat("s");
                ctx.set(status, State::Disconnected, detail.as_str(), now)
            },
        };
        (action, effects)
    }

    fn in_sync(&mut self, status: &mut MountStatus, ctx: &mut Ctx, now: u64) -> (r: (
        SyncAction,
        Effects,
    ))
        ensures
            (SyncOutcome {
                syncer: final(self)@,
                status: final(status)@,
                ctx: final(ctx)@,
                action: r.0@,
                effects: r.1@,
            }) == old(self)@.in_sync(old(status)@, old(ctx)@, now),
    {
        self.failures = 0;
        self.retry_at = now as u128;
        self.next_remote = now as u128 + self.poll_secs as u128 * 1_000_000_000;
        status.last_error = None;
        status.last_ok = Some(now);
        let effects = ctx.set(status, State::Connected, "Up to date", now);
        (SyncAction::Tick { changed: false }, effects)
    }

    /// Takes in one event: brings the status up to date, and says what is to
    /// be done next and what the user is to be told.
    pub fn next(&mut self, event: SyncEvent, status: &mut MountStatus, ctx: &mut Ctx) -> (r: (
        SyncAction,
        Effects,
    ))
        ensures
            (SyncOutcome {
                syncer: final(self)@,
                status: final(status)@,
                ctx: final(ctx)@,
                action: r.0@,
                effects: r.1@,
            }) == old(self)@.step(event, old(status)@, old(ctx)@),
    {
        match event {
            SyncEvent::Ready { stopping, rclone_found, now } => if stopping {
                (SyncAction::Close, Effects::none())
            } else if !rclone_found {
                let effects = ctx.set(status, State::Error, NO_RCLONE, now);
                (SyncAction::Wait { secs: NO_RCLONE_WAIT }, effects)
            } else {
                (SyncAction::Prepare, Effects::none())
            },
            SyncEvent::Prepared { folder, now } => match folder {
                Err(e) => {
                    let effects = ctx.set(status, State::Error, e.as_str(), now);
                    (SyncAction::Wait { secs: MOUNT_POINT_WAIT }, effects)
                },
                Ok(_) => {
                    status.mounted = true;
                    (SyncAction::Resolve, Effects::none())
                },
            },
            SyncEvent::Resolved { profile } => {
                status.sso_profile = match &profile {
                    Some(p) => Some(p.profile.clone()),
                    None => None,
                };
                self.profile = profile;
                (SyncAction::Watch, Effects::none())
            },
            SyncEvent::Watching { generation, now } => {
                self.next_remote = now as u128;
                self.retry_at = now as u128;
                self.failures = 0;
                self.needs_resync = false;
                self.login_generation = generation;
                (SyncAction::Tick { changed: false }, Effects::none())
            },
            SyncEvent::Tick { stopping, generation, changed, now } => self.tick(
                status,
                ctx,
                stopping,
                generation,
                changed,
                now,
            ),
            SyncEvent::StateKnown { known, now } => self.state_known(status, ctx, known, now),
            SyncEvent::Started { pid } => {
                status.pid = Some(pid);
                (SyncAction::Attend, Effects::none())
            },
            SyncEvent::Ran { result, stopping, needs_login, now } => match result {
                Ok(_) => self.in_sync(status, ctx, now),
                Err(f) => if stopping {
                    (SyncAction::Close, Effects::none())
                } else {
                    self.failed(status, ctx, f, needs_login, now)
                },
            },
            SyncEvent::Closed => {
                let log = stopped(status, ctx);
                (SyncAction::Done, Effects { refresh: false, log: Some(log), notice: None })
            },
        }
    }
}

// ---------------------------------------------------------------------------
// What holds of every synced folder
// ---------------------------------------------------------------------------

impl SyncerModel {
    /// What a tick does while nobody asks to stop.
    pub open spec fn ticks(
        self,
        status: StatusModel,
        ctx: CtxModel,
        generation: u64,
        changed: Option<u64>,
        now: u64,
    ) -> SyncOutcome {
        self.step(SyncEvent::Tick { stopping: false, generation, changed, now }, status, ctx)
    }
}

/// A run begins as soon as local changes have settled for `write_back_secs`,
/// unless a failed run is still waited out or the state is lost; before that
/// local changes begin none.
pub proof fn lemma_local_changes(
    s: SyncerModel,
    status: StatusModel,
    ctx: CtxModel,
    t: u64,
    now: u64,
)
    requires
        !s.needs_resync,
        t <= now,
        now >= s.retry_at,
    ensures
        now - t >= s.quiet_secs * supervisor::SECOND ==> s.ticks(
            status,
            ctx,
            s.login_generation,
            Some(t),
            now,
        ).action is AskState,
        now - t < s.quiet_secs * supervisor::SECOND && now < s.next_remote ==> s.ticks(
            status,
            ctx,
            s.login_generation,
            Some(t),
            now,
        ).action is Sleep,
{
}

/// After a run that brought both sides in sync, the bucket is looked at again
/// once `dir_cache_secs` (at least ten seconds) have passed, and not before.
pub proof fn lemma_poll(
    m: SyncerModel,
    status: StatusModel,
    ctx: CtxModel,
    now: u64,
    later_status: StatusModel,
    later_ctx: CtxModel,
    later: u64,
)
    requires
        !m.needs_resync,
        now <= later,
    ensures
        ({
            let s = m.in_sync(status, ctx, now).syncer;
            let o = s.ticks(later_status, later_ctx, s.login_generation, None, later);
            (o.action is AskState <==> later - now >= m.poll_secs * supervisor::SECOND) && (
            o.action is Sleep <==> later - now < m.poll_secs * supervisor::SECOND)
        }),
{
}

/// After a run that failed, no other begins before the backoff is over,
/// whatever changes; then one begins. A fresh sign-in ends the wait.
pub proof fn lemma_retry(
    m: SyncerModel,
    status: StatusModel,
    ctx: CtxModel,
    failure: FailureModel,
    needs_login: bool,
    now: u64,
    later_status: StatusModel,
    later_ctx: CtxModel,
    generation: u64,
    changed: Option<u64>,
    later: u64,
)
    requires
        !m.needs_resync,
        !(failure is NeedsResync),
        now <= later,
    ensures
        ({
            let s = m.failed(status, ctx, failure, needs_login, now).syncer;
            let wait = keeper::backoff(keeper::one_more(m.failures) as nat) * supervisor::SECOND;
            let o = s.ticks(later_status, later_ctx, generation, changed, later);
            o.action is AskState <==> later - now >= wait || generation != m.login_generation
        }),
{
    keeper::lemma_backoff(keeper::one_more(m.failures) as nat);
}

/// Once bisync has lost its state no run begins any more, whatever changes;
/// and the status says so.
pub proof fn lemma_lost_state(
    m: SyncerModel,
    status: StatusModel,
    ctx: CtxModel,
    e: Seq<char>,
    needs_login: bool,
    now: u64,
)
    ensures
        m.failed(status, ctx, FailureModel::NeedsResync(e), needs_login, now).syncer.needs_resync,
        m.failed(status, ctx, FailureModel::NeedsResync(e), needs_login, now).status.needs_resync,
        forall|
            s: SyncerModel,
            later_status: StatusModel,
            later_ctx: CtxModel,
            generation: u64,
            changed: Option<u64>,
            later: u64,
        |
            s.needs_resync ==> (#[trigger] s.ticks(
                later_status,
                later_ctx,
                generation,
                changed,
                later,
            )).action is Sleep && s.ticks(
                later_status,
                later_ctx,
                generation,
                changed,
                later,
            ).syncer.needs_resync,
{
}

/// While bisync runs the status has its process, and once it has exited it has
/// none: a folder is in the middle of a sync just as long as bisync runs.
pub proof fn lemma_process_of_a_run(
    s: SyncerModel,
    status: StatusModel,
    ctx: CtxModel,
    pid: u32,
    result: Result<(), Failure>,
    needs_login: bool,
    now: u64,
)
    ensures
        s.step(SyncEvent::Started { pid }, status, ctx).status == (StatusModel {
            pid: Some(pid),
            ..status
        }),
        s.step(
            SyncEvent::Ran { result, stopping: false, needs_login, now },
            StatusModel { pid: None, ..status },
            ctx,
        ).status.pid is None,
        s.step(SyncEvent::Closed, status, ctx).status.pid is None,
{
}

/// A folder for which bisync has no state yet gets a resync, any other does
/// not.
pub proof fn lemma_first_sync(
    s: SyncerModel,
    status: StatusModel,
    ctx: CtxModel,
    known: bool,
    now: u64,
)
    ensures
        s.step(SyncEvent::StateKnown { known, now }, status, ctx).action matches SyncActionModel::Run {
            resync,
            ..
        } && resync == !known,
{
}

} // verus!
