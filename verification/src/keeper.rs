//! Keeping a mount alive: preparing its mount point, running one session
//! after the other, and waiting between them, longer and longer while they
//! keep failing.

use crate::number;
use crate::number::decimal_string;
use crate::sso;
use crate::sso::{is_session_error, SsoModel, SsoProfile};
use crate::supervisor;
use crate::supervisor::{
    elapsed, signin_detail, Ctx, CtxModel, Effects, EffectsModel, MountStatus, State, StatusModel,
};
use vstd::prelude::*;

verus! {

/// A session that has lasted this long starts the backoff anew.
pub const HEALTHY_RESET: u64 = 300_000_000_000;

/// How long to wait for rclone to be installed, in seconds.
pub const NO_RCLONE_WAIT: u64 = 30;

/// How long to wait for the mount point to become usable, in seconds.
pub const MOUNT_POINT_WAIT: u64 = 15;

pub const NO_RCLONE: &'static str =
    "rclone not found. Reinstall BucketMount or set rclone_path in config.toml.";

// ---------------------------------------------------------------------------
// Backoff
// ---------------------------------------------------------------------------

/// 2 to the power of `n`.
pub open spec fn doubled(n: nat) -> int
    decreases n,
{
    if n == 0 {
        1
    } else {
        2 * doubled((n - 1) as nat)
    }
}

/// The seconds to wait after `n` failures in a row: twice as many for each,
/// but at least 2 and at most 60.
pub open spec fn backoff(n: nat) -> int {
    let d = doubled(
        if n > 6 {
            6
        } else {
            n
        },
    );
    if d < 2 {
        2
    } else if d > 60 {
        60
    } else {
        d
    }
}

pub fn backoff_secs(failures: u32) -> (r: u64)
    ensures
        r == backoff(failures as nat),
{
    let mut d: u64 = 1;
    let mut i: u32 = 0;
    while i < failures && i < 6
        invariant
            i <= failures,
            i <= 6,
            d == doubled(i as nat),
            d <= 64,
            i < 6 ==> d <= 32,
        decreases 6 - i,
    {
        d = 2 * d;
        i = i + 1;
        proof {
            reveal_with_fuel(doubled, 7);
        }
    }
    if d < 2 {
        2
    } else if d > 60 {
        60
    } else {
        d
    }
}

/// The wait is between 2 and 60 seconds, never gets shorter while failures
/// come in a row, and doubles with each until it has reached its limit.
pub proof fn lemma_backoff(n: nat)
    ensures
        2 <= backoff(n) <= 60,
        backoff(n) <= backoff(n + 1),
        backoff(1) == 2,
        n >= 1 && backoff(n + 1) < 60 ==> backoff(n + 1) == 2 * backoff(n),
        n >= 6 ==> backoff(n) == 60,
{
    reveal_with_fuel(doubled, 8);
}

/// One failure more. The count stays within its type; the wait has long
/// reached its limit there.
pub open spec fn one_more(failures: u32) -> u32 {
    if failures == u32::MAX {
        failures
    } else {
        (failures + 1) as u32
    }
}

pub fn count_up(failures: u32) -> (r: u32)
    ensures
        r == one_more(failures),
        backoff(r as nat) == backoff(failures as nat + 1),
{
    if failures == u32::MAX {
        failures
    } else {
        failures + 1
    }
}

// ---------------------------------------------------------------------------
// What happens, and what is to be done
// ---------------------------------------------------------------------------

#[derive(Debug)]
pub enum KeeperEvent {
    /// A new attempt may begin.
    Ready { stopping: bool, rclone_found: bool, now: u64 },
    /// The mount point was prepared, or could not be.
    Prepared { result: Result<(), String>, stopping: bool, now: u64 },
    /// The SSO profile behind the mount was looked up.
    Resolved { profile: Option<SsoProfile>, now: u64 },
    /// A session is over.
    Ended { reason: String },
    /// What was left of the volume was unmounted. `needs_login`: the profile
    /// behind the mount has no token that serves. `generation` counts the
    /// sign-ins so far.
    Cleaned { stopping: bool, needs_login: bool, generation: u64, now: u64 },
    /// A second of the wait is about to begin.
    Second { stopping: bool, generation: u64, now: u64 },
    /// The volume is unmounted for good.
    Closed,
}

/// What is to be done next. Whatever it is, what comes of it is the next
/// event.
#[derive(Debug, Clone, Copy, PartialEq, Eq, Structural)]
pub enum KeeperAction {
    /// Begin a new attempt.
    Again,
    /// Wait this many seconds, or until the supervisor has to stop; then begin
    /// a new attempt.
    Wait { secs: u64 },
    /// Prepare the mount point.
    Prepare,
    /// Look up the SSO profile behind the mount.
    Resolve,
    /// Run a session.
    Session,
    /// Unmount what is left of the volume.
    Clean,
    /// Begin a second of the wait.
    Count,
    /// Wait a second, then begin another one.
    Sleep,
    /// Unmount the volume for good.
    Close,
    /// Nothing: the supervisor has stopped.
    Done,
}

#[derive(Debug)]
pub struct Keeper {
    /// Failed sessions in a row.
    pub attempts: u32,
    /// When the session began.
    pub started: u64,
    pub profile: Option<SsoProfile>,
    /// Why the session ended.
    pub reason: String,
    /// The user has to sign in.
    pub signin: bool,
    /// The sign-ins before the wait.
    pub generation: u64,
    /// The seconds that are left to wait.
    pub remaining: u64,
}

/// What a `Keeper` says, as values.
#[verifier::ext_equal]
pub struct KeeperModel {
    pub attempts: u32,
    pub started: u64,
    pub profile: Option<SsoModel>,
    pub reason: Seq<char>,
    pub signin: bool,
    pub generation: u64,
    pub remaining: u64,
}

impl View for Keeper {
    type V = KeeperModel;

    open spec fn view(&self) -> KeeperModel {
        KeeperModel {
            attempts: self.attempts,
            started: self.started,
            profile: sso::opt_profile(self.profile),
            reason: self.reason@,
            signin: self.signin,
            generation: self.generation,
            remaining: self.remaining,
        }
    }
}

/// Everything after one event.
#[verifier::ext_equal]
pub struct KeeperOutcome {
    pub keeper: KeeperModel,
    pub status: StatusModel,
    pub ctx: CtxModel,
    pub action: KeeperAction,
    pub effects: EffectsModel,
}

impl KeeperModel {
    pub open spec fn fresh() -> KeeperModel {
        KeeperModel {
            attempts: 0,
            started: 0,
            profile: None,
            reason: Seq::empty(),
            signin: false,
            generation: 0,
            remaining: 0,
        }
    }

    pub open spec fn silent(
        self,
        status: StatusModel,
        ctx: CtxModel,
        action: KeeperAction,
    ) -> KeeperOutcome {
        KeeperOutcome { keeper: self, status, ctx, action, effects: EffectsModel::none() }
    }

    pub open spec fn shown(
        self,
        status: StatusModel,
        ctx: CtxModel,
        state: State,
        detail: Seq<char>,
        now: u64,
        action: KeeperAction,
    ) -> KeeperOutcome {
        KeeperOutcome {
            keeper: self,
            status: status.showing(state, detail, now),
            ctx: ctx.after(status, state, detail, now),
            action,
            effects: ctx.effects(status, state, detail, now),
        }
    }

    /// Failed sessions in a row, now that another one has ended.
    pub open spec fn failures(self, now: u64) -> u32 {
        if supervisor::since(self.started, now) > HEALTHY_RESET {
            1
        } else {
            one_more(self.attempts)
        }
    }

    pub open spec fn on_cleaned(
        self,
        status: StatusModel,
        ctx: CtxModel,
        stopping: bool,
        needs_login: bool,
        generation: u64,
        now: u64,
    ) -> KeeperOutcome {
        if stopping {
            self.silent(status, ctx, KeeperAction::Close)
        } else {
            KeeperModel {
                attempts: self.failures(now),
                signin: self.profile is Some && (sso::session_error(self.reason) || needs_login),
                generation,
                remaining: backoff(self.failures(now) as nat) as u64,
                ..self
            }.silent(
                StatusModel { restarts: (status.restarts + 1) as u32, ..status },
                ctx,
                KeeperAction::Count,
            )
        }
    }

    /// What is shown while a restart is waited for.
    pub open spec fn waiting(self) -> (State, Seq<char>) {
        if self.signin {
            (State::SignInRequired, supervisor::expired_text(self.profile))
        } else {
            (
                State::Down,
                self.reason + ". Restarting in "@ + number::decimal(self.remaining as nat) + "s"@,
            )
        }
    }

    pub open spec fn on_second(
        self,
        status: StatusModel,
        ctx: CtxModel,
        stopping: bool,
        generation: u64,
        now: u64,
    ) -> KeeperOutcome {
        if self.remaining == 0 || stopping || generation != self.generation {
            KeeperModel { remaining: 0, ..self }.silent(status, ctx, KeeperAction::Again)
        } else {
            let (state, detail) = self.waiting();
            KeeperModel { remaining: (self.remaining - 1) as u64, ..self }.shown(
                status,
                ctx,
                state,
                detail,
                now,
                KeeperAction::Sleep,
            )
        }
    }

    /// What one event does.
    pub open spec fn step(
        self,
        event: KeeperEvent,
        status: StatusModel,
        ctx: CtxModel,
    ) -> KeeperOutcome {
        match event {
            KeeperEvent::Ready { stopping, rclone_found, now } => if stopping {
                self.silent(status, ctx, KeeperAction::Close)
            } else if !rclone_found {
                self.shown(
                    status,
                    ctx,
                    State::Error,
                    NO_RCLONE@,
                    now,
                    KeeperAction::Wait { secs: NO_RCLONE_WAIT },
                )
            } else {
                self.silent(status, ctx, KeeperAction::Prepare)
            },
            KeeperEvent::Prepared { result, stopping, now } => match result {
                Err(e) => self.shown(
                    status,
                    ctx,
                    State::Error,
                    e@,
                    now,
                    KeeperAction::Wait { secs: MOUNT_POINT_WAIT },
                ),
                Ok(_) => self.silent(
                    status,
                    ctx,
                    if stopping {
                        KeeperAction::Close
                    } else {
                        KeeperAction::Resolve
                    },
                ),
            },
            KeeperEvent::Resolved { profile, now } => KeeperModel {
                profile: sso::opt_profile(profile),
                started: now,
                ..self
            }.silent(
                StatusModel {
                    sso_profile: match profile {
                        Some(p) => Some(p.profile@),
                        None => None,
                    },
                    ..status
                },
                ctx,
                KeeperAction::Session,
            ),
            KeeperEvent::Ended { reason } => KeeperModel { reason: reason@, ..self }.silent(
                StatusModel { pid: None, mounted: false, uploads_pending: 0, ..status },
                ctx,
                KeeperAction::Clean,
            ),
            KeeperEvent::Cleaned { stopping, needs_login, generation, now } => self.on_cleaned(
                status,
                ctx,
                stopping,
                needs_login,
                generation,
                now,
            ),
            KeeperEvent::Second { stopping, generation, now } => self.on_second(
                status,
                ctx,
                stopping,
                generation,
                now,
            ),
            KeeperEvent::Closed => KeeperOutcome {
                keeper: self,
                status: StatusModel {
                    state: State::Disabled,
                    detail: "Stopped"@,
                    mounted: false,
                    pid: None,
                    ..status
                },
                ctx,
                action: KeeperAction::Done,
                effects: EffectsModel {
                    refresh: false,
                    log: Some("["@ + ctx.name + "] supervisor stopped"@),
                    notice: None,
                },
            },
        }
    }
}

impl Keeper {
    pub fn new() -> (r: Self)
        ensures
            r@ == KeeperModel::fresh(),
    {
        let reason = String::new();
        assert(reason@ =~= Seq::<char>::empty());
        Keeper {
            attempts: 0,
            started: 0,
            profile: None,
            reason,
            signin: false,
            generation: 0,
            remaining: 0,
        }
    }

    fn second(
        &mut self,
        status: &mut MountStatus,
        ctx: &mut Ctx,
        stopping: bool,
        generation: u64,
        now: u64,
    ) -> (r: (KeeperAction, Effects))
        ensures
            (KeeperOutcome {
                keeper: final(self)@,
                status: final(status)@,
                ctx: final(ctx)@,
                action: r.0,
                effects: r.1@,
            }) == old(self)@.on_second(old(status)@, old(ctx)@, stopping, generation, now),
    {
        if self.remaining == 0 || stopping || generation != self.generation {
            self.remaining = 0;
            return (KeeperAction::Again, Effects::none());
        }
        let effects = if self.signin {
            let detail = signin_detail(self.profile.as_ref());
            ctx.set(status, State::SignInRequired, detail.as_str(), now)
        } else {
            let detail = self.reason.clone().concat(". Restarting in ").concat(
                decimal_string(self.remaining).as_str(),
            ).concat("s");
            ctx.set(status, State::Down, detail.as_str(), now)
        };
        self.remaining = self.remaining - 1;
        (KeeperAction::Sleep, effects)
    }

    /// Takes in one event: brings the status up to date, and says what is to
    /// be done next and what the user is to be told.
    pub fn next(&mut self, event: KeeperEvent, status: &mut MountStatus, ctx: &mut Ctx) -> (r: (
        KeeperAction,
        Effects,
    ))
        requires
            event is Cleaned ==> old(status)@.restarts < u32::MAX,
        ensures
            (KeeperOutcome {
                keeper: final(self)@,
                status: final(status)@,
                ctx: final(ctx)@,
                action: r.0,
                effects: r.1@,
            }) == old(self)@.step(event, old(status)@, old(ctx)@),
    {
        match event {
            KeeperEvent::Ready { stopping, rclone_found, now } => if stopping {
                (KeeperAction::Close, Effects::none())
            } else if !rclone_found {
                let effects = ctx.set(status, State::Error, NO_RCLONE, now);
                (KeeperAction::Wait { secs: NO_RCLONE_WAIT }, effects)
            } else {
                (KeeperAction::Prepare, Effects::none())
            },
            KeeperEvent::Prepared { result, stopping, now } => match result {
                Err(e) => {
                    let effects = ctx.set(status, State::Error, e.as_str(), now);
                    (KeeperAction::Wait { secs: MOUNT_POINT_WAIT }, effects)
                },
                Ok(_) => if stopping {
                    (KeeperAction::Close, Effects::none())
                } else {
                    (KeeperAction::Resolve, Effects::none())
                },
            },
            KeeperEvent::Resolved { profile, now } => {
                status.sso_profile = match &profile {
                    Some(p) => Some(p.profile.clone()),
                    None => None,
                };
                self.profile = profile;
                self.started = now;
                (KeeperAction::Session, Effects::none())
            },
            KeeperEvent::Ended { reason } => {
                self.reason = reason;
                status.pid = None;
                status.mounted = false;
                status.uploads_pending = 0;
                (KeeperAction::Clean, Effects::none())
            },
            KeeperEvent::Cleaned { stopping, needs_login, generation, now } => {
                if stopping {
                    return (KeeperAction::Close, Effects::none());
                }
                if elapsed(self.started, now) > HEALTHY_RESET {
                    self.attempts = 0;
                }
                self.attempts = count_up(self.attempts);
                status.restarts = status.restarts + 1;
                self.signin = self.profile.is_some() && (is_session_error(self.reason.as_str())
                    || needs_login);
                self.generation = generation;
                self.remaining = backoff_secs(self.attempts);
                (KeeperAction::Count, Effects::none())
            },
            KeeperEvent::Second { stopping, generation, now } => self.second(
                status,
                ctx,
                stopping,
                generation,
                now,
            ),
            KeeperEvent::Closed => {
                status.state = State::Disabled;
                status.detail = "Stopped".to_owned();
                status.mounted = false;
                status.pid = None;
                let log = "[".to_owned().concat(ctx.name.as_str()).concat("] supervisor stopped");
                (KeeperAction::Done, Effects { refresh: false, log: Some(log), notice: None })
            },
        }
    }
}

// ---------------------------------------------------------------------------
// What holds of every supervisor
// ---------------------------------------------------------------------------

/// What is shown and remembered when a second of the wait begins, and when.
pub struct Tick {
    pub status: StatusModel,
    pub ctx: CtxModel,
    pub now: u64,
}

impl KeeperModel {
    /// What an undisturbed second of the wait does.
    pub open spec fn waits(self, tick: Tick) -> KeeperOutcome {
        self.step(
            KeeperEvent::Second { stopping: false, generation: self.generation, now: tick.now },
            tick.status,
            tick.ctx,
        )
    }

    /// After the first `i` of the seconds.
    pub open spec fn after_seconds(self, ticks: Seq<Tick>, i: int) -> KeeperModel
        decreases i,
    {
        if i <= 0 {
            self
        } else {
            self.after_seconds(ticks, i - 1).waits(ticks[i - 1]).keeper
        }
    }
}

/// An undisturbed wait lasts as many seconds as it was set to: each of them is
/// slept through, with the seconds that are left on show, and then a new
/// attempt begins.
pub proof fn lemma_countdown(k: KeeperModel, ticks: Seq<Tick>, i: int)
    requires
        0 <= i <= k.remaining,
        ticks.len() > k.remaining,
    ensures
        k.after_seconds(ticks, i) == (KeeperModel { remaining: (k.remaining - i) as u64, ..k }),
        i < k.remaining ==> k.after_seconds(ticks, i).waits(ticks[i]).action == KeeperAction::Sleep
            && k.after_seconds(ticks, i).waits(ticks[i]).status.shows(
            k.after_seconds(ticks, i).waiting().0,
            k.after_seconds(ticks, i).waiting().1,
        ),
        i == k.remaining ==> k.after_seconds(ticks, i).waits(ticks[i]).action
            == KeeperAction::Again,
    decreases i,
{
    if i > 0 {
        lemma_countdown(k, ticks, i - 1);
    }
}

/// A session that has ended is followed by another one: what is left of it is
/// cleaned up, the wait runs out, the mount point is prepared and the profile
/// looked up, unless the supervisor has to stop or something is missing.
pub proof fn lemma_session_follows_session(
    k: KeeperModel,
    status: StatusModel,
    ctx: CtxModel,
    reason: String,
    needs_login: bool,
    profile: Option<SsoProfile>,
    generation: u64,
    now: u64,
)
    ensures
        k.step(KeeperEvent::Ended { reason }, status, ctx).action == KeeperAction::Clean,
        k.step(
            KeeperEvent::Cleaned { stopping: false, needs_login, generation, now },
            status,
            ctx,
        ).action == KeeperAction::Count,
        k.step(
            KeeperEvent::Second { stopping: false, generation: k.generation, now },
            status,
            ctx,
        ).action == (if k.remaining > 0 {
            KeeperAction::Sleep
        } else {
            KeeperAction::Again
        }),
        k.step(
            KeeperEvent::Ready { stopping: false, rclone_found: true, now },
            status,
            ctx,
        ).action == KeeperAction::Prepare,
        k.step(
            KeeperEvent::Prepared { result: Ok(()), stopping: false, now },
            status,
            ctx,
        ).action == KeeperAction::Resolve,
        k.step(KeeperEvent::Resolved { profile, now }, status, ctx).action
            == KeeperAction::Session,
{
}

/// A stop request or a fresh sign-in cuts the wait short.
pub proof fn lemma_wait_cut_short(
    k: KeeperModel,
    status: StatusModel,
    ctx: CtxModel,
    stopping: bool,
    generation: u64,
    now: u64,
)
    requires
        stopping || generation != k.generation,
    ensures
        k.step(KeeperEvent::Second { stopping, generation, now }, status, ctx).action
            == KeeperAction::Again,
{
}

/// A session that lasted longer than five minutes is followed by the shortest
/// wait, any other by one that is no shorter than the wait before it; and each
/// session that ended counts as one restart.
pub proof fn lemma_wait_after_session(
    k: KeeperModel,
    status: StatusModel,
    ctx: CtxModel,
    needs_login: bool,
    generation: u64,
    now: u64,
)
    requires
        status.restarts < u32::MAX,
    ensures
        ({
            let o = k.step(
                KeeperEvent::Cleaned { stopping: false, needs_login, generation, now },
                status,
                ctx,
            );
            &&& o.action == KeeperAction::Count
            &&& 2 <= o.keeper.remaining <= 60
            &&& supervisor::since(k.started, now) > HEALTHY_RESET ==> o.keeper.remaining == 2
            &&& supervisor::since(k.started, now) <= HEALTHY_RESET ==> o.keeper.remaining >= backoff(
                k.attempts as nat,
            )
            &&& o.status.restarts == status.restarts + 1
        }),
{
    lemma_backoff(k.attempts as nat);
    lemma_backoff(k.failures(now) as nat);
}

/// A supervisor that has to stop begins nothing new: whatever it was about to
/// do, it unmounts the volume, and is then shown as disabled.
pub proof fn lemma_stopping(k: KeeperModel, status: StatusModel, ctx: CtxModel, rclone_found: bool, needs_login: bool, generation: u64, now: u64)
    ensures
        k.step(KeeperEvent::Ready { stopping: true, rclone_found, now }, status, ctx).action
            == KeeperAction::Close,
        k.step(KeeperEvent::Prepared { result: Ok(()), stopping: true, now }, status, ctx).action
            == KeeperAction::Close,
        k.step(
            KeeperEvent::Cleaned { stopping: true, needs_login, generation, now },
            status,
            ctx,
        ).action == KeeperAction::Close,
        k.step(KeeperEvent::Closed, status, ctx).action == KeeperAction::Done,
        k.step(KeeperEvent::Closed, status, ctx).status.shows(State::Disabled, "Stopped"@),
        !k.step(KeeperEvent::Closed, status, ctx).status.mounted,
{
}

} // verus!
