//! Restarting a mount: how long it is waited, and what the user is told
//! meanwhile.

use crate::keeper;
use crate::keeper::{KeeperAction, KeeperEvent, KeeperModel, KeeperOutcome};
use crate::number;
use crate::split;
use crate::sso::SsoProfile;
use crate::supervisor::{CtxModel, State, StatusModel};
use vstd::prelude::*;

verus! {

/// The text tells of a lost SSO session.
pub open spec fn tells_of_lost_session(reason: Seq<char>) -> bool {
    split::has(reason, "SSO token"@) || split::has(reason, "SSO OIDC"@) || split::has(
        reason,
        "InvalidGrantException"@,
    ) || split::has(reason, "UnauthorizedException"@)
}

/// One session from its start to the end of its cleaning up, which was not
/// stopped: the profile behind it, when it began, why it ended, whether the
/// cached token serves, how many sign-ins there were, and when that was.
pub struct Attempt {
    pub profile: Option<SsoProfile>,
    pub started: u64,
    pub reason: String,
    pub needs_login: bool,
    pub generation: u64,
    pub ended: u64,
}

/// What one attempt makes of a keeper and a status.
pub open spec fn after_attempt(
    k: KeeperModel,
    a: Attempt,
    status: StatusModel,
    ctx: CtxModel,
) -> KeeperOutcome {
    let begun = k.step(
        KeeperEvent::Resolved { profile: a.profile, now: a.started },
        status,
        ctx,
    );
    let over = begun.keeper.step(KeeperEvent::Ended { reason: a.reason }, begun.status, begun.ctx);
    over.keeper.step(
        KeeperEvent::Cleaned {
            stopping: false,
            needs_login: a.needs_login,
            generation: a.generation,
            now: a.ended,
        },
        over.status,
        over.ctx,
    )
}

/// What the first second of the wait after an attempt does.
pub open spec fn first_second(
    k: KeeperModel,
    a: Attempt,
    status: StatusModel,
    ctx: CtxModel,
    now: u64,
) -> KeeperOutcome {
    let o = after_attempt(k, a, status, ctx);
    o.keeper.step(
        KeeperEvent::Second { stopping: false, generation: a.generation, now },
        o.status,
        o.ctx,
    )
}

/// Whatever went before, a mount that waits for its restart is shown as waiting
/// for a sign-in just when an SSO profile is behind it and its session ended
/// over a lost one or the cached token does not serve. Any other is shown as
/// down, with the reason for which its session ended and the seconds that are
/// left.
pub proof fn lemma_crash_or_expired_session(
    k: KeeperModel,
    a: Attempt,
    status: StatusModel,
    ctx: CtxModel,
    now: u64,
)
    requires
        status.restarts < u32::MAX,
    ensures
        ({
            let shown = first_second(k, a, status, ctx, now).status;
            let secs = number::decimal(after_attempt(k, a, status, ctx).keeper.remaining as nat);
            match a.profile {
                Some(p) if tells_of_lost_session(a.reason@) || a.needs_login => shown.shows(
                    State::SignInRequired,
                    "AWS SSO session for profile '"@ + p.profile@ + "' has expired"@,
                ),
                _ => shown.shows(
                    State::Down,
                    a.reason@ + ". Restarting in "@ + secs + "s"@,
                ),
            }
        }),
        first_second(k, a, status, ctx, now).action == KeeperAction::Sleep,
{
    keeper::lemma_backoff(keeper::one_more(k.attempts) as nat);
    keeper::lemma_backoff(1);
}

/// An attempt counts as one restart, leaves nothing of its process and volume in
/// the status, and names the profile behind it; its reason is remembered.
pub proof fn lemma_attempt_counts_once(
    k: KeeperModel,
    a: Attempt,
    status: StatusModel,
    ctx: CtxModel,
)
    requires
        status.restarts < u32::MAX,
    ensures
        ({
            let o = after_attempt(k, a, status, ctx);
            &&& o.status == (StatusModel {
                restarts: (status.restarts + 1) as u32,
                pid: None,
                mounted: false,
                uploads_pending: 0,
                sso_profile: match a.profile {
                    Some(p) => Some(p.profile@),
                    None => None,
                },
                ..status
            })
            &&& o.ctx == ctx
            &&& o.keeper.reason == a.reason@
            &&& o.keeper.generation == a.generation
            &&& o.keeper.started == a.started
            &&& o.action == KeeperAction::Count
        }),
{
}

/// The keeper after the first `n` of the attempts.
pub open spec fn after_attempts(
    attempts: Seq<Attempt>,
    statuses: Seq<StatusModel>,
    ctxs: Seq<CtxModel>,
    n: int,
) -> KeeperModel
    decreases n,
{
    if n <= 0 {
        KeeperModel::fresh()
    } else {
        after_attempt(
            after_attempts(attempts, statuses, ctxs, n - 1),
            attempts[n - 1],
            statuses[n - 1],
            ctxs[n - 1],
        ).keeper
    }
}

/// How many of the first `n` attempts, counted from the last one back, did not
/// last longer than five minutes; one that did counts, and ends the row.
pub open spec fn row(attempts: Seq<Attempt>, n: int) -> nat
    decreases n,
{
    if n <= 0 {
        0
    } else if attempts[n - 1].ended - attempts[n - 1].started > 300_000_000_000 {
        1
    } else {
        row(attempts, n - 1) + 1
    }
}

/// The seconds to wait after `n` attempts in a row: 2, 4, 8, 16, 32, then 60.
pub open spec fn wait_after(n: nat) -> int {
    if n <= 1 {
        2
    } else if n == 2 {
        4
    } else if n == 3 {
        8
    } else if n == 4 {
        16
    } else if n == 5 {
        32
    } else {
        60
    }
}

proof fn lemma_row(attempts: Seq<Attempt>, n: int)
    requires
        0 <= n,
    ensures
        row(attempts, n) <= n,
    decreases n,
{
    if n > 0 {
        lemma_row(attempts, n - 1);
    }
}

/// The backoff is that many seconds.
pub proof fn lemma_wait_after(n: nat)
    ensures
        keeper::backoff(n) == wait_after(n),
{
    reveal_with_fuel(keeper::doubled, 8);
}

/// However many attempts were made, and however long each lasted, the wait after
/// the last one is 2 seconds if it lasted longer than five minutes, and twice as
/// long for each short one in a row otherwise, up to a minute.
pub proof fn lemma_wait_after_attempts(
    attempts: Seq<Attempt>,
    statuses: Seq<StatusModel>,
    ctxs: Seq<CtxModel>,
    n: int,
)
    requires
        0 < n <= attempts.len(),
        n < u32::MAX,
        forall|i: int|
            0 <= i < n ==> (#[trigger] attempts[i]).started <= attempts[i].ended,
    ensures
        after_attempts(attempts, statuses, ctxs, n).remaining == wait_after(row(attempts, n)),
        after_attempts(attempts, statuses, ctxs, n).attempts == row(attempts, n),
    decreases n,
{
    lemma_row(attempts, n);
    lemma_row(attempts, n - 1);
    lemma_wait_after(row(attempts, n));
    if n > 1 {
        lemma_wait_after_attempts(attempts, statuses, ctxs, n - 1);
    }
    let before = after_attempts(attempts, statuses, ctxs, n - 1);
    let a = attempts[n - 1];
    assert(before.attempts == row(attempts, n - 1));
    let o = after_attempt(before, a, statuses[n - 1], ctxs[n - 1]);
    assert(o.keeper.attempts == row(attempts, n));
    assert(o.keeper.remaining == keeper::backoff(o.keeper.attempts as nat));
}

/// What keeps an attempt from being made is shown as an error, and another is
/// made after a while: half a minute without rclone, a quarter where the mount
/// point cannot be used.
pub proof fn lemma_attempt_not_possible(
    k: KeeperModel,
    status: StatusModel,
    ctx: CtxModel,
    e: String,
    stopping: bool,
    now: u64,
)
    ensures
        ({
            let o = k.step(
                KeeperEvent::Ready { stopping: false, rclone_found: false, now },
                status,
                ctx,
            );
            &&& o.action == (KeeperAction::Wait { secs: 30 })
            &&& o.status.shows(
                State::Error,
                "rclone not found. Reinstall BucketMount or set rclone_path in config.toml."@,
            )
            &&& o.keeper == k
        }),
        ({
            let o = k.step(KeeperEvent::Prepared { result: Err(e), stopping, now }, status, ctx);
            &&& o.action == (KeeperAction::Wait { secs: 15 })
            &&& o.status.shows(State::Error, e@)
            &&& o.keeper == k
        }),
{
}

/// A mount that is no longer looked after is shown as stopped, without a volume
/// or a process; it is written to the log, and the user is told nothing.
pub proof fn lemma_closed(k: KeeperModel, status: StatusModel, ctx: CtxModel)
    ensures
        ({
            let end = k.step(KeeperEvent::Closed, status, ctx);
            &&& end.action == KeeperAction::Done
            &&& end.status == (StatusModel {
                state: State::Disabled,
                detail: "Stopped"@,
                mounted: false,
                pid: None,
                ..status
            })
            &&& end.keeper == k && end.ctx == ctx
            &&& end.effects.log == Some("["@ + ctx.name + "] supervisor stopped"@)
            &&& end.effects.notice is None && !end.effects.refresh
        }),
{
}

/// Before the first attempt nothing has failed and nothing is waited for.
pub proof fn lemma_before_the_first_attempt()
    ensures
        ({
            let k = KeeperModel::fresh();
            &&& k.attempts == 0 && k.remaining == 0 && !k.signin
            &&& k.profile is None && k.reason.len() == 0
        }),
{
}

/// Whatever is shown goes through the mount's status: since when it holds, when
/// all was last well, and what the user is told of it follow from that alone.
pub proof fn lemma_shown_is_set(
    s: KeeperModel,
    status: StatusModel,
    ctx: CtxModel,
    state: State,
    detail: Seq<char>,
    now: u64,
    action: KeeperAction,
)
    ensures
        ({
            let o = s.shown(status, ctx, state, detail, now, action);
            &&& o.status == status.showing(state, detail, now)
            &&& o.ctx == ctx.after(status, state, detail, now)
            &&& o.effects == ctx.effects(status, state, detail, now)
            &&& o.action == action
        }),
        ({
            let o = s.silent(status, ctx, action);
            &&& o.status == status && o.ctx == ctx && o.action == action
            &&& o.effects.log is None && o.effects.notice is None && !o.effects.refresh
        }),
{
}

} // verus!
