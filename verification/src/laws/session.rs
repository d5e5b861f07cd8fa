//! Watching a mounted bucket: what is shown follows from what was seen.

use crate::number;
use crate::rclone::VfsStats;
use crate::session::{ActionModel, CheckAnswer, Look, Moment, Outcome, SessionEvent, SessionModel};
use crate::sso::SsoModel;
use crate::supervisor::{CtxModel, State, StatusModel};
use vstd::prelude::*;

verus! {

// ---------------------------------------------------------------------------
// What was seen last
// ---------------------------------------------------------------------------

/// What rclone said of its queue the last time it answered, in the first `k`
/// moments; an empty queue if it never did.
pub open spec fn last_answer(moments: Seq<Moment>, k: int) -> VfsStats
    decreases k,
{
    if k <= 0 {
        VfsStats { uploads_queued: 0, uploads_in_progress: 0, errored_files: 0 }
    } else {
        match moments[k - 1].event {
            SessionEvent::Stats { answer: Ok(stats), .. } => stats,
            _ => last_answer(moments, k - 1),
        }
    }
}

/// The last of the first `k` moments in which a check of the bucket came to an
/// end.
pub open spec fn last_checked(moments: Seq<Moment>, k: int) -> Option<int>
    decreases k,
{
    if k <= 0 {
        None
    } else {
        match moments[k - 1].event {
            SessionEvent::Checked { check: CheckAnswer::Done(_), .. } => Some(k - 1),
            _ => last_checked(moments, k - 1),
        }
    }
}

/// Whether one of the first `k` moments showed the volume in the mount table.
pub open spec fn was_seen(moments: Seq<Moment>, k: int) -> bool {
    exists|j: int| 0 <= j < k && shows_volume(#[trigger] moments[j])
}

/// The mount table showed the volume.
pub open spec fn shows_volume(m: Moment) -> bool {
    m.event matches SessionEvent::Mounted { mounted, .. } && mounted
}

/// The files that are being or wait to be uploaded.
pub open spec fn waiting(stats: VfsStats) -> int {
    stats.uploads_queued + stats.uploads_in_progress
}

/// The answers of rclone can be counted up.
pub open spec fn countable(moments: Seq<Moment>) -> bool {
    forall|j: int| 0 <= j < moments.len() ==> answer_countable(#[trigger] moments[j])
}

pub open spec fn answer_countable(m: Moment) -> bool {
    m.event matches SessionEvent::Stats { answer: Ok(stats), .. } ==> waiting(stats) <= u64::MAX
}

// ---------------------------------------------------------------------------
// One moment
// ---------------------------------------------------------------------------

/// What a moment changes of what the session remembers of queue and bucket.
proof fn lemma_moment(s: SessionModel, m: Moment)
    ensures
        s.at(m).session.profile == s.profile,
        s.at(m).session.health_interval_secs == s.health_interval_secs,
        s.at(m).session.stats == (match m.event {
            SessionEvent::Stats { answer: Ok(stats), .. } => stats,
            _ => s.stats,
        }),
        match m.event {
            SessionEvent::Checked { check: CheckAnswer::Done(Ok(_)), .. } => s.at(
                m,
            ).session.reachable == Some(true),
            SessionEvent::Checked {
                check: CheckAnswer::Done(Err(e)),
                needs_login,
                ..
            } => s.at(m).session.reachable == Some(false) && s.at(m).session.health_detail == e@
                && s.at(m).session.signin_needed == (s.profile is Some && (e@
                == "AWS SSO session expired or invalid"@ || needs_login)),
            _ => s.at(m).session.reachable == s.reachable && s.at(m).session.health_detail
                == s.health_detail && s.at(m).session.signin_needed == s.signin_needed,
        },
        s.at(m).session.mounted_seen == (s.mounted_seen || shows_volume(m)),
{
    match m.event {
        SessionEvent::Mounted { mounted, now } => {},
        SessionEvent::Stats { answer, now } => {},
        SessionEvent::Generation { generation, now } => {},
        SessionEvent::Checked { check, needs_login, now } => {},
        _ => {},
    }
}

// ---------------------------------------------------------------------------
// Sequences of moments
// ---------------------------------------------------------------------------

/// A session remembers exactly the last answer about the queue, however many
/// events of other kinds came since, and nothing of an answer before it.
pub proof fn lemma_last_answer_remembered(
    health_interval_secs: u64,
    profile: Option<SsoModel>,
    moments: Seq<Moment>,
    k: int,
)
    requires
        0 <= k <= moments.len(),
    ensures
        SessionModel::fresh(health_interval_secs, profile).after(moments, k).stats == last_answer(
            moments,
            k,
        ),
    decreases k,
{
    if k > 0 {
        lemma_last_answer_remembered(health_interval_secs, profile, moments, k - 1);
        lemma_moment(
            SessionModel::fresh(health_interval_secs, profile).after(moments, k - 1),
            moments[k - 1],
        );
    }
}

/// A session remembers exactly the outcome of the last check that came to an
/// end: whether it succeeded, why it failed, and whether that calls for a
/// sign-in. It calls for one only with an SSO profile behind the mount, and
/// then when the check told of a lost session or the cached token did not
/// serve.
pub proof fn lemma_last_check_remembered(
    health_interval_secs: u64,
    profile: Option<SsoModel>,
    moments: Seq<Moment>,
    k: int,
)
    requires
        0 <= k <= moments.len(),
    ensures
        ({
            let s = SessionModel::fresh(health_interval_secs, profile).after(moments, k);
            &&& s.profile == profile
            &&& match last_checked(moments, k) {
                None => s.reachable is None,
                Some(j) => match moments[j].event {
                    SessionEvent::Checked { check: CheckAnswer::Done(Ok(_)), .. } => s.reachable
                        == Some(true),
                    SessionEvent::Checked {
                        check: CheckAnswer::Done(Err(e)),
                        needs_login,
                        ..
                    } => s.reachable == Some(false) && s.health_detail == e@ && s.signin_needed == (
                    profile is Some && (e@ == "AWS SSO session expired or invalid"@
                        || needs_login)),
                    _ => false,
                },
            }
        }),
    decreases k,
{
    if k > 0 {
        lemma_last_check_remembered(health_interval_secs, profile, moments, k - 1);
        lemma_moment(
            SessionModel::fresh(health_interval_secs, profile).after(moments, k - 1),
            moments[k - 1],
        );
    }
}

/// A volume counts as seen once the mount table has shown it, and not before.
pub proof fn lemma_seen_remembered(
    health_interval_secs: u64,
    profile: Option<SsoModel>,
    moments: Seq<Moment>,
    k: int,
)
    requires
        0 <= k <= moments.len(),
    ensures
        SessionModel::fresh(health_interval_secs, profile).after(moments, k).mounted_seen
            == was_seen(moments, k),
    decreases k,
{
    if k > 0 {
        lemma_seen_remembered(health_interval_secs, profile, moments, k - 1);
        let s = SessionModel::fresh(health_interval_secs, profile).after(moments, k - 1);
        lemma_moment(s, moments[k - 1]);
        if was_seen(moments, k - 1) {
            let j = choose|j: int| 0 <= j < k - 1 && shows_volume(#[trigger] moments[j]);
            assert(shows_volume(moments[j]));
        }
        if s.at(moments[k - 1]).session.mounted_seen && !s.mounted_seen {
            assert(shows_volume(moments[k - 1]));
        }
    }
}

/// A round of questions that was asked of a mounted volume is over with moment
/// `k`: the next look comes after a while.
pub open spec fn round_over(o: Outcome, m: Moment) -> bool {
    (m.event is Generation || m.event is Checked) && o.action == ActionModel::Sleep
}

/// What is shown when a round is over. The uploads are counted from the last
/// answer. While no check has come to an end the mount is starting; after one
/// that failed it is a problem, and the files that wait are told of; after one
/// that succeeded it is syncing just when files are being or wait to be
/// uploaded, and otherwise connected, with a word on those that failed.
pub proof fn lemma_what_is_shown(
    health_interval_secs: u64,
    profile: Option<SsoModel>,
    moments: Seq<Moment>,
    k: int,
)
    requires
        0 <= k < moments.len(),
        countable(moments),
        round_over(
            SessionModel::fresh(health_interval_secs, profile).after(moments, k).at(moments[k]),
            moments[k],
        ),
    ensures
        ({
            let status = SessionModel::fresh(health_interval_secs, profile).after(moments, k).at(
                moments[k],
            ).status;
            let stats = last_answer(moments, k + 1);
            let n = number::decimal(waiting(stats) as nat);
            let extra = if waiting(stats) > 0 {
                " · "@ + n + " file(s) waiting to upload"@
            } else {
                Seq::<char>::empty()
            };
            &&& status.uploads_pending == waiting(stats)
            &&& status.errored_files == stats.errored_files
            &&& match last_checked(moments, k + 1) {
                None => status.shows(State::Starting, "Mounted, checking bucket…"@),
                Some(j) => match moments[j].event {
                    SessionEvent::Checked { check: CheckAnswer::Done(Ok(_)), .. } => if waiting(
                        stats,
                    ) > 0 {
                        status.shows(State::Syncing, "Uploading "@ + n + " file(s)"@)
                    } else if stats.errored_files > 0 {
                        status.shows(
                            State::Connected,
                            "Connected · "@ + number::decimal(stats.errored_files as nat)
                                + " file(s) failed to upload, see log"@,
                        )
                    } else {
                        status.shows(State::Connected, "Connected"@)
                    },
                    SessionEvent::Checked {
                        check: CheckAnswer::Done(Err(e)),
                        needs_login,
                        ..
                    } => match profile {
                        Some(p) if e@ == "AWS SSO session expired or invalid"@ || needs_login =>
                        status.shows(
                            State::SignInRequired,
                            "AWS SSO session for profile '"@ + p.profile + "' has expired"@ + extra,
                        ),
                        _ => status.shows(
                            State::Disconnected,
                            "Bucket unreachable: "@ + e@ + extra,
                        ),
                    },
                    _ => false,
                },
            }
        }),
{
    let fresh = SessionModel::fresh(health_interval_secs, profile);
    let s = fresh.after(moments, k);
    let o = s.at(moments[k]);
    lemma_last_answer_remembered(health_interval_secs, profile, moments, k + 1);
    lemma_last_check_remembered(health_interval_secs, profile, moments, k + 1);
    lemma_counted(moments, k + 1);
    assert(fresh.after(moments, k + 1) == o.session);
    lemma_concluded(s, moments[k]);
}

proof fn lemma_counted(moments: Seq<Moment>, k: int)
    requires
        countable(moments),
        0 <= k <= moments.len(),
    ensures
        waiting(last_answer(moments, k)) <= u64::MAX,
    decreases k,
{
    if k > 0 {
        lemma_counted(moments, k - 1);
        assert(answer_countable(moments[k - 1]));
    }
}

/// A round that is over shows what the session has come to remember.
proof fn lemma_concluded(s: SessionModel, m: Moment)
    requires
        round_over(s.at(m), m),
    ensures
        s.at(m).status.uploads_pending == waiting(s.at(m).session.stats) as u64,
        s.at(m).status.errored_files == s.at(m).session.stats.errored_files,
        s.at(m).status.shows(s.at(m).session.verdict().0, s.at(m).session.verdict().1),
{
    match m.event {
        SessionEvent::Generation { generation, now } => {},
        SessionEvent::Checked { check, needs_login, now } => {},
        _ => {},
    }
}

// ---------------------------------------------------------------------------
// When the questions are asked
// ---------------------------------------------------------------------------

/// `since` was at least `secs` seconds before `now`.
pub open spec fn passed(since: u64, secs: int, now: u64) -> bool {
    now - since >= secs * 1_000_000_000
}

/// A mounted volume is asked for its queue every five seconds: when it never
/// was, or five seconds have passed since, and only then; and the time of the
/// question is what the next one is reckoned from.
pub proof fn lemma_queue_asked_every_five_seconds(s: SessionModel, m: Moment, now: u64)
    ensures
        ({
            let o = s.on_mounted(m.status, m.ctx, true, now);
            let due = match s.last_rc {
                Some(t) => t <= now && passed(t, 5, now),
                None => true,
            };
            &&& o.action == (if due {
                ActionModel::AskStats
            } else {
                ActionModel::AskGeneration
            })
            &&& o.session.last_rc == (if due {
                Some(now)
            } else {
                s.last_rc
            })
        }),
        !(m.event is Mounted) ==> s.at(m).session.last_rc == s.last_rc,
{
    match m.event {
        SessionEvent::Generation { generation, now } => {},
        SessionEvent::Checked { check, needs_login, now } => {},
        _ => {},
    }
}

/// A check of the bucket is started just when none is running and one is due:
/// after a sign-in, when there was none before, or when the interval has passed,
/// which is at most ten seconds long while the bucket cannot be reached. While
/// one is running it is looked at. The number of sign-ins is remembered.
pub proof fn lemma_bucket_checked_when_due(
    s: SessionModel,
    status: StatusModel,
    ctx: CtxModel,
    generation: u64,
    now: u64,
)
    ensures
        ({
            let o = s.on_generation(status, ctx, generation, now);
            let secs = if s.reachable == Some(false) && s.health_interval_secs > 10 {
                10int
            } else {
                s.health_interval_secs as int
            };
            let due = generation != s.login_generation || match s.last_health {
                Some(t) => if now >= t {
                    passed(t, secs, now)
                } else {
                    secs == 0
                },
                None => true,
            };
            &&& o.action == (ActionModel::Check { start: true }) <==> !s.checking && due
            &&& o.action == (ActionModel::Check { start: false }) <==> s.checking
            &&& o.session.checking == (s.checking || due)
            &&& o.session.login_generation == generation
        }),
{
}

/// A check that came to an end, with or without a result, is no longer running,
/// and the next one is reckoned from its end; one that has not is still running.
pub proof fn lemma_check_ends(
    s: SessionModel,
    status: StatusModel,
    ctx: CtxModel,
    check: CheckAnswer,
    needs_login: bool,
    now: u64,
)
    ensures
        ({
            let o = s.on_check(status, ctx, check, needs_login, now);
            &&& check is Pending ==> o.session == s
            &&& !(check is Pending) ==> !o.session.checking && o.session.last_health == Some(now)
            &&& check is Lost ==> o.session.reachable == s.reachable && o.session.health_detail
                == s.health_detail && o.session.signin_needed == s.signin_needed
            &&& check matches CheckAnswer::Done(Ok(_)) ==> o.session.reachable == Some(true)
                && o.session.health_detail.len() == 0 && !o.session.signin_needed
            &&& check matches CheckAnswer::Done(Err(e)) ==> o.session.reachable == Some(false)
                && o.session.health_detail == e@
            &&& o.session.stats == s.stats && o.session.login_generation == s.login_generation
            &&& o.action == ActionModel::Sleep
        }),
{
}

// ---------------------------------------------------------------------------
// How a session begins and ends
// ---------------------------------------------------------------------------

/// Why a session ends when the process is gone: its exit status and, if the log
/// told of an error, that. A process that runs is no reason, and one that cannot
/// be looked at, or has exited, is not ended again.
pub proof fn lemma_end_of_the_process(
    s: SessionModel,
    status: StatusModel,
    ctx: CtxModel,
    st: String,
)
    ensures
        s.on_look(status, ctx, Look::Exited(st)).action == (ActionModel::End {
            reason: match status.last_error {
                Some(e) => "rclone exited ("@ + st@ + "): "@ + e,
                None => "rclone exited ("@ + st@ + ")"@,
            },
            terminate: false,
        }),
        s.on_look(status, ctx, Look::Failed(st)).action == (ActionModel::End {
            reason: "rclone wait failed: "@ + st@,
            terminate: false,
        }),
        s.on_look(status, ctx, Look::Running).action == ActionModel::AskMounted,
        forall|look: Look|
            (#[trigger] s.on_look(status, ctx, look)).status == status && s.on_look(
                status,
                ctx,
                look,
            ).session == s,
{
}

/// A volume that has not appeared is waited for, and shown as mounting, for 45
/// seconds; one that was there is waited for, with nothing new to show, for
/// eight. Until then the session goes on.
pub proof fn lemma_waits_for_the_volume(
    s: SessionModel,
    status: StatusModel,
    ctx: CtxModel,
    now: u64,
)
    ensures
        ({
            let o = s.on_mounted(status, ctx, false, now);
            let gone = match s.unmounted_since {
                Some(t) => t,
                None => now,
            };
            &&& !s.mounted_seen && now - s.started <= 45_000_000_000 ==> o.action
                == ActionModel::Sleep && o.status.shows(State::Starting, "Mounting…"@)
            &&& !s.mounted_seen && now - s.started > 45_000_000_000 ==> o.action == (
            ActionModel::End {
                reason: match status.last_error {
                    Some(e) => "Mount did not come up: "@ + e,
                    None => "Mount did not come up in time"@,
                },
                terminate: true,
            })
            &&& s.mounted_seen && now - gone <= 8_000_000_000 ==> o.action == ActionModel::Sleep
                && o.effects.notice is None && o.status.state == status.state
            &&& s.mounted_seen && now - gone > 8_000_000_000 ==> o.action == (ActionModel::End {
                reason: "Volume was unmounted"@,
                terminate: true,
            })
            &&& !o.status.mounted
        }),
        s.on_mounted(status, ctx, true, now).status == (StatusModel { mounted: true, ..status }),
{
}

/// A mute rclone is borne with for ninety seconds, and the session goes on as if
/// it had answered.
pub proof fn lemma_waits_for_rclone(
    s: SessionModel,
    status: StatusModel,
    ctx: CtxModel,
    e: String,
    stats: VfsStats,
    now: u64,
)
    ensures
        ({
            let o = s.on_stats(status, ctx, Err(e), now);
            let mute = match s.rc_fail_since {
                Some(t) => t,
                None => now,
            };
            &&& now - mute <= 90_000_000_000 ==> o.action == ActionModel::AskGeneration
            &&& now - mute > 90_000_000_000 ==> o.action == (ActionModel::End {
                reason: "rclone stopped responding"@,
                terminate: true,
            })
            &&& o.status == status
        }),
        s.on_stats(status, ctx, Ok(stats), now).action == ActionModel::AskGeneration,
        s.on_stats(status, ctx, Ok(stats), now).status == status,
{
}

/// A session begins by showing that it mounts and starting rclone. Once rclone
/// runs, its process is known, the log tail is empty, the wait for the volume is
/// reckoned from then, and the process is looked at. If it does not start, the
/// mount is in error and the session over, for that reason.
pub proof fn lemma_beginning(
    s: SessionModel,
    status: StatusModel,
    ctx: CtxModel,
    pid: u32,
    generation: u64,
    error: String,
    now: u64,
)
    ensures
        ({
            let begun = s.step(SessionEvent::Begin { now }, status, ctx);
            let spawned = s.step(SessionEvent::Spawned { pid, generation, now }, status, ctx);
            let failed = s.step(SessionEvent::SpawnFailed { error, now }, status, ctx);
            &&& begun.action == ActionModel::Spawn
            &&& begun.status.shows(State::Starting, "Mounting…"@)
            &&& spawned.action == ActionModel::Look
            &&& spawned.status == (StatusModel {
                pid: Some(pid),
                log_tail: Seq::empty(),
                ..status
            })
            &&& spawned.session == (SessionModel { started: now, login_generation: generation, ..s })
            &&& failed.action == (ActionModel::End {
                reason: "Cannot start rclone: "@ + error@,
                terminate: false,
            })
            &&& failed.status.shows(State::Error, "Cannot start rclone: "@ + error@)
        }),
{
}

/// A session touches nothing of the status but what it is about: it never
/// changes the count of restarts, the last error, the profile or the wish for a
/// resync.
pub proof fn lemma_rest_of_the_status(s: SessionModel, m: Moment)
    ensures
        s.at(m).status.restarts == m.status.restarts,
        s.at(m).status.last_error == m.status.last_error,
        s.at(m).status.sso_profile == m.status.sso_profile,
        s.at(m).status.needs_resync == m.status.needs_resync,
        s.at(m).status.mounted == (match m.event {
            SessionEvent::Mounted { mounted, .. } => mounted,
            _ => m.status.mounted,
        }),
        !(m.event is Spawned) ==> s.at(m).status.pid == m.status.pid && s.at(m).status.log_tail
            == m.status.log_tail,
{
    match m.event {
        SessionEvent::Mounted { mounted, now } => {},
        SessionEvent::Stats { answer, now } => {},
        SessionEvent::Generation { generation, now } => {},
        SessionEvent::Checked { check, needs_login, now } => {},
        _ => {},
    }
}

/// Before anything has happened nothing is known: neither of the volume, nor of
/// rclone's queue, nor of the bucket.
pub proof fn lemma_nothing_known_at_first(health_interval_secs: u64, profile: Option<SsoModel>)
    ensures
        ({
            let s = SessionModel::fresh(health_interval_secs, profile);
            &&& s.health_interval_secs == health_interval_secs && s.profile == profile
            &&& !s.mounted_seen && s.unmounted_since is None
            &&& s.last_rc is None && s.rc_fail_since is None
            &&& s.stats.uploads_queued == 0 && s.stats.uploads_in_progress == 0
            &&& s.stats.errored_files == 0
            &&& !s.checking && s.last_health is None && s.reachable is None && !s.signin_needed
        }),
{
}

/// Whatever is shown goes through the mount's status: since when it holds, when
/// all was last well, and what the user is told of it follow from that alone.
pub proof fn lemma_shown_is_set(
    s: SessionModel,
    status: StatusModel,
    ctx: CtxModel,
    state: State,
    detail: Seq<char>,
    now: u64,
    action: ActionModel,
)
    ensures
        ({
            let o = s.shown(status, ctx, state, detail, now, action);
            &&& o.status == status.showing(state, detail, now)
            &&& o.ctx == ctx.after(status, state, detail, now)
            &&& o.effects == ctx.effects(status, state, detail, now)
            &&& o.action == action
        }),
        ({
            let o = s.silent(status, ctx, action);
            &&& o.status == status && o.ctx == ctx && o.action == action
            &&& o.effects.log is None && o.effects.notice is None && !o.effects.refresh
        }),
{
}

} // verus!
