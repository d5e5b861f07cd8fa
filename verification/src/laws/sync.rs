//! Keeping a folder in sync: when bisync runs, what a run comes to, and what is
//! shown of it.

use crate::config;
use crate::laws;
use crate::number;
use crate::path;
use crate::rclone;
use crate::split;
use crate::sso::SsoProfile;
use crate::supervisor::{CtxModel, State, StatusModel};
use crate::sync;
use crate::sync::{Failure, FailureModel, FolderFound, RunEnd};
use crate::syncer::{SyncActionModel, SyncEvent, SyncerModel};
use crate::text;
use vstd::prelude::*;

verus! {

// ---------------------------------------------------------------------------
// What a run comes to
// ---------------------------------------------------------------------------

/// A run succeeds just when rclone exits with success. One that tells of a lost
/// SSO session calls for a sign-in. One that asks for a resync calls for one,
/// unless it was one itself. Of any other the user is told rclone's own words, or
/// that too much would have been deleted.
pub proof fn lemma_what_a_run_comes_to(output: Vec<String>, resync: bool)
    ensures
        sync::run_failure(RunEnd::Exited { success: true, output }, resync) is None,
        ({
            let said = split::joined(text::views(output@), "\n"@);
            let lost = split::has(said, "Must run --resync"@) || split::has(
                said,
                "must run --resync"@,
            );
            let f = sync::run_failure(RunEnd::Exited { success: false, output }, resync);
            &&& f is Some
            &&& f == Some(FailureModel::SignIn) <==> laws::keeper::tells_of_lost_session(said)
            &&& f is Some && f->Some_0 is NeedsResync
                <==> !laws::keeper::tells_of_lost_session(said) && lost && !resync
            &&& f->Some_0 is NeedsResync ==> f == Some(
                FailureModel::NeedsResync(rclone::summary(said)),
            )
            &&& f->Some_0 is Other && !split::has(said, "too many deletes"@) ==> f == Some(
                FailureModel::Other(rclone::summary(said)),
            )
            &&& f->Some_0 is Other && split::has(said, "too many deletes"@) ==> f == Some(
                FailureModel::Other(
                    "Stopped: more than half the files would be deleted. Check the folder, then pass --force under Extra rclone flags for one run. ("@
                        + rclone::summary(said) + ")"@,
                ),
            )
        }),
{
}

/// A run that never came to an exit is told of as what kept it from one.
pub proof fn lemma_run_without_exit(dir: String, error: String, resync: bool)
    ensures
        sync::run_failure(RunEnd::NoWorkdir { dir, error }, resync) == Some(
            FailureModel::Other("Cannot create "@ + dir@ + ": "@ + error@),
        ),
        sync::run_failure(RunEnd::NotStarted(error), resync) == Some(
            FailureModel::Other("Cannot start rclone: "@ + error@),
        ),
        sync::run_failure(RunEnd::WaitFailed(error), resync) == Some(
            FailureModel::Other("rclone wait failed: "@ + error@),
        ),
        sync::run_failure(RunEnd::Stopped, resync) == Some(FailureModel::Other("Stopped"@)),
        !sync::reaped(RunEnd::NotStarted(error)) && !sync::reaped(RunEnd::WaitFailed(error))
            && !sync::reaped(RunEnd::NoWorkdir { dir, error }) && sync::reaped(RunEnd::Stopped),
{
}

// ---------------------------------------------------------------------------
// After a run
// ---------------------------------------------------------------------------

/// After a run that brought both sides in sync the folder is up to date, no
/// error is left, a later failure is the first again, and the next look at the
/// bucket is due after the poll interval.
pub proof fn lemma_after_success(s: SyncerModel, status: StatusModel, ctx: CtxModel, stopping: bool, needs_login: bool, now: u64)
    ensures
        ({
            let o = s.step(
                SyncEvent::Ran { result: Ok(()), stopping, needs_login, now },
                status,
                ctx,
            );
            &&& o.status.shows(State::Connected, "Up to date"@)
            &&& o.status.last_error is None
            &&& o.status.last_ok == Some(now)
            &&& o.syncer.failures == 0
            &&& o.syncer.retry_at == now
            &&& o.syncer.next_remote == now + s.poll_secs * 1_000_000_000
            &&& o.syncer.needs_resync == s.needs_resync
            &&& o.action == (SyncActionModel::Tick { changed: false })
        }),
{
}

/// The seconds until the next attempt after `n` failures in a row.
pub open spec fn retry_secs(n: nat) -> int {
    laws::keeper::wait_after(n)
}

/// After a run that failed the folder is a problem: it waits for a sign-in if
/// rclone said so, or if a profile is behind it whose token does not serve; it
/// is in error for good if the state is lost; and otherwise it is disconnected,
/// with rclone's words and the seconds until the next attempt, which grow with
/// each failure in a row. Local changes that the run was for are not forgotten.
pub proof fn lemma_after_failure(
    s: SyncerModel,
    status: StatusModel,
    ctx: CtxModel,
    f: Failure,
    needs_login: bool,
    now: u64,
)
    requires
        s.failures < u32::MAX,
    ensures
        ({
            let o = s.step(
                SyncEvent::Ran { result: Err(f), stopping: false, needs_login, now },
                status,
                ctx,
            );
            let secs = retry_secs((s.failures + 1) as nat);
            let expired = match s.profile {
                Some(p) => "AWS SSO session for profile '"@ + p.profile + "' has expired"@,
                None => "AWS SSO session has expired"@,
            };
            &&& o.syncer.failures == s.failures + 1
            &&& o.syncer.retry_at == now + secs * 1_000_000_000
            &&& o.syncer.next_remote == o.syncer.retry_at
            &&& o.action == (SyncActionModel::Tick { changed: s.local_due })
            &&& f is SignIn ==> o.status.shows(State::SignInRequired, expired)
            &&& f matches Failure::NeedsResync(e) ==> o.status.shows(
                State::Error,
                "Sync state was lost ("@ + e@
                    + "). Click Resync to merge the folder and the bucket again."@,
            ) && o.status.needs_resync && o.syncer.needs_resync
            &&& !(f is NeedsResync) ==> o.syncer.needs_resync == s.needs_resync
                && o.status.needs_resync == status.needs_resync
            &&& f matches Failure::Other(e) ==> (if s.profile is Some && needs_login {
                o.status.shows(State::SignInRequired, expired)
            } else {
                o.status.shows(
                    State::Disconnected,
                    "Sync failed: "@ + e@ + ". Retrying in "@ + number::decimal(secs as nat) + "s"@,
                )
            })
        }),
{
    laws::keeper::lemma_wait_after((s.failures + 1) as nat);
}

// ---------------------------------------------------------------------------
// When bisync runs
// ---------------------------------------------------------------------------

/// A run begins just when nothing holds it back (lost state, the wait after a
/// failure) and there is a reason for it: local changes that have settled, or
/// the time for a look at the bucket. A fresh sign-in is such a reason, and ends
/// the wait. What the run is for is remembered.
pub proof fn lemma_when_it_runs(
    s: SyncerModel,
    status: StatusModel,
    ctx: CtxModel,
    generation: u64,
    changed: Option<u64>,
    now: u64,
)
    ensures
        ({
            let o = s.step(
                SyncEvent::Tick { stopping: false, generation, changed, now },
                status,
                ctx,
            );
            let fresh = generation != s.login_generation;
            let settled = match changed {
                Some(t) => if t <= now {
                    now - t >= s.quiet_secs * 1_000_000_000
                } else {
                    s.quiet_secs == 0
                },
                None => false,
            };
            let free = !s.needs_resync && (fresh || now >= s.retry_at);
            let reason = settled || fresh || now >= s.next_remote;
            &&& o.action == SyncActionModel::AskState <==> free && reason
            &&& !(free && reason) ==> o.action == (SyncActionModel::Sleep { millis: 250 })
            &&& free && reason ==> o.syncer.local_due == settled
            &&& o.syncer.login_generation == generation
            &&& !(free && reason) && changed is Some && !s.needs_resync && (status.state
                == State::Connected || status.state == State::Syncing) ==> o.status.shows(
                State::Syncing,
                "Local changes waiting to upload"@,
            )
            &&& (free && reason) || changed is None || s.needs_resync || !(status.state
                == State::Connected || status.state == State::Syncing) ==> o.status == status
        }),
{
}

/// How long local changes settle, and how often the bucket is looked at, are the
/// settings' own numbers of seconds, but at least one and at least ten.
pub proof fn lemma_intervals(write_back_secs: u64, dir_cache_secs: u64)
    ensures
        ({
            let s = SyncerModel::fresh(write_back_secs, dir_cache_secs);
            &&& s.quiet_secs == (if write_back_secs >= 1 {
                write_back_secs
            } else {
                1
            })
            &&& s.poll_secs == (if dir_cache_secs >= 10 {
                dir_cache_secs
            } else {
                10
            })
            &&& s.failures == 0 && !s.needs_resync && s.profile is None && !s.local_due
        }),
{
}

/// Before bisync runs the user is shown what for: a first sync, or local changes;
/// a look at the bucket changes nothing of what is shown.
pub proof fn lemma_what_it_runs_for(
    s: SyncerModel,
    status: StatusModel,
    ctx: CtxModel,
    now: u64,
)
    ensures
        ({
            let first = s.step(SyncEvent::StateKnown { known: false, now }, status, ctx);
            let next = s.step(SyncEvent::StateKnown { known: true, now }, status, ctx);
            &&& first.status.shows(State::Starting, "First sync with the bucket…"@)
            &&& first.action == (SyncActionModel::Run {
                resync: true,
                note: Some("["@ + ctx.name + "] no sync state yet: running a full resync"@),
            })
            &&& next.action == (SyncActionModel::Run { resync: false, note: None })
            &&& s.local_due ==> next.status.shows(State::Syncing, "Syncing local changes…"@)
            &&& !s.local_due ==> next.status == status
            &&& first.syncer == s && next.syncer == s
        }),
{
}

/// The profile that the folder is synced with is remembered and named, if there
/// is one, and nothing else changes.
pub proof fn lemma_profile_named(s: SyncerModel, status: StatusModel, ctx: CtxModel, p: SsoProfile)
    ensures
        ({
            let with = s.step(SyncEvent::Resolved { profile: Some(p) }, status, ctx);
            let without = s.step(SyncEvent::Resolved { profile: None }, status, ctx);
            &&& with.syncer == (SyncerModel { profile: Some(p@), ..s })
            &&& with.status == (StatusModel { sso_profile: Some(p@.profile), ..status })
            &&& without.syncer == (SyncerModel { profile: None, ..s })
            &&& without.status == (StatusModel { sso_profile: None, ..status })
            &&& with.action == SyncActionModel::Watch && without.action == SyncActionModel::Watch
            &&& with.ctx == ctx && without.ctx == ctx
        }),
{
}

/// A folder that is no longer synced is shown as stopped, without a volume or a
/// process; it is written to the log, and the user is told nothing.
pub proof fn lemma_closed(s: SyncerModel, status: StatusModel, ctx: CtxModel)
    ensures
        ({
            let end = s.step(SyncEvent::Closed, status, ctx);
            &&& end.action == SyncActionModel::Done
            &&& end.status == (StatusModel {
                state: State::Disabled,
                detail: "Stopped"@,
                mounted: false,
                pid: None,
                ..status
            })
            &&& end.syncer == s && end.ctx == ctx
            &&& end.effects.log == Some("["@ + ctx.name + "] sync stopped"@)
            &&& end.effects.notice is None && !end.effects.refresh
        }),
{
}

/// Setting up: without rclone, or with a folder that cannot be used, an error is
/// shown and another attempt made after a while; with both the folder counts as
/// mounted, the profile behind it is named, and everything is due at once.
pub proof fn lemma_setting_up(
    s: SyncerModel,
    status: StatusModel,
    ctx: CtxModel,
    e: String,
    generation: u64,
    now: u64,
)
    ensures
        ({
            let none = s.step(
                SyncEvent::Ready { stopping: false, rclone_found: false, now },
                status,
                ctx,
            );
            let ready = s.step(
                SyncEvent::Ready { stopping: false, rclone_found: true, now },
                status,
                ctx,
            );
            let stop = s.step(
                SyncEvent::Ready { stopping: true, rclone_found: true, now },
                status,
                ctx,
            );
            let bad = s.step(SyncEvent::Prepared { folder: Err(e), now }, status, ctx);
            let good = s.step(SyncEvent::Prepared { folder: Ok(()), now }, status, ctx);
            let watching = s.step(SyncEvent::Watching { generation, now }, status, ctx);
            &&& none.action == (SyncActionModel::Wait { secs: 30 })
            &&& none.status.shows(
                State::Error,
                "rclone not found. Reinstall BucketMount or set rclone_path in config.toml."@,
            )
            &&& ready.action == SyncActionModel::Prepare
            &&& stop.action == SyncActionModel::Close
            &&& bad.action == (SyncActionModel::Wait { secs: 15 })
            &&& bad.status.shows(State::Error, e@)
            &&& good.action == SyncActionModel::Resolve
            &&& good.status == (StatusModel { mounted: true, ..status })
            &&& watching.action == (SyncActionModel::Tick { changed: false })
            &&& watching.syncer.next_remote == now && watching.syncer.retry_at == now
            &&& watching.syncer.login_generation == generation && !watching.syncer.needs_resync
            &&& watching.syncer.failures == 0 && watching.status == status
            &&& ready.status == status && ready.syncer == s && stop.status == status
        }),
{
}

// ---------------------------------------------------------------------------
// Files
// ---------------------------------------------------------------------------

/// The name can be that of a file: it has no slash in it and is no step up or
/// nowhere.
pub open spec fn file_like(name: Seq<char>) -> bool {
    name.len() > 0 && split::free_of(name, text::Class::Only('/')) && name != seq!['.'] && name
        != seq!['.', '.']
}

/// A change of a file in any directory counts by the file's name alone: Finder
/// metadata and swap files do not, everything else does.
pub proof fn lemma_changes_that_count(dir: Seq<char>, name: Seq<char>)
    requires
        file_like(name),
    ensures
        sync::counts(dir + seq!['/'] + name) <==> !({
            ||| name == ".DS_Store"@
            ||| "._"@.is_prefix_of(name)
            ||| "."@.is_prefix_of(name) && ".swp"@.is_suffix_of(name)
            ||| "."@.is_prefix_of(name) && ".swx"@.is_suffix_of(name)
        }),
{
    laws::path::lemma_name_of_file(dir, name);
}

/// In the name of a listing a path stands with underscores for slashes and
/// colons, one for one, without those in front.
pub proof fn lemma_encoding(p: Seq<char>)
    ensures
        p.len() > 0 && p[0] != '/' && p[0] != ':' && p[0] != '_' ==> sync::encoded(p).len()
            == p.len() && forall|i: int|
            0 <= i < p.len() ==> #[trigger] sync::encoded(p)[i] == (if p[i] == '/' || p[i] == ':' {
                '_'
            } else {
                p[i]
            }),
        sync::encoded(seq!['/'] + p) == sync::encoded(p),
        sync::encoded(seq![':'] + p) == sync::encoded(p),
{
    let m = p.map_values(|c: char| sync::underscored(c));
    text::lemma_trimmed_start(m, text::Class::Only('_'));
    let a = (seq!['/'] + p).map_values(|c: char| sync::underscored(c));
    let b = (seq![':'] + p).map_values(|c: char| sync::underscored(c));
    assert(a[0] == '_' && a.subrange(1, a.len() as int) =~= m);
    assert(b[0] == '_' && b.subrange(1, b.len() as int) =~= m);
    if p.len() > 0 && p[0] != '/' && p[0] != ':' && p[0] != '_' {
        assert(m[0] == p[0]);
        assert(sync::encoded(p) == m);
    }
}

/// The state of a folder is kept under its name, and bisync files what it knows
/// of a folder and a remote under both.
pub proof fn lemma_where_the_state_is(
    name: Seq<char>,
    folder: Seq<char>,
    remote: Seq<char>,
    home: Seq<char>,
)
    requires
        laws::config::usual_home(home),
    ensures
        sync::state_dir(name, home) == home + "/Library/Application Support/BucketMount/bisync/"@
            + rclone::sanitized(name),
        sync::listing_name(folder, remote) == sync::encoded(folder) + ".."@ + sync::encoded(remote)
            + ".path1.lst"@,
{
    laws::config::lemma_directories(home, home);
    let s = rclone::sanitized(name);
    if s.len() > 0 {
        laws::rclone::lemma_sanitized_in_place(name, 0);
        assert(s[0] != '/');
    }
    lemma_in_the_support_directory(home, s);
}

proof fn lemma_in_the_support_directory(home: Seq<char>, s: Seq<char>)
    requires
        s.len() > 0 ==> s[0] != '/',
    ensures
        path::joined_path(
            path::joined_path(home + "/Library/Application Support/BucketMount"@, "bisync"@),
            s,
        ) == home + "/Library/Application Support/BucketMount/bisync/"@ + s,
{
    reveal_strlit("bisync");
    reveal_strlit("/Library/Application Support/BucketMount");
    reveal_strlit("/Library/Application Support/BucketMount/bisync/");
    let dir = home + "/Library/Application Support/BucketMount"@;
    let sub = path::joined_path(dir, "bisync"@);
    assert(sub =~= dir + seq!['/'] + "bisync"@);
    assert("/Library/Application Support/BucketMount"@ + seq!['/'] + "bisync"@ + seq!['/']
        =~= "/Library/Application Support/BucketMount/bisync/"@);
    assert(sub + seq!['/'] =~= home + "/Library/Application Support/BucketMount/bisync/"@);
}

/// What keeps a folder from being synced is said; a folder is fine.
pub proof fn lemma_folder_in_the_way(folder: Seq<char>, error: String, home: Seq<char>)
    ensures
        sync::folder_obstacle(folder, FolderFound::Folder, home) is None,
        sync::folder_obstacle(folder, FolderFound::UnmountFailed(error), home) == Some(error@),
        sync::folder_obstacle(folder, FolderFound::CreateFailed(error), home) == Some(
            "Cannot create folder "@ + folder + ": "@ + error@,
        ),
        sync::folder_obstacle(folder, FolderFound::NotAFolder, home) == Some(
            config::collapsed(folder, home) + " is not a folder"@,
        ),
{
}

/// The process of a run is known to be gone when it has exited or was stopped,
/// and not when it could not be waited for.
pub proof fn lemma_when_the_process_is_gone(success: bool, output: Vec<String>, error: String)
    ensures
        sync::reaped(RunEnd::Exited { success, output }),
        sync::reaped(RunEnd::Stopped),
        !sync::reaped(RunEnd::WaitFailed(error)),
        !sync::reaped(RunEnd::NotStarted(error)),
        !sync::reaped(RunEnd::NoWorkdir { dir: error, error }),
{
}

/// Whatever is shown goes through the mount's status: since when it holds, when
/// all was last well, and what the user is told of it follow from that alone.
pub proof fn lemma_shown_is_set(
    s: SyncerModel,
    status: StatusModel,
    ctx: CtxModel,
    state: State,
    detail: Seq<char>,
    now: u64,
    action: SyncActionModel,
)
    ensures
        ({
            let o = s.shown(status, ctx, state, detail, now, action);
            &&& o.status == status.showing(state, detail, now)
            &&& o.ctx == ctx.after(status, state, detail, now)
            &&& o.effects == ctx.effects(status, state, detail, now)
            &&& o.action == action
        }),
        ({
            let o = s.silent(status, ctx, action);
            &&& o.status == status && o.ctx == ctx && o.action == action
            &&& o.effects.log is None && o.effects.notice is None && !o.effects.refresh
        }),
{
}

} // verus!
