//! What the user is told of a mount, and what is kept of its log.

use crate::config;
use crate::laws;
use crate::path;
use crate::rclone;
use crate::split;
use crate::sso::SsoModel;
use crate::supervisor;
use crate::supervisor::{CtxModel, EffectsModel, Preparation, State, StatusModel};
use vstd::prelude::*;

verus! {

/// Something that is wrong with a mount.
pub open spec fn wrong(s: State) -> bool {
    s == State::Disconnected || s == State::SignInRequired || s == State::Down || s == State::Error
}

/// A mount that does what it should.
pub open spec fn well(s: State) -> bool {
    s == State::Connected || s == State::Syncing
}

/// Whatever is set is shown from then on, and for as long as its state does not
/// change the mount is in it since it first was. The last time at which all was
/// well is the last time at which something new was shown of a healthy mount.
/// Nothing else of the status changes.
pub proof fn lemma_set_is_shown(s: StatusModel, state: State, detail: Seq<char>, now: u64)
    ensures
        ({
            let t = s.showing(state, detail, now);
            &&& t.state == state
            &&& t.detail == detail
            &&& s.state == state ==> t.since == s.since
            &&& s.state != state ==> t.since == now
            &&& !well(state) ==> t.last_ok == s.last_ok
            &&& well(state) && (s.state != state || s.detail != detail) ==> t.last_ok == Some(now)
            &&& s.state == state && s.detail == detail ==> t == s
            &&& t == (StatusModel {
                state: t.state,
                detail: t.detail,
                since: t.since,
                last_ok: t.last_ok,
                ..s
            })
        }),
{
}

/// The user hears of a mount that gets into trouble, by its name, what the
/// trouble is and the detail, and of one that is well again after trouble, by
/// its name; of nothing else. Every change of state is logged with the names of
/// both states, and nothing else is.
pub proof fn lemma_what_is_told(
    c: CtxModel,
    s: StatusModel,
    state: State,
    detail: Seq<char>,
    now: u64,
)
    ensures
        ({
            let e = c.effects(s, state, detail, now);
            let lately = c.last_notify matches Some(t) && now - t < 60_000_000_000;
            let what = if state == State::Disconnected {
                "connection to the bucket lost"@
            } else if state == State::SignInRequired {
                "AWS sign-in required. Open BucketMount and click Sign in"@
            } else if state == State::Down {
                "mount stopped, restarting"@
            } else {
                "needs attention"@
            };
            &&& e.notice == (if wrong(state) && !wrong(s.state) && !lately {
                Some(c.name + ": "@ + what + ". "@ + detail)
            } else if well(state) && wrong(s.state) && c.ever_healthy {
                Some(c.name + ": connection restored"@)
            } else {
                None
            })
            &&& e.log == (if s.state != state {
                Some(
                    "["@ + c.name + "] "@ + s.state.title() + " -> "@ + state.title() + ": "@
                        + detail,
                )
            } else {
                None
            })
            &&& e.refresh == (s.state != state || s.detail != detail)
        }),
{
}

/// What is remembered of what the user was told: the time of the last warning,
/// and whether the mount was ever well.
pub proof fn lemma_what_is_remembered(
    c: CtxModel,
    s: StatusModel,
    state: State,
    detail: Seq<char>,
    now: u64,
)
    ensures
        ({
            let d = c.after(s, state, detail, now);
            let lately = c.last_notify matches Some(t) && now - t < 60_000_000_000;
            &&& d.name == c.name
            &&& d.last_notify == (if wrong(state) && !wrong(s.state) && !lately {
                Some(now)
            } else {
                c.last_notify
            })
            &&& (s.state != state || s.detail != detail) ==> d.ever_healthy == (c.ever_healthy
                || well(state))
        }),
{
}

/// The states have the names by which the user knows them, and the colours:
/// green connected, blue syncing, orange mounting, red anything wrong, grey
/// disabled.
pub proof fn lemma_names_and_colours(s: State)
    ensures
        s.title() == (if s == State::Disabled {
            "Disabled"@
        } else if s == State::Starting {
            "Mounting"@
        } else if s == State::Connected {
            "Connected"@
        } else if s == State::Syncing {
            "Syncing"@
        } else if s == State::Disconnected {
            "Connection lost"@
        } else if s == State::SignInRequired {
            "Sign-in required"@
        } else if s == State::Down {
            "Mount down"@
        } else {
            "Error"@
        }),
        s.problem() == wrong(s),
        s.healthy() == well(s),
        wrong(s) ==> s.colour() == (255u8, 69u8, 58u8) && s.weight() == 4,
        s == State::Connected ==> s.colour() == (52u8, 199u8, 89u8) && s.weight() == 1,
        s == State::Syncing ==> s.colour() == (10u8, 132u8, 255u8) && s.weight() == 2,
        s == State::Starting ==> s.colour() == (255u8, 159u8, 10u8) && s.weight() == 3,
        s == State::Disabled ==> s.colour() == (142u8, 142u8, 147u8) && s.weight() == 0,
{
}

/// A line is kept at the end of the tail behind the lines that were there; only
/// when there were 200 is the first of them dropped.
pub proof fn lemma_tail_keeps_lines(tail: Seq<Seq<char>>, line: Seq<char>)
    ensures
        ({
            let t = supervisor::tail_with(tail, line);
            &&& t.last() == line
            &&& tail.len() < 200 ==> t == tail + seq![line]
            &&& tail.len() >= 200 ==> t == tail.skip(1) + seq![line]
            &&& tail.len() <= 200 ==> t.len() <= 200
        }),
{
    let t = supervisor::tail_with(tail, line);
    if tail.len() < 200 {
        assert(t =~= tail + seq![line]);
    } else {
        assert(t =~= tail.skip(1) + seq![line]);
    }
}

/// The lines that become the last error are those that name an error, a failure
/// or something critical.
pub proof fn lemma_alarming_lines(line: Seq<char>)
    ensures
        supervisor::alarming(line) <==> split::has(line, " ERROR "@) || split::has(
            line,
            "Failed to"@,
        ) || split::has(line, "CRITICAL"@),
{
}

/// A status begins with a state and what is said of it, and nothing else.
pub proof fn lemma_fresh_status(state: State, detail: Seq<char>, now: u64)
    ensures
        ({
            let s = StatusModel::fresh(state, detail, now);
            &&& s.state == state && s.detail == detail && s.since == now
            &&& !s.mounted && !s.needs_resync
            &&& s.uploads_pending == 0 && s.errored_files == 0 && s.restarts == 0
            &&& s.pid is None && s.last_ok is None && s.last_error is None && s.sso_profile is None
            &&& s.log_tail.len() == 0
        }),
{
}

/// No effects are none at all: nothing is drawn, logged or told.
pub proof fn lemma_no_effects()
    ensures
        !EffectsModel::none().refresh,
        EffectsModel::none().log is None,
        EffectsModel::none().notice is None,
{
}

/// A mount that waits for a sign-in says for which profile, if that is known.
pub proof fn lemma_expired(p: SsoModel)
    ensures
        supervisor::expired_text(Some(p)) == "AWS SSO session for profile '"@ + p.profile
            + "' has expired"@,
        supervisor::expired_text(None) == "AWS SSO session has expired"@,
{
}

/// What has passed between two points in time, both ways.
pub proof fn lemma_time_between(t: u64, d: u64)
    requires
        t + d <= u64::MAX,
    ensures
        supervisor::since(t, (t + d) as u64) == d,
        supervisor::since((t + d) as u64, t) == 0,
{
}

/// An entry that Finder leaves behind.
pub open spec fn left_by_finder(entry: Option<String>) -> bool {
    match entry {
        Some(n) => n@ == ".DS_Store"@ || n@ == ".localized"@,
        None => false,
    }
}

/// What keeps a volume from being mounted is said as it was reported, with the
/// mount point where the report does not name it.
pub proof fn lemma_in_the_way(place: Seq<char>, error: String, home: Seq<char>)
    ensures
        supervisor::obstacle(place, Preparation::UnmountFailed(error), home) == Some(error@),
        supervisor::obstacle(place, Preparation::CreateFailed(error), home) == Some(
            "Cannot create mount point "@ + place + ": "@ + error@,
        ),
        supervisor::obstacle(place, Preparation::ReadFailed(error), home) == Some(
            "Cannot read mount point "@ + place + ": "@ + error@,
        ),
{
}

/// A volume is mounted only in an empty folder, where what Finder leaves behind
/// does not count.
pub proof fn lemma_empty_folder(place: Seq<char>, found: Preparation, home: Seq<char>, i: int)
    requires
        found is Entries,
    ensures
        (forall|j: int|
            0 <= j < found->Entries_0@.len() ==> left_by_finder(#[trigger] found->Entries_0@[j]))
            ==> supervisor::obstacle(place, found, home) is None,
        0 <= i < found->Entries_0@.len() && !left_by_finder(found->Entries_0@[i])
            ==> supervisor::obstacle(place, found, home) == Some(
            "Mount point "@ + config::collapsed(place, home)
                + " is not empty. Choose an empty folder."@,
        ),
{
    let entries = found->Entries_0@;
    if 0 <= i < entries.len() && !left_by_finder(entries[i]) {
        assert(!supervisor::trivial(entries[i]));
    }
    if forall|j: int| 0 <= j < entries.len() ==> left_by_finder(#[trigger] entries[j]) {
        assert forall|j: int| 0 <= j < entries.len() implies supervisor::trivial(
            #[trigger] entries[j],
        ) by {
            assert(left_by_finder(entries[j]));
        }
    }
}

/// Each mount logs to a file that bears its name, among the application's logs,
/// and the one before is kept beside it.
pub proof fn lemma_log_files(name: Seq<char>, home: Seq<char>)
    requires
        laws::config::usual_home(home),
    ensures
        supervisor::log_file(name, home) == home + "/Library/Logs/BucketMount/"@
            + rclone::sanitized(name) + ".log"@,
        supervisor::old_log_file(name, home) == home + "/Library/Logs/BucketMount/"@
            + rclone::sanitized(name) + ".log.1"@,
{
    reveal_strlit(".log");
    reveal_strlit(".log.1");
    let s = rclone::sanitized(name);
    if s.len() > 0 {
        laws::rclone::lemma_sanitized_in_place(name, 0);
        assert(s[0] != '/');
        assert((s + ".log"@)[0] == s[0] && (s + ".log.1"@)[0] == s[0]);
    }
    laws::config::lemma_directories(home, home);
    lemma_among_the_logs(home, s + ".log"@);
    lemma_among_the_logs(home, s + ".log.1"@);
    let logs = home + "/Library/Logs/BucketMount/"@;
    assert(logs + (s + ".log"@) =~= logs + s + ".log"@);
    assert(logs + (s + ".log.1"@) =~= logs + s + ".log.1"@);
}

proof fn lemma_among_the_logs(home: Seq<char>, file: Seq<char>)
    requires
        file.len() > 0,
        file[0] != '/',
    ensures
        path::joined_path(home + "/Library/Logs/BucketMount"@, file) == home
            + "/Library/Logs/BucketMount/"@ + file,
{
    reveal_strlit("/Library/Logs/BucketMount");
    reveal_strlit("/Library/Logs/BucketMount/");
    let logs = home + "/Library/Logs/BucketMount"@;
    assert(logs.last() == 't');
    assert("/Library/Logs/BucketMount"@ + seq!['/'] =~= "/Library/Logs/BucketMount/"@);
    assert(logs + seq!['/'] =~= home + "/Library/Logs/BucketMount/"@);
}

} // verus!
