//! Synced folders: a plain local folder kept in two-way sync with the bucket.
//!
//! Files live on the local disk, so editors and tools see an ordinary
//! folder. `rclone bisync` runs a few seconds after local changes settle and
//! on a timer to pick up changes made elsewhere.

use crate::config;
use crate::config::MountConfig;
use crate::path;
use crate::path::{file_name, join_path};
use crate::rclone;
use crate::rclone::summarize_error;
use crate::split;
use crate::split::{contains, ends_with, join, starts_with};
use crate::sso;
use crate::sso::is_session_error;
use crate::supervisor::{MountStatus, StatusModel};
use crate::text;
use crate::text::{chars_of, same, trim_start_of, Class};
use vstd::prelude::*;

verus! {

// ---------------------------------------------------------------------------
// bisync's state
// ---------------------------------------------------------------------------

/// Where bisync's state for one synced folder is kept.
pub open spec fn state_dir(name: Seq<char>, home: Seq<char>) -> Seq<char> {
    path::joined_path(
        path::joined_path(config::library_path(home, "Application Support"@), "bisync"@),
        rclone::sanitized(name),
    )
}

/// bisync's state (listings, lock file) for one synced folder.
pub fn workdir(m: &MountConfig) -> (r: String)
    ensures
        exists|home: Seq<char>| home.len() > 0 && r@ == #[trigger] state_dir(m@.name, home),
{
    workdir_in(m, config::home_dir().as_str())
}

pub fn workdir_in(m: &MountConfig, home: &str) -> (r: String)
    ensures
        r@ == state_dir(m@.name, home@),
{
    join_path(
        join_path(config::support_dir_in(home).as_str(), "bisync").as_str(),
        rclone::sanitize(m.name.as_str()).as_str(),
    )
}

/// The line for the application's log when bisync's state is thrown away so
/// that the next run is a full resync.
pub fn forget_state(m: &MountConfig, dir: &str) -> (r: String)
    ensures
        r@ == "["@ + m@.name + "] clearing sync state in "@ + dir@,
{
    "[".to_owned().concat(m.name.as_str()).concat("] clearing sync state in ").concat(dir)
}

pub open spec fn underscored(c: char) -> char {
    if c == '/' || c == ':' {
        '_'
    } else {
        c
    }
}

/// The encoding in bisync's session name: "/Users/me/x" -> "Users_me_x".
pub open spec fn encoded(p: Seq<char>) -> Seq<char> {
    text::trimmed_start(p.map_values(|c: char| underscored(c)), Class::Only('_'))
}

/// The name of the listing that bisync leaves for a pair of paths.
pub open spec fn listing_name(folder: Seq<char>, remote: Seq<char>) -> Seq<char> {
    encoded(folder) + ".."@ + encoded(remote) + ".path1.lst"@
}

fn encode(p: &str) -> (r: String)
    ensures
        r@ == encoded(p@),
{
    let v = chars_of(p);
    let ghost want = p@.map_values(|c: char| underscored(c));
    let mut s = String::new();
    let mut i: usize = 0;
    assert(s@ =~= want.take(0));
    while i < v.len()
        invariant
            i <= v.len(),
            v@ == p@,
            want == p@.map_values(|c: char| underscored(c)),
            s@ == want.take(i as int),
        decreases v.len() - i,
    {
        let c: char = v[i];
        if c == '/' || c == ':' {
            s.push('_');
        } else {
            s.push(c);
        }
        assert(s@ =~= want.take(i + 1));
        i = i + 1;
    }
    assert(want.take(want.len() as int) =~= want);
    trim_start_of(s.as_str(), Class::Only('_'))
}

/// bisync has completed a run for this folder/bucket pair before. The
/// listing file names encode both paths, so pointing a synced folder at a
/// different bucket or folder starts over with a resync. `names` are those of
/// the files in bisync's work directory.
pub fn has_state(names: &Vec<String>, folder: &str, remote: &str) -> (r: bool)
    ensures
        r == exists|i: int|
            0 <= i < names@.len() && (#[trigger] names@[i])@ == listing_name(folder@, remote@),
{
    let listing = encode(folder).concat("..").concat(encode(remote).as_str()).concat(".path1.lst");
    let mut i: usize = 0;
    while i < names.len()
        invariant
            i <= names.len(),
            listing@ == listing_name(folder@, remote@),
            forall|j: int| 0 <= j < i ==> (#[trigger] names@[j])@ != listing@,
        decreases names.len() - i,
    {
        if same(names[i].as_str(), listing.as_str()) {
            return true;
        }
        i = i + 1;
    }
    false
}

proof fn lemma_listing_len(folder: Seq<char>, remote: Seq<char>)
    ensures
        listing_name(folder, remote).len() == encoded(folder).len() + ".."@.len() + encoded(
            remote,
        ).len() + ".path1.lst"@.len(),
{
}

/// Pointing a synced folder at another remote starts over: the listings have
/// different names.
pub proof fn lemma_other_remote_starts_over(folder: Seq<char>, remote: Seq<char>, other: Seq<char>)
    requires
        encoded(remote) != encoded(other),
    ensures
        listing_name(folder, remote) != listing_name(folder, other),
{
    let a = listing_name(folder, remote);
    let b = listing_name(folder, other);
    let head = encoded(folder) + ".."@;
    lemma_listing_len(folder, remote);
    lemma_listing_len(folder, other);
    if a == b {
        assert(encoded(remote).len() == encoded(other).len());
        assert forall|i: int| 0 <= i < encoded(remote).len() implies encoded(remote)[i] == encoded(
            other,
        )[i] by {
            assert(a[head.len() + i] == encoded(remote)[i]);
            assert(b[head.len() + i] == encoded(other)[i]);
        }
        assert(encoded(remote) =~= encoded(other));
    }
}

/// Pointing a remote at another folder starts over: the listings have different
/// names.
pub proof fn lemma_other_folder_starts_over(folder: Seq<char>, other: Seq<char>, remote: Seq<char>)
    requires
        encoded(folder) != encoded(other),
    ensures
        listing_name(folder, remote) != listing_name(other, remote),
{
    let a = listing_name(folder, remote);
    let b = listing_name(other, remote);
    lemma_listing_len(folder, remote);
    lemma_listing_len(other, remote);
    if a == b {
        assert(encoded(folder).len() == encoded(other).len());
        assert forall|i: int| 0 <= i < encoded(folder).len() implies encoded(folder)[i] == encoded(
            other,
        )[i] by {
            assert(a[i] == encoded(folder)[i]);
            assert(b[i] == encoded(other)[i]);
        }
        assert(encoded(folder) =~= encoded(other));
    }
}

/// Neither begins with a dot nor has two dots in a row: no remote of a bucket
/// does.
pub open spec fn dots_apart(s: Seq<char>) -> bool {
    !split::has(s, ".."@) && !"."@.is_prefix_of(s)
}

/// Changing both starts over too: the listings of two pairs have different
/// names, as long as the remotes keep their dots apart.
pub proof fn lemma_other_pair_starts_over(
    folder: Seq<char>,
    remote: Seq<char>,
    other_folder: Seq<char>,
    other_remote: Seq<char>,
)
    requires
        encoded(folder) != encoded(other_folder) || encoded(remote) != encoded(other_remote),
        dots_apart(encoded(remote)),
        dots_apart(encoded(other_remote)),
    ensures
        listing_name(folder, remote) != listing_name(other_folder, other_remote),
{
    if listing_name(folder, remote) == listing_name(other_folder, other_remote) {
        if encoded(folder).len() < encoded(other_folder).len() {
            lemma_dots_meet(folder, remote, other_folder, other_remote);
        } else if encoded(folder).len() > encoded(other_folder).len() {
            lemma_dots_meet(other_folder, other_remote, folder, remote);
        } else {
            let a = listing_name(folder, remote);
            let b = listing_name(other_folder, other_remote);
            assert forall|i: int| 0 <= i < encoded(folder).len() implies encoded(folder)[i]
                == encoded(other_folder)[i] by {
                assert(a[i] == encoded(folder)[i]);
                assert(b[i] == encoded(other_folder)[i]);
            }
            assert(encoded(folder) =~= encoded(other_folder));
            lemma_other_remote_starts_over(folder, remote, other_remote);
            assert(a == listing_name(folder, remote));
        }
    }
}

/// Where two folders of different lengths make one listing name, the dots behind
/// the longer one stand in the remote of the shorter.
proof fn lemma_dots_meet(
    folder: Seq<char>,
    remote: Seq<char>,
    other_folder: Seq<char>,
    other_remote: Seq<char>,
)
    requires
        listing_name(folder, remote) == listing_name(other_folder, other_remote),
        encoded(folder).len() < encoded(other_folder).len(),
    ensures
        !dots_apart(encoded(remote)),
{
    reveal_strlit("..");
    reveal_strlit(".");
    reveal_strlit(".path1.lst");
    let n = listing_name(folder, remote);
    let m = listing_name(other_folder, other_remote);
    let a = encoded(folder).len() as int;
    let b = encoded(other_folder).len() as int;
    let r = encoded(remote);
    let o = encoded(other_remote);
    lemma_listing_len(folder, remote);
    lemma_listing_len(other_folder, other_remote);
    assert(m[b] == '.' && m[b + 1] == '.');
    assert(r.len() - o.len() == b - a);
    let at = b - a - 2;
    if at >= 0 {
        // The dots lie in the remote.
        assert(n[b] == r[at] && n[b + 1] == r[at + 1]);
        assert(r.subrange(at, at + 2) =~= ".."@);
        assert(split::occurs_at(r, ".."@, at));
    } else {
        // One of them is the second dot behind the shorter folder.
        assert(n[b + 1] == r[0]);
        assert("."@ =~= r.subrange(0, 1));
    }
}

/// A listing that is still being written does not count.
pub proof fn lemma_unfinished_listing_ignored(
    folder: Seq<char>,
    remote: Seq<char>,
    other_folder: Seq<char>,
    other_remote: Seq<char>,
)
    ensures
        listing_name(folder, remote) + "-new"@ != listing_name(other_folder, other_remote),
{
    reveal_strlit("-new");
    reveal_strlit(".path1.lst");
    assert((listing_name(folder, remote) + "-new"@).last() == 'w');
    assert(listing_name(other_folder, other_remote).last() == 't');
}

// ---------------------------------------------------------------------------
// Local changes
// ---------------------------------------------------------------------------

/// Something that happened in a folder.
#[derive(Debug)]
pub struct FsEvent {
    /// Something was only read.
    pub access: bool,
    pub paths: Vec<String>,
}

/// Files of this name are not synced: Finder metadata and swap files.
pub open spec fn excluded(name: Seq<char>) -> bool {
    name == ".DS_Store"@ || "._"@.is_prefix_of(name) || ("."@.is_prefix_of(name)
        && (".swp"@.is_suffix_of(name) || ".swx"@.is_suffix_of(name)))
}

/// The file at the path is synced.
pub open spec fn counts(p: Seq<char>) -> bool {
    match path::name_of(p) {
        Some(name) => !excluded(name),
        None => true,
    }
}

fn path_counts(p: &str) -> (r: bool)
    ensures
        r == counts(p@),
{
    match file_name(p) {
        Some(name) => {
            let name = name.as_str();
            !(same(name, ".DS_Store") || starts_with(name, "._") || (starts_with(name, ".") && (
            ends_with(name, ".swp") || ends_with(name, ".swx"))))
        },
        None => true,
    }
}

/// Local changes that should trigger a sync. Excluded files (Finder
/// metadata, swap files) and pure reads do not count.
pub fn relevant(event: &FsEvent) -> (r: bool)
    ensures
        r == (!event.access && exists|i: int|
            0 <= i < event.paths@.len() && counts((#[trigger] event.paths@[i])@)),
{
    if event.access {
        return false;
    }
    let mut i: usize = 0;
    while i < event.paths.len()
        invariant
            i <= event.paths.len(),
            !event.access,
            forall|j: int| 0 <= j < i ==> !counts((#[trigger] event.paths@[j])@),
        decreases event.paths.len() - i,
    {
        if path_counts(event.paths[i].as_str()) {
            return true;
        }
        i = i + 1;
    }
    false
}

// ---------------------------------------------------------------------------
// The folder
// ---------------------------------------------------------------------------

/// How far the preparation of a folder got.
#[derive(Debug)]
pub enum FolderFound {
    /// The old volume could not be unmounted.
    UnmountFailed(String),
    /// The folder could not be created.
    CreateFailed(String),
    /// There is something else.
    NotAFolder,
    Folder,
}

/// What keeps a folder from being synced.
pub open spec fn folder_obstacle(folder: Seq<char>, found: FolderFound, home: Seq<char>) -> Option<
    Seq<char>,
> {
    match found {
        FolderFound::UnmountFailed(e) => Some(e@),
        FolderFound::CreateFailed(e) => Some("Cannot create folder "@ + folder + ": "@ + e@),
        FolderFound::NotAFolder => Some(config::collapsed(folder, home) + " is not a folder"@),
        FolderFound::Folder => None,
    }
}

pub fn prepare_folder(folder: &str, found: FolderFound) -> (r: Result<(), String>)
    ensures
        exists|home: Seq<char>|
            home.len() > 0 && match r {
                Ok(_) => (#[trigger] folder_obstacle(folder@, found, home)) is None,
                Err(e) => folder_obstacle(folder@, found, home) == Some(e@),
            },
{
    prepare_folder_in(folder, found, config::home_dir().as_str())
}

pub fn prepare_folder_in(folder: &str, found: FolderFound, home: &str) -> (r: Result<(), String>)
    requires
        home@.len() > 0,
    ensures
        match r {
            Ok(_) => folder_obstacle(folder@, found, home@) is None,
            Err(e) => folder_obstacle(folder@, found, home@) == Some(e@),
        },
{
    match found {
        FolderFound::UnmountFailed(e) => Err(e),
        FolderFound::CreateFailed(e) => Err(
            "Cannot create folder ".to_owned().concat(folder).concat(": ").concat(e.as_str()),
        ),
        FolderFound::NotAFolder => Err(
            config::collapse_tilde_in(folder, home).concat(" is not a folder"),
        ),
        FolderFound::Folder => Ok(()),
    }
}

// ---------------------------------------------------------------------------
// One run
// ---------------------------------------------------------------------------

/// Why a run did not bring both sides in sync.
#[derive(Debug)]
pub enum Failure {
    SignIn,
    /// bisync lost track of what is in sync; needs a user-approved resync.
    NeedsResync(String),
    Other(String),
}

/// What a `Failure` says, as a value.
pub enum FailureModel {
    SignIn,
    NeedsResync(Seq<char>),
    Other(Seq<char>),
}

impl View for Failure {
    type V = FailureModel;

    open spec fn view(&self) -> FailureModel {
        match self {
            Failure::SignIn => FailureModel::SignIn,
            Failure::NeedsResync(e) => FailureModel::NeedsResync(e@),
            Failure::Other(e) => FailureModel::Other(e@),
        }
    }
}

/// How a run of bisync came to its end.
#[derive(Debug)]
pub enum RunEnd {
    /// The work directory could not be created.
    NoWorkdir { dir: String, error: String },
    /// rclone could not be started.
    NotStarted(String),
    /// rclone could not be looked at.
    WaitFailed(String),
    /// The supervisor had to stop.
    Stopped,
    /// rclone has exited, and printed these lines.
    Exited { success: bool, output: Vec<String> },
}

/// The output asks for a resync.
pub open spec fn asks_resync(output: Seq<char>) -> bool {
    split::has(output, "Must run --resync"@) || split::has(output, "must run --resync"@)
}

/// The failure that `output` tells of.
pub open spec fn told_failure(output: Seq<char>, resync: bool) -> FailureModel {
    let summary = rclone::summary(output);
    if sso::session_error(output) {
        FailureModel::SignIn
    } else if !resync && asks_resync(output) {
        FailureModel::NeedsResync(summary)
    } else if split::has(output, "too many deletes"@) {
        FailureModel::Other(
            "Stopped: more than half the files would be deleted. Check the folder, then pass --force under Extra rclone flags for one run. ("@
                + summary + ")"@,
        )
    } else {
        FailureModel::Other(summary)
    }
}

/// Why the run failed, if it did.
pub open spec fn run_failure(end: RunEnd, resync: bool) -> Option<FailureModel> {
    match end {
        RunEnd::NoWorkdir { dir, error } => Some(
            FailureModel::Other("Cannot create "@ + dir@ + ": "@ + error@),
        ),
        RunEnd::NotStarted(e) => Some(FailureModel::Other("Cannot start rclone: "@ + e@)),
        RunEnd::WaitFailed(e) => Some(FailureModel::Other("rclone wait failed: "@ + e@)),
        RunEnd::Stopped => Some(FailureModel::Other("Stopped"@)),
        RunEnd::Exited { success, output } => if success {
            None
        } else {
            Some(told_failure(split::joined(text::views(output@), "\n"@), resync))
        },
    }
}

fn classify(output: &str, resync: bool) -> (r: Failure)
    ensures
        r@ == told_failure(output@, resync),
{
    if is_session_error(output) {
        return Failure::SignIn;
    }
    let summary = summarize_error(output);
    // A failed resync says the same, but the next attempt is a resync anyway.
    if !resync && (contains(output, "Must run --resync") || contains(
        output,
        "must run --resync",
    )) {
        Failure::NeedsResync(summary)
    } else if contains(output, "too many deletes") {
        Failure::Other(
            "Stopped: more than half the files would be deleted. Check the folder, then pass --force under Extra rclone flags for one run. (".to_owned().concat(
            summary.as_str()).concat(")"),
        )
    } else {
        Failure::Other(summary)
    }
}

/// The run came to an end that was waited for: rclone has exited, or was ended.
pub open spec fn reaped(end: RunEnd) -> bool {
    end is Exited || end is Stopped
}

/// What has come of one bisync run: `Ok(())` when both sides are in sync. Its
/// process is gone from the status, unless it could not be waited for.
pub fn run_bisync(end: RunEnd, resync: bool, status: &mut MountStatus) -> (r: Result<(), Failure>)
    ensures
        match r {
            Ok(_) => run_failure(end, resync) is None,
            Err(f) => run_failure(end, resync) == Some(f@),
        },
        final(status)@ == (StatusModel {
            pid: if reaped(end) {
                None
            } else {
                old(status)@.pid
            },
            ..old(status)@
        }),
{
    match &end {
        RunEnd::Stopped | RunEnd::Exited { .. } => status.pid = None,
        _ => {},
    }
    match end {
        RunEnd::NoWorkdir { dir, error } => Err(
            Failure::Other(
                "Cannot create ".to_owned().concat(dir.as_str()).concat(": ").concat(
                    error.as_str(),
                ),
            ),
        ),
        RunEnd::NotStarted(e) => Err(
            Failure::Other("Cannot start rclone: ".to_owned().concat(e.as_str())),
        ),
        RunEnd::WaitFailed(e) => Err(
            Failure::Other("rclone wait failed: ".to_owned().concat(e.as_str())),
        ),
        RunEnd::Stopped => Err(Failure::Other("Stopped".to_owned())),
        RunEnd::Exited { success, output } => if success {
            Ok(())
        } else {
            Err(classify(join(&output, "\n").as_str(), resync))
        },
    }
}

/// What to do about a run of bisync that was looked at.
#[derive(Debug, Clone, Copy, PartialEq, Eq, Structural)]
pub enum RunStep {
    /// Ask it to end, and wait for that. bisync handles this gracefully: the
    /// next run picks up where it was.
    Terminate,
    /// It has ended.
    Done,
    /// Look again after this many milliseconds.
    Again { millis: u64 },
}

/// The next step with a run of bisync: a request to stop comes first.
pub fn run_step(stopping: bool, ended: bool) -> (r: RunStep)
    ensures
        r == (if stopping {
            RunStep::Terminate
        } else if ended {
            RunStep::Done
        } else {
            RunStep::Again { millis: 200 }
        }),
{
    if stopping {
        RunStep::Terminate
    } else if ended {
        RunStep::Done
    } else {
        RunStep::Again { millis: 200 }
    }
}

/// A failed resync never asks for another one.
pub proof fn lemma_resync_asks_for_none(end: RunEnd)
    ensures
        !(run_failure(end, true) matches Some(FailureModel::NeedsResync(_))),
{
}

} // verus!
