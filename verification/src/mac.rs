//! macOS specific rules: the mount table, unmounting, notifications, the login
//! item (LaunchAgent) and the single-instance lock.

use crate::config;
use crate::config::BUNDLE_ID;
use crate::number;
use crate::number::{decimal_string, parse_i32, signed_decimal_string};
use crate::path;
use crate::path::{file_name, join_path, same_path};
use crate::rclone;
use crate::rclone::Finished;
use crate::split;
use crate::split::{contains, find, lines, replace, rfind, slice, stands_at};
use crate::text;
use crate::text::{chars_of, is_white, push_text, trim, trim_start_of, Class};
use vstd::prelude::*;

verus! {

// ---------------------------------------------------------------------------
// The mount table
// ---------------------------------------------------------------------------

/// `p` with the symlinks in its parent resolved; `parent` is what they resolve
/// to, if they do. `p` itself is never looked at: if it is a mount whose
/// server has died, any access to it blocks indefinitely.
pub open spec fn resolved(p: Seq<char>, parent: Option<Seq<char>>) -> Seq<char> {
    match (path::name_of(p), parent) {
        (Some(name), Some(dir)) => path::joined_path(dir, name),
        _ => p,
    }
}

pub fn canonical(p: &str, parent: Option<&str>) -> (r: String)
    ensures
        r@ == resolved(p@, text::opt_str(parent)),
{
    match (file_name(p), parent) {
        (Some(name), Some(dir)) => join_path(dir, name.as_str()),
        _ => p.to_owned(),
    }
}

/// The path in a line `<dev> on <path> (<type>, <flags>)`.
pub open spec fn mounted_path(line: Seq<char>) -> Option<Seq<char>> {
    match split::first_of(line, " on "@) {
        Some(i) => {
            let rest = line.subrange(i + " on "@.len(), line.len() as int);
            match split::last_of(rest, " ("@) {
                Some(end) => Some(rest.subrange(0, end)),
                None => None,
            }
        },
        None => None,
    }
}

/// The paths in those of the lines that have one.
pub open spec fn mounted_in(lines: Seq<Seq<char>>) -> Seq<Seq<char>>
    decreases lines.len(),
{
    if lines.len() == 0 {
        lines
    } else {
        let before = mounted_in(lines.drop_last());
        match mounted_path(lines.last()) {
            Some(p) => before.push(p),
            None => before,
        }
    }
}

fn read_mounted(line: &str) -> (r: Option<String>)
    ensures
        text::opt_string(r) == mounted_path(line@),
{
    proof {
        reveal_strlit(" on ");
    }
    match find(line, " on ") {
        Some(i) => {
            let len: usize = chars_of(line).len();
            let rest = slice(line, i + 4, len);
            match rfind(rest.as_str(), " (") {
                Some(end) => Some(slice(rest.as_str(), 0, end)),
                None => None,
            }
        },
        None => None,
    }
}

/// All currently mounted paths, from what `mount(8)` printed.
pub fn mounted_paths(output: &str) -> (r: Vec<String>)
    ensures
        text::views(r@) == mounted_in(split::lines_of(output@)),
{
    let all = lines(output);
    let ghost want = split::lines_of(output@);
    let mut r: Vec<String> = Vec::new();
    let mut i: usize = 0;
    assert(text::views(r@) =~= mounted_in(want.take(0)));
    while i < all.len()
        invariant
            i <= all.len(),
            text::views(all@) == want,
            text::views(r@) == mounted_in(want.take(i as int)),
        decreases all.len() - i,
    {
        assert(want.take(i + 1).drop_last() =~= want.take(i as int));
        assert(want.take(i + 1).last() == all@[i as int]@);
        match read_mounted(all[i].as_str()) {
            Some(p) => push_text(&mut r, p.as_str()),
            None => {},
        }
        i = i + 1;
    }
    assert(want.take(want.len() as int) =~= want);
    r
}

/// A line of the mount table is read as it is meant, whatever spaces and
/// brackets the path has: the device ends at the first ` on `, and what is said
/// of the volume begins at the last ` (`.
pub proof fn lemma_mount_table_line(device: Seq<char>, p: Seq<char>, said: Seq<char>)
    requires
        !split::has(device + " on"@, " on "@),
        !split::has("("@ + said, " ("@),
    ensures
        mounted_path(device + " on "@ + p + " ("@ + said) == Some(p),
{
    reveal_strlit(" on ");
    reveal_strlit(" on");
    reveal_strlit(" (");
    reveal_strlit("(");
    let line = device + " on "@ + p + " ("@ + said;
    let i = device.len() as int;
    assert(line.subrange(i, i + 4) =~= " on "@);
    assert(split::first_at(line, " on "@, i)) by {
        assert forall|j: int| j < i implies !split::occurs_at(line, " on "@, j) by {
            if split::occurs_at(line, " on "@, j) {
                let d = device + " on"@;
                assert(d.subrange(j, j + 4) =~= line.subrange(j, j + 4));
                assert(split::occurs_at(d, " on "@, j));
            }
        }
    }
    split::lemma_first_of(line, " on "@, i);
    let rest = line.subrange(i + 4, line.len() as int);
    assert(rest =~= p + " ("@ + said);
    let end = p.len() as int;
    assert(rest.subrange(end, end + 2) =~= " ("@);
    assert(split::last_at(rest, " ("@, end)) by {
        assert forall|j: int| j > end implies !split::occurs_at(rest, " ("@, j) by {
            if split::occurs_at(rest, " ("@, j) {
                let t = "("@ + said;
                assert(t.subrange(j - end - 1, j - end + 1) =~= rest.subrange(j, j + 2));
                assert(split::occurs_at(t, " ("@, j - end - 1));
            }
        }
    }
    split::lemma_last_of(rest, " ("@, end);
    assert(rest.subrange(0, end) =~= p);
}

/// One of the mounted paths is `p`, or what `p` resolves to.
pub open spec fn mounted_at(p: Seq<char>, canonical: Seq<char>, mounted: Seq<Seq<char>>) -> bool {
    exists|i: int|
        0 <= i < mounted.len() && (path::equal_paths(#[trigger] mounted[i], canonical)
            || path::equal_paths(mounted[i], p))
}

pub fn is_mounted(p: &str, canonical: &str, mounted: &Vec<String>) -> (r: bool)
    ensures
        r == mounted_at(p@, canonical@, text::views(mounted@)),
{
    let mut i: usize = 0;
    while i < mounted.len()
        invariant
            i <= mounted.len(),
            forall|j: int|
                0 <= j < i ==> !path::equal_paths(
                    #[trigger] text::views(mounted@)[j],
                    canonical@,
                ) && !path::equal_paths(text::views(mounted@)[j], p@),
        decreases mounted.len() - i,
    {
        assert(text::views(mounted@)[i as int] == mounted@[i as int]@);
        if same_path(mounted[i].as_str(), canonical) || same_path(mounted[i].as_str(), p) {
            return true;
        }
        i = i + 1;
    }
    false
}

// ---------------------------------------------------------------------------
// Unmounting
// ---------------------------------------------------------------------------

/// Whether a command did what it should, and what it said if not.
pub fn run_timeout(ran: Result<Finished, String>) -> (r: Result<(), String>)
    ensures
        match (ran, r) {
            (Ok(f), Ok(_)) => f.success,
            (Ok(f), Err(e)) => !f.success && e@ == text::trimmed(f.stderr@),
            (Err(e), Err(m)) => m == e,
            _ => false,
        },
{
    match ran {
        Ok(f) => if f.success {
            Ok(())
        } else {
            Err(trim(f.stderr.as_str()))
        },
        Err(e) => Err(e),
    }
}

/// What to do about a volume that has to be unmounted.
#[derive(Debug)]
pub enum UnmountAction {
    /// Look at the mount table.
    Look,
    /// Run this command, for at most so many seconds.
    Run { program: String, args: Vec<String>, secs: u64 },
    /// Wait so many milliseconds, then look at the mount table.
    Sleep { millis: u64 },
    Done { result: Result<(), String> },
}

/// What an `UnmountAction` says, as a value.
pub enum UnmountModel {
    Look,
    Run { program: Seq<char>, args: Seq<Seq<char>>, secs: u64 },
    Sleep { millis: u64 },
    Done { error: Option<Seq<char>> },
}

impl View for UnmountAction {
    type V = UnmountModel;

    open spec fn view(&self) -> UnmountModel {
        match self {
            UnmountAction::Look => UnmountModel::Look,
            UnmountAction::Run { program, args, secs } => UnmountModel::Run {
                program: program@,
                args: text::views(args@),
                secs: *secs,
            },
            UnmountAction::Sleep { millis } => UnmountModel::Sleep { millis: *millis },
            UnmountAction::Done { result } => UnmountModel::Done {
                error: match result {
                    Ok(_) => None,
                    Err(e) => Some(e@),
                },
            },
        }
    }
}

/// The attempts, from polite to forceful. Every one has a timeout because a
/// plain `umount` of a volume whose server is gone can hang.
pub open spec fn attempt_of(n: int, path: Seq<char>) -> UnmountModel {
    if n == 0 {
        UnmountModel::Run { program: "/sbin/umount"@, args: seq![path], secs: 5 }
    } else if n == 1 {
        UnmountModel::Run { program: "/sbin/umount"@, args: seq!["-f"@, path], secs: 10 }
    } else {
        UnmountModel::Run {
            program: "/usr/sbin/diskutil"@,
            args: seq!["unmount"@, "force"@, path],
            secs: 20,
        }
    }
}

/// Unmounting, escalating from polite to forceful.
#[derive(Debug)]
pub struct Unmount {
    pub path: String,
    /// The attempts that are over.
    pub attempts: u8,
    /// The present attempt was made, and its effect is looked for.
    pub tried: bool,
    pub last_error: String,
}

/// What an `Unmount` says, as values.
#[verifier::ext_equal]
pub struct UnmountState {
    pub path: Seq<char>,
    pub attempts: u8,
    pub tried: bool,
    pub last_error: Seq<char>,
}

impl View for Unmount {
    type V = UnmountState;

    open spec fn view(&self) -> UnmountState {
        UnmountState {
            path: self.path@,
            attempts: self.attempts,
            tried: self.tried,
            last_error: self.last_error@,
        }
    }
}

impl UnmountState {
    /// What the mount table says of the volume decides what comes next.
    pub open spec fn looked(self, mounted: bool) -> (UnmountState, UnmountModel) {
        if !mounted {
            (self, UnmountModel::Done { error: None })
        } else if self.attempts >= 3 {
            (
                self,
                UnmountModel::Done {
                    error: Some("could not unmount "@ + self.path + ": "@ + self.last_error),
                },
            )
        } else if self.tried {
            (
                UnmountState { attempts: (self.attempts + 1) as u8, tried: false, ..self },
                UnmountModel::Look,
            )
        } else {
            (self, attempt_of(self.attempts as int, self.path))
        }
    }
}

impl Unmount {
    pub fn new(path: &str) -> (r: Self)
        ensures
            r@ == (UnmountState {
                path: path@,
                attempts: 0,
                tried: false,
                last_error: Seq::empty(),
            }),
    {
        let last_error = String::new();
        assert(last_error@ =~= Seq::<char>::empty());
        Unmount { path: path.to_owned(), attempts: 0, tried: false, last_error }
    }

    /// The mount table was looked at.
    pub fn looked(&mut self, mounted: bool) -> (r: UnmountAction)
        ensures
            (final(self)@, r@) == old(self)@.looked(mounted),
    {
        if !mounted {
            return UnmountAction::Done { result: Ok(()) };
        }
        if self.attempts >= 3 {
            return UnmountAction::Done {
                result: Err(
                    "could not unmount ".to_owned().concat(self.path.as_str()).concat(": ").concat(
                        self.last_error.as_str(),
                    ),
                ),
            };
        }
        if self.tried {
            self.attempts = self.attempts + 1;
            self.tried = false;
            return UnmountAction::Look;
        }
        let mut args: Vec<String> = Vec::new();
        assert(text::views(args@) =~= Seq::<Seq<char>>::empty());
        if self.attempts == 0 {
            push_text(&mut args, self.path.as_str());
            assert(text::views(args@) =~= seq![self@.path]);
            UnmountAction::Run { program: "/sbin/umount".to_owned(), args, secs: 5 }
        } else if self.attempts == 1 {
            push_text(&mut args, "-f");
            push_text(&mut args, self.path.as_str());
            assert(text::views(args@) =~= seq!["-f"@, self@.path]);
            UnmountAction::Run { program: "/sbin/umount".to_owned(), args, secs: 10 }
        } else {
            push_text(&mut args, "unmount");
            push_text(&mut args, "force");
            push_text(&mut args, self.path.as_str());
            assert(text::views(args@) =~= seq!["unmount"@, "force"@, self@.path]);
            UnmountAction::Run { program: "/usr/sbin/diskutil".to_owned(), args, secs: 20 }
        }
    }

    /// A command was run.
    pub fn ran(&mut self, result: Result<(), String>) -> (r: UnmountAction)
        ensures
            final(self)@ == (UnmountState {
                tried: true,
                last_error: match result {
                    Ok(_) => old(self)@.last_error,
                    Err(e) => e@,
                },
                ..old(self)@
            }),
            r@ == (UnmountModel::Sleep { millis: 700 }),
    {
        match result {
            Ok(_) => {},
            Err(e) => self.last_error = e,
        }
        self.tried = true;
        UnmountAction::Sleep { millis: 700 }
    }
}

/// Unmounting ends without an error only when the volume is gone, and gives up
/// only after all three attempts.
pub proof fn lemma_unmounted(s: UnmountState, mounted: bool)
    ensures
        s.looked(mounted).1 matches UnmountModel::Done { error } ==> (error is None <==> !mounted)
            && (error is Some ==> s.attempts >= 3),
        mounted && s.attempts < 3 && !s.tried ==> s.looked(mounted).1 is Run,
{
}

// ---------------------------------------------------------------------------
// Processes left over
// ---------------------------------------------------------------------------

/// `i` is the position of the first white space in `s`.
pub open spec fn first_white(s: Seq<char>, i: int) -> bool {
    0 <= i < s.len() && text::white(s[i]) && forall|j: int|
        0 <= j < i ==> !text::white(#[trigger] s[j])
}

/// What stands before and after the first white space.
pub open spec fn cut_at_white(s: Seq<char>) -> Option<(Seq<char>, Seq<char>)> {
    if exists|i: int| first_white(s, i) {
        let i = choose|i: int| first_white(s, i);
        Some((s.subrange(0, i), s.subrange(i + 1, s.len() as int)))
    } else {
        None
    }
}

fn split_at_white(s: &str) -> (r: Option<(String, String)>)
    ensures
        match r {
            Some(p) => cut_at_white(s@) == Some((p.0@, p.1@)),
            None => cut_at_white(s@) is None,
        },
{
    let v = chars_of(s);
    let mut i: usize = 0;
    while i < v.len()
        invariant
            i <= v.len(),
            v@ == s@,
            forall|j: int| 0 <= j < i ==> !text::white(#[trigger] v@[j]),
        decreases v.len() - i,
    {
        if is_white(v[i]) {
            assert(first_white(s@, i as int));
            proof {
                let c = choose|c: int| first_white(s@, c);
                assert(first_white(s@, c));
                assert(c == i);
            }
            return Some((slice(s, 0, i), slice(s, i + 1, v.len())));
        }
        i = i + 1;
    }
    None
}

/// The number of a process as the system counts it.
pub open spec fn unsigned(pid: int) -> int {
    if pid < 0 {
        pid + 0x1_0000_0000
    } else {
        pid
    }
}

/// The place stands in the command at position `i` as the last argument before
/// the options: between white space or the ends of the command, and if anything
/// follows it is an option.
pub open spec fn serves_at(command: Seq<char>, place: Seq<char>, i: int) -> bool {
    let end = i + place.len();
    split::apart_at(command, place, i) && (end == command.len() || split::occurs_at(
        command,
        "--"@,
        end + 1,
    ))
}

/// The command is an `rclone nfsmount` that serves the place.
pub open spec fn serves(command: Seq<char>, place: Seq<char>) -> bool {
    split::has(command, "rclone"@) && split::has(command, "nfsmount"@) && exists|i: int|
        serves_at(command, place, i)
}

/// The process in a line `<pid> <command>` if it is an `rclone nfsmount` that
/// serves the mount point, and not process `me`.
pub open spec fn stale_process(
    line: Seq<char>,
    me: u32,
    mount_point: Seq<char>,
    canonical: Seq<char>,
) -> Option<int> {
    match cut_at_white(text::trimmed_start(line, Class::Space)) {
        None => None,
        Some((pid, command)) => match number::i32_value(text::trimmed(pid)) {
            Some(pid) if unsigned(pid) != me && (serves(command, mount_point) || serves(
                command,
                canonical,
            )) => Some(pid),
            _ => None,
        },
    }
}

fn is_serving(command: &str, place: &str) -> (r: bool)
    ensures
        r == serves(command@, place@),
{
    if !contains(command, "rclone") || !contains(command, "nfsmount") {
        return false;
    }
    proof {
        reveal_strlit("--");
    }
    let s = chars_of(command);
    let p = chars_of(place);
    let option = chars_of("--");
    if p.len() > s.len() {
        return false;
    }
    let last: usize = s.len() - p.len();
    let mut i: usize = 0;
    loop
        invariant
            s@ == command@,
            p@ == place@,
            option@ == "--"@,
            option.len() == 2,
            split::has(command@, "rclone"@),
            split::has(command@, "nfsmount"@),
            p.len() <= s.len(),
            last == s.len() - p.len(),
            i <= last,
            forall|j: int| 0 <= j < i ==> !serves_at(command@, place@, j),
        decreases last - i,
    {
        if stands_at(&s, &p, i) && (i == 0 || is_white(s[i - 1])) {
            let end: usize = i + p.len();
            if end == s.len() || (is_white(s[end]) && s.len() - end >= 3 && stands_at(
                &s,
                &option,
                end + 1,
            )) {
                assert(serves_at(command@, place@, i as int));
                return true;
            }
        }
        if i == last {
            return false;
        }
        i = i + 1;
    }
}

/// A process that serves another mount point is left alone, also one whose name
/// begins with this mount point, with or without a blank behind it: where the
/// place stands in the command once, and no option but something else follows,
/// the command does not serve the place.
pub proof fn lemma_longer_name_left_alone(before: Seq<char>, place: Seq<char>, behind: Seq<char>)
    requires
        behind.len() > 0,
        !(text::white(behind[0]) && split::occurs_at(behind, "--"@, 1)),
        forall|i: int| #[trigger]
            split::occurs_at(before + place + behind, place, i) ==> i == before.len(),
    ensures
        !serves(before + place + behind, place),
{
    reveal_strlit("--");
    let command = before + place + behind;
    assert forall|i: int| !serves_at(command, place, i) by {
        if serves_at(command, place, i) {
            let end = i + place.len();
            assert(split::occurs_at(command, place, i));
            assert(command[end] == behind[0]);
            assert(command.subrange(end + 1, end + 3) =~= behind.subrange(1, 3));
        }
    }
}

/// Where no word of a line is the mount point or its canonical form, there is no
/// process in it that serves the mount point, as long as neither has white space
/// in it.
pub proof fn lemma_other_mount_point_left_alone(
    line: Seq<char>,
    me: u32,
    mount_point: Seq<char>,
    canonical: Seq<char>,
)
    requires
        split::free_of(mount_point, Class::Space),
        split::free_of(canonical, Class::Space),
        cut_at_white(text::trimmed_start(line, Class::Space)) matches Some((_, command))
            ==> !split::pieces(command, Class::Space).contains(mount_point) && !split::pieces(
            command,
            Class::Space,
        ).contains(canonical),
    ensures
        stale_process(line, me, mount_point, canonical) is None,
{
    if let Some((_, command)) = cut_at_white(text::trimmed_start(line, Class::Space)) {
        if serves(command, mount_point) {
            let i = choose|i: int| serves_at(command, mount_point, i);
            assert(split::apart_at(command, mount_point, i));
            split::lemma_apart_is_a_word(command, mount_point);
        }
        if serves(command, canonical) {
            let i = choose|i: int| serves_at(command, canonical, i);
            assert(split::apart_at(command, canonical, i));
            split::lemma_apart_is_a_word(command, canonical);
        }
    }
}

/// A process that the application itself started for a mount point is
/// recognised, whatever the mount point is called.
pub proof fn lemma_own_process_recognised(
    program: Seq<char>,
    m: config::MountModel,
    remote: Seq<char>,
    mount_point: Seq<char>,
    rc_port: u16,
    home: Seq<char>,
)
    requires
        split::has(program, "rclone"@),
    ensures
        serves(
            program + " "@ + split::joined(
                rclone::mount_arguments(m, remote, mount_point, rc_port, home),
                " "@,
            ),
            mount_point,
        ),
{
    reveal_strlit(" ");
    reveal_strlit("--");
    reveal_strlit("--vfs-cache-mode");
    let args = rclone::mount_arguments(m, remote, mount_point, rc_port, home);
    let first = seq!["nfsmount"@, remote];
    let place = seq![mount_point];
    let options = args.skip(3);
    assert(args =~= first + place + options);
    let sep = " "@;
    split::lemma_joined_concat(first + place, options, sep);
    split::lemma_joined_concat(first, place, sep);
    split::lemma_joined_starts(options, sep);
    split::lemma_joined_starts(first, sep);
    let tail = split::joined(options, sep);
    let head = program + sep + split::joined(first, sep) + sep;
    let command = program + sep + split::joined(args, sep);
    assert(command =~= head + mount_point + sep + tail);
    let i = head.len() as int;
    let end = i + mount_point.len();
    assert(command.subrange(i, end) =~= mount_point);
    assert(command[i - 1] == ' ' && command[end] == ' ');
    assert(options[0] == "--vfs-cache-mode"@);
    assert("--vfs-cache-mode"@ =~= tail.subrange(0, "--vfs-cache-mode"@.len() as int));
    assert(tail[0] == "--vfs-cache-mode"@[0] && tail[1] == "--vfs-cache-mode"@[1]);
    assert(command.subrange(end + 1, end + 3) =~= "--"@);
    assert(serves_at(command, mount_point, i));
    let r = choose|r: int| split::occurs_at(program, "rclone"@, r);
    assert(command.subrange(r, r + "rclone"@.len()) =~= program.subrange(r, r + "rclone"@.len()));
    assert(split::occurs_at(command, "rclone"@, r));
    let w = split::joined(first, sep);
    let n = (program + sep).len() as int;
    assert("nfsmount"@ =~= w.subrange(0, "nfsmount"@.len() as int));
    assert(command.subrange(n, n + "nfsmount"@.len()) =~= "nfsmount"@);
    assert(split::occurs_at(command, "nfsmount"@, n));
}

/// The processes in those of the lines that have one.
pub open spec fn stale_in(
    lines: Seq<Seq<char>>,
    me: u32,
    mount_point: Seq<char>,
    canonical: Seq<char>,
) -> Seq<int>
    decreases lines.len(),
{
    if lines.len() == 0 {
        Seq::empty()
    } else {
        let before = stale_in(lines.drop_last(), me, mount_point, canonical);
        match stale_process(lines.last(), me, mount_point, canonical) {
            Some(pid) => before.push(pid),
            None => before,
        }
    }
}

fn read_stale(line: &str, me: u32, mount_point: &str, canonical: &str) -> (r: Option<i32>)
    ensures
        match r {
            Some(pid) => stale_process(line@, me, mount_point@, canonical@) == Some(pid as int),
            None => stale_process(line@, me, mount_point@, canonical@) is None,
        },
{
    let line = trim_start_of(line, Class::Space);
    match split_at_white(line.as_str()) {
        None => None,
        Some((pid, command)) => {
            let pid: i32 = match parse_i32(trim(pid.as_str()).as_str()) {
                Some(n) => n,
                None => return None,
            };
            let counted: i64 = if pid < 0 {
                pid as i64 + 0x1_0000_0000
            } else {
                pid as i64
            };
            if counted == me as i64 {
                return None;
            }
            let command = command.as_str();
            if is_serving(command, mount_point) || is_serving(command, canonical) {
                Some(pid)
            } else {
                None
            }
        },
    }
}

/// The numbers of a list of processes, as values.
pub open spec fn pids(v: Seq<i32>) -> Seq<int> {
    Seq::new(v.len(), |i: int| v[i] as int)
}

/// How long to wait after leftover processes were killed, in milliseconds.
pub const KILL_SETTLE_MILLIS: u64 = 2000;

/// Any `rclone nfsmount` left over from a previous run that serves this mount
/// point (e.g. after the app crashed), from what `ps -axo pid=,command=`
/// printed. `me` is our own process.
pub fn kill_stale_rclone(output: &str, me: u32, mount_point: &str, canonical: &str) -> (r: Vec<i32>)
    ensures
        pids(r@) == stale_in(split::lines_of(output@), me, mount_point@, canonical@),
{
    let all = lines(output);
    let ghost want = split::lines_of(output@);
    let mut r: Vec<i32> = Vec::new();
    let mut i: usize = 0;
    assert(pids(r@) =~= stale_in(want.take(0), me, mount_point@, canonical@));
    while i < all.len()
        invariant
            i <= all.len(),
            text::views(all@) == want,
            pids(r@) == stale_in(want.take(i as int), me, mount_point@, canonical@),
        decreases all.len() - i,
    {
        assert(want.take(i + 1).drop_last() =~= want.take(i as int));
        assert(want.take(i + 1).last() == all@[i as int]@);
        match read_stale(all[i].as_str(), me, mount_point, canonical) {
            Some(pid) => {
                let ghost before = r@;
                r.push(pid);
                assert(pids(r@) =~= pids(before).push(pid as int));
            },
            None => {},
        }
        i = i + 1;
    }
    assert(want.take(want.len() as int) =~= want);
    r
}

/// The line for the application's log when a leftover process is killed.
pub fn stale_note(pid: i32, mount_point: &str) -> (r: String)
    ensures
        r@ == "killing stale rclone pid "@ + number::signed_decimal(pid as int) + " for "@
            + mount_point@,
{
    "killing stale rclone pid ".to_owned().concat(signed_decimal_string(pid).as_str()).concat(
        " for ",
    ).concat(mount_point)
}

// ---------------------------------------------------------------------------
// Notifications
// ---------------------------------------------------------------------------

/// `s` as it stands in a string of AppleScript: with a backslash before each
/// backslash and each quotation mark.
pub open spec fn quoted(s: Seq<char>) -> Seq<char> {
    split::replaced(split::replaced(s, '\\', "\\\\"@), '"', "\\\""@)
}

fn quote(s: &str) -> (r: String)
    ensures
        r@ == quoted(s@),
{
    replace(replace(s, '\\', "\\\\").as_str(), '"', "\\\"")
}

/// The AppleScript for a user-visible macOS notification.
pub fn notify(title: &str, body: &str) -> (r: String)
    ensures
        r@ == "display notification \""@ + quoted(body@) + "\" with title \""@ + quoted(title@)
            + "\""@,
{
    "display notification \"".to_owned().concat(quote(body).as_str()).concat(
        "\" with title \"",
    ).concat(quote(title).as_str()).concat("\"")
}

/// What a string of AppleScript means: a backslash stands for the character
/// behind it. None if it ends too early, at a quotation mark or a backslash.
pub open spec fn meaning(s: Seq<char>) -> Option<Seq<char>>
    decreases s.len(),
{
    if s.len() == 0 {
        Some(s)
    } else if s[0] == '"' {
        None
    } else if s[0] == '\\' {
        if s.len() == 1 {
            None
        } else {
            match meaning(s.skip(2)) {
                Some(rest) => Some(seq![s[1]] + rest),
                None => None,
            }
        }
    } else {
        match meaning(s.skip(1)) {
            Some(rest) => Some(seq![s[0]] + rest),
            None => None,
        }
    }
}

proof fn lemma_meaning_concat(a: Seq<char>, b: Seq<char>)
    requires
        meaning(a) is Some,
        meaning(b) is Some,
    ensures
        meaning(a + b) == Some(meaning(a)->Some_0 + meaning(b)->Some_0),
    decreases a.len(),
{
    let s = a + b;
    if a.len() == 0 {
        assert(s =~= b);
        assert(meaning(a)->Some_0 + meaning(b)->Some_0 =~= meaning(b)->Some_0);
    } else {
        assert(s[0] == a[0]);
        let n = if a[0] == '\\' {
            2int
        } else {
            1int
        };
        lemma_meaning_concat(a.skip(n), b);
        assert(s.skip(n) =~= a.skip(n) + b);
        if n == 2 {
            assert(s[1] == a[1]);
        }
        let first = if n == 2 {
            seq![a[1]]
        } else {
            seq![a[0]]
        };
        assert(first + (meaning(a.skip(n))->Some_0 + meaning(b)->Some_0) =~= (first + meaning(
            a.skip(n),
        )->Some_0) + meaning(b)->Some_0);
    }
}

/// One character, quoted.
proof fn lemma_quoted_char(c: char)
    ensures
        meaning(quoted(seq![c])) == Some(seq![c]),
{
    reveal_strlit("\\\\");
    reveal_strlit("\\\"");
    reveal_with_fuel(split::replaced, 4);
    reveal_with_fuel(meaning, 4);
    let one = seq![c];
    assert(one.drop_last() =~= Seq::<char>::empty());
    let back = split::replaced(one, '\\', "\\\\"@);
    if c == '\\' {
        assert(back =~= seq!['\\', '\\']);
        assert(!back.contains('"'));
        split::lemma_replaced_none(back, '"', "\\\""@);
        assert(quoted(one) =~= seq!['\\', '\\']);
    } else if c == '"' {
        assert(back =~= one);
        assert(quoted(one) =~= seq!['\\', '"']);
    } else {
        assert(back =~= one);
        assert(quoted(one) =~= one);
    }
    let q = quoted(one);
    if c == '\\' || c == '"' {
        assert(q.skip(2) =~= Seq::<char>::empty());
        assert(seq![q[1]] + Seq::<char>::empty() =~= seq![c]);
    } else {
        assert(q.skip(1) =~= Seq::<char>::empty());
        assert(seq![q[0]] + Seq::<char>::empty() =~= seq![c]);
    }
}

/// Whatever the text, what stands quoted in the script means the text, and
/// does not end the string it stands in.
pub proof fn lemma_quoted(s: Seq<char>)
    ensures
        meaning(quoted(s)) == Some(s),
    decreases s.len(),
{
    if s.len() == 0 {
        assert(quoted(s) =~= s);
    } else {
        let a = s.drop_last();
        let b = seq![s.last()];
        assert(s =~= a + b);
        split::lemma_replaced_concat(a, b, '\\', "\\\\"@);
        split::lemma_replaced_concat(
            split::replaced(a, '\\', "\\\\"@),
            split::replaced(b, '\\', "\\\\"@),
            '"',
            "\\\""@,
        );
        assert(quoted(s) == quoted(a) + quoted(b));
        lemma_quoted(a);
        lemma_quoted_char(s.last());
        lemma_meaning_concat(quoted(a), quoted(b));
    }
}

// ---------------------------------------------------------------------------
// Login item via LaunchAgent
// ---------------------------------------------------------------------------

/// Where the LaunchAgent is described.
pub open spec fn agent_file(home: Seq<char>) -> Seq<char> {
    path::joined_path(
        path::joined_path(path::joined_path(home, "Library"@), "LaunchAgents"@),
        BUNDLE_ID@ + ".plist"@,
    )
}

pub fn launch_agent_path() -> (r: String)
    ensures
        exists|home: Seq<char>| home.len() > 0 && r@ == #[trigger] agent_file(home),
{
    launch_agent_path_in(config::home_dir().as_str())
}

pub fn launch_agent_path_in(home: &str) -> (r: String)
    ensures
        r@ == agent_file(home@),
{
    join_path(
        join_path(join_path(home, "Library").as_str(), "LaunchAgents").as_str(),
        BUNDLE_ID.to_owned().concat(".plist").as_str(),
    )
}

/// `s` as it stands in XML.
pub open spec fn xml(s: Seq<char>) -> Seq<char> {
    split::replaced(
        split::replaced(split::replaced(s, '&', "&amp;"@), '<', "&lt;"@),
        '>',
        "&gt;"@,
    )
}

fn escape_xml(s: &str) -> (r: String)
    ensures
        r@ == xml(s@),
{
    replace(replace(replace(s, '&', "&amp;").as_str(), '<', "&lt;").as_str(), '>', "&gt;")
}

/// The entry of the LaunchAgent that says which executable it starts.
pub open spec fn program_entry(exe: Seq<char>) -> Seq<char> {
    "<string>"@ + exe + "</string>"@
}

pub const PLIST_HEAD: &'static str = "<?xml version=\"1.0\" encoding=\"UTF-8\"?>\n<!DOCTYPE plist PUBLIC \"-//Apple//DTD PLIST 1.0//EN\" \"http://www.apple.com/DTDs/PropertyList-1.0.dtd\">\n<plist version=\"1.0\">\n<dict>\n    <key>Label</key>\n    <string>";

pub const PLIST_PROGRAM: &'static str = "</string>\n    <key>ProgramArguments</key>\n    <array>\n        ";

pub const PLIST_RULES: &'static str = "\n        <string>--background</string>\n    </array>\n    <key>RunAtLoad</key>\n    <true/>\n    <key>KeepAlive</key>\n    <dict>\n        <key>SuccessfulExit</key>\n        <false/>\n    </dict>\n    <key>ProcessType</key>\n    <string>Interactive</string>\n    <key>StandardOutPath</key>\n    <string>";

pub const PLIST_ERRORS: &'static str = "</string>\n    <key>StandardErrorPath</key>\n    <string>";

pub const PLIST_END: &'static str = "</string>\n</dict>\n</plist>\n";

/// The description of the LaunchAgent: it starts `exe` in the background when
/// the user logs in, and again if it crashes.
pub open spec fn plist(exe: Seq<char>, home: Seq<char>) -> Seq<char> {
    let logs = config::library_path(home, "Logs"@);
    PLIST_HEAD@ + BUNDLE_ID@ + PLIST_PROGRAM@ + program_entry(xml(exe)) + PLIST_RULES@ + xml(
        path::joined_path(logs, "launchd.out.log"@),
    ) + PLIST_ERRORS@ + xml(path::joined_path(logs, "launchd.err.log"@)) + PLIST_END@
}

pub fn plist_contents(exe: &str) -> (r: String)
    ensures
        exists|home: Seq<char>| home.len() > 0 && r@ == #[trigger] plist(exe@, home),
{
    plist_contents_in(exe, config::home_dir().as_str())
}

pub fn plist_contents_in(exe: &str, home: &str) -> (r: String)
    ensures
        r@ == plist(exe@, home@),
{
    let logs = config::logs_dir_in(home);
    let entry = "<string>".to_owned().concat(escape_xml(exe).as_str()).concat("</string>");
    PLIST_HEAD.to_owned().concat(BUNDLE_ID).concat(PLIST_PROGRAM).concat(entry.as_str()).concat(
        PLIST_RULES,
    ).concat(escape_xml(join_path(logs.as_str(), "launchd.out.log").as_str()).as_str()).concat(
        PLIST_ERRORS,
    ).concat(escape_xml(join_path(logs.as_str(), "launchd.err.log").as_str()).as_str()).concat(
        PLIST_END,
    )
}

/// The description of the LaunchAgent starts the executable.
pub open spec fn agent_starts(description: Option<Seq<char>>, exe: Option<Seq<char>>) -> bool {
    match (description, exe) {
        (Some(text), Some(exe)) => split::has(text, program_entry(xml(exe))),
        _ => false,
    }
}

/// True when the LaunchAgent exists and points at the running executable.
/// `description` is what stands in the file at `launch_agent_path`.
pub fn login_item_matches_exe(description: Option<&str>, exe: Option<&str>) -> (r: bool)
    ensures
        r == agent_starts(text::opt_str(description), text::opt_str(exe)),
{
    match (description, exe) {
        (Some(text), Some(exe)) => contains(
            text,
            "<string>".to_owned().concat(escape_xml(exe).as_str()).concat("</string>").as_str(),
        ),
        _ => false,
    }
}

/// Whether the login item has to be written again, so that it points at
/// wherever the app lives now (it may have been moved to /Applications since
/// it was registered).
pub fn ensure_login_item(description: Option<&str>, exe: Option<&str>) -> (r: bool)
    ensures
        r == !agent_starts(text::opt_str(description), text::opt_str(exe)),
{
    !login_item_matches_exe(description, exe)
}

/// A login item that was just written points at the executable, so it is not
/// written again.
pub proof fn lemma_written_login_item_matches(exe: Seq<char>, home: Seq<char>)
    ensures
        agent_starts(Some(plist(exe, home)), Some(exe)),
{
    let before = PLIST_HEAD@ + BUNDLE_ID@ + PLIST_PROGRAM@;
    let entry = program_entry(xml(exe));
    let text = plist(exe, home);
    assert(text.subrange(before.len() as int, (before.len() + entry.len()) as int) =~= entry);
    assert(split::occurs_at(text, entry, before.len() as int));
}

/// What launchctl is told of.
pub open spec fn agent_target(uid: u32) -> Seq<char> {
    "gui/"@ + number::decimal(uid as nat) + "/"@ + BUNDLE_ID@
}

/// Arguments of launchctl that unload the LaunchAgent of a user.
pub fn bootout_args(uid: u32) -> (r: Vec<String>)
    ensures
        text::views(r@) == seq!["bootout"@, agent_target(uid)],
{
    let mut args: Vec<String> = Vec::new();
    assert(text::views(args@) =~= Seq::<Seq<char>>::empty());
    push_text(&mut args, "bootout");
    push_text(
        &mut args,
        "gui/".to_owned().concat(decimal_string(uid as u64).as_str()).concat("/").concat(
            BUNDLE_ID,
        ).as_str(),
    );
    args
}

/// Arguments of launchctl that load the LaunchAgent described in the file.
pub fn bootstrap_args(uid: u32, file: &str) -> (r: Vec<String>)
    ensures
        text::views(r@) == seq![
            "bootstrap"@,
            "gui/"@ + number::decimal(uid as nat),
            file@,
        ],
{
    let mut args: Vec<String> = Vec::new();
    assert(text::views(args@) =~= Seq::<Seq<char>>::empty());
    push_text(&mut args, "bootstrap");
    push_text(&mut args, "gui/".to_owned().concat(decimal_string(uid as u64).as_str()).as_str());
    push_text(&mut args, file);
    args
}

/// Whether launchctl did what it should, and what it said if not.
pub fn launchctl(success: bool, stderr: &str) -> (r: Result<(), String>)
    ensures
        match r {
            Ok(_) => success,
            Err(e) => !success && e@ == text::trimmed(stderr@),
        },
{
    if success {
        Ok(())
    } else {
        Err(trim(stderr))
    }
}

// ---------------------------------------------------------------------------
// Single instance
// ---------------------------------------------------------------------------

/// The file whose lock a running instance holds. It lives on the local disk
/// (not on any mount) so flock works.
pub open spec fn instance_file(home: Seq<char>) -> Seq<char> {
    path::joined_path(config::library_path(home, "Application Support"@), "instance.lock"@)
}

pub fn instance_lock_path() -> (r: String)
    ensures
        exists|home: Seq<char>| home.len() > 0 && r@ == #[trigger] instance_file(home),
{
    instance_lock_path_in(config::home_dir().as_str())
}

pub fn instance_lock_path_in(home: &str) -> (r: String)
    ensures
        r@ == instance_file(home@),
{
    join_path(config::support_dir_in(home).as_str(), "instance.lock")
}

/// How many milliseconds to wait before trying again to get the lock, if at
/// all: after a self-update the old process may still be shutting down, for up
/// to thirty seconds. `waited` is the time so far, in nanoseconds.
pub fn instance_lock_wait(locked: bool, relaunched: bool, waited: u64) -> (r: Option<u64>)
    ensures
        r == (if !locked && relaunched && waited < 30_000_000_000 {
            Some(250u64)
        } else {
            None
        }),
{
    if !locked && relaunched && waited < 30_000_000_000 {
        Some(250)
    } else {
        None
    }
}

} // verus!
