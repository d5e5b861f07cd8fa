//! The mount table, unmounting, leftover processes and the login item.

use crate::config;
use crate::laws;
use crate::mac;
use crate::mac::{UnmountModel, UnmountState};
use crate::number;
use crate::path;
use crate::split;
use crate::text;
use vstd::prelude::*;

verus! {

// ---------------------------------------------------------------------------
// Volumes
// ---------------------------------------------------------------------------

/// Each line of the mount table that names a mounted path adds that path, in the
/// order of the lines, and no other line adds anything.
pub proof fn lemma_mounted_line_by_line(lines: Seq<Seq<char>>, line: Seq<char>)
    ensures
        mac::mounted_in(Seq::empty()) == Seq::<Seq<char>>::empty(),
        mac::mounted_path(line) matches Some(p) ==> mac::mounted_in(lines.push(line))
            == mac::mounted_in(lines).push(p),
        mac::mounted_path(line) is None ==> mac::mounted_in(lines.push(line)) == mac::mounted_in(
            lines,
        ),
        !split::has(line, " on "@) ==> mac::mounted_path(line) is None,
{
    assert(lines.push(line).drop_last() =~= lines);
}

/// A path is mounted just when the mount table has it, or what its parent
/// resolves to, in whatever way it is written.
pub proof fn lemma_mounted(p: Seq<char>, canonical: Seq<char>, mounted: Seq<Seq<char>>)
    ensures
        mounted.contains(p) ==> mac::mounted_at(p, canonical, mounted),
        mounted.contains(canonical) ==> mac::mounted_at(p, canonical, mounted),
        (forall|i: int|
            0 <= i < mounted.len() ==> !path::equal_paths(#[trigger] mounted[i], p)
                && !path::equal_paths(mounted[i], canonical)) ==> !mac::mounted_at(
            p,
            canonical,
            mounted,
        ),
{
    if mounted.contains(p) {
        let i = choose|i: int| 0 <= i < mounted.len() && mounted[i] == p;
        assert(path::equal_paths(mounted[i], p));
    }
    if mounted.contains(canonical) {
        let i = choose|i: int| 0 <= i < mounted.len() && mounted[i] == canonical;
        assert(path::equal_paths(mounted[i], canonical));
    }
}

/// Only the parent of a file is resolved; its name stays.
pub proof fn lemma_only_the_parent_is_resolved(dir: Seq<char>, name: Seq<char>, parent: Seq<char>)
    requires
        laws::sync::file_like(name),
    ensures
        mac::resolved(dir + seq!['/'] + name, Some(parent)) == path::joined_path(parent, name),
        mac::resolved(dir + seq!['/'] + name, None) == dir + seq!['/'] + name,
{
    laws::path::lemma_name_of_file(dir, name);
}

/// The state of unmounting after `n` attempts that were made in vain, with the
/// errors that they ended with.
pub open spec fn in_vain(s: UnmountState, n: int) -> UnmountState
    decreases n,
{
    if n <= 0 {
        s
    } else {
        let before = in_vain(s, n - 1);
        (UnmountState { tried: true, ..before }).looked(true).0
    }
}

/// A volume that stays mounted is unmounted in three ways, one after the other:
/// politely, by force, and by force through the disk utility, each time the path
/// itself; after that unmounting is given up, with the path and the last error.
pub proof fn lemma_three_attempts(p: Seq<char>, last_error: Seq<char>)
    ensures
        ({
            let s = UnmountState { path: p, attempts: 0, tried: false, last_error };
            &&& in_vain(s, 0).looked(true).1 == (UnmountModel::Run {
                program: "/sbin/umount"@,
                args: seq![p],
                secs: 5,
            })
            &&& in_vain(s, 1).looked(true).1 == (UnmountModel::Run {
                program: "/sbin/umount"@,
                args: seq!["-f"@, p],
                secs: 10,
            })
            &&& in_vain(s, 2).looked(true).1 == (UnmountModel::Run {
                program: "/usr/sbin/diskutil"@,
                args: seq!["unmount"@, "force"@, p],
                secs: 20,
            })
            &&& in_vain(s, 3).looked(true).1 == (UnmountModel::Done {
                error: Some("could not unmount "@ + p + ": "@ + last_error),
            })
            &&& forall|n: int|
                0 <= n <= 3 ==> (#[trigger] in_vain(s, n)).looked(false).1 == (UnmountModel::Done {
                    error: None,
                })
        }),
{
    reveal_with_fuel(in_vain, 5);
}

// ---------------------------------------------------------------------------
// Processes
// ---------------------------------------------------------------------------

/// A line with a number, a blank and a command that serves the mount point, or
/// its canonical form, is that process; unless the number is our own.
pub proof fn lemma_process_of_a_line(
    pid: nat,
    command: Seq<char>,
    me: u32,
    mount_point: Seq<char>,
    canonical: Seq<char>,
)
    requires
        pid <= i32::MAX,
    ensures
        ({
            let line = number::decimal(pid) + " "@ + command;
            let found = mac::stale_process(line, me, mount_point, canonical);
            let serving = mac::serves(command, mount_point) || mac::serves(command, canonical);
            &&& serving && pid != me ==> found == Some(pid as int)
            &&& !serving || pid == me ==> found is None
        }),
{
    reveal_strlit(" ");
    let digits = number::decimal(pid);
    let line = digits + " "@ + command;
    number::lemma_decimal(pid);
    laws::number::lemma_decimal_read_back(pid);
    assert(line[0] == digits[0]);
    assert('0' <= digits[0] <= '9' && '0' <= digits.last() <= '9') by {
        assert(digits[digits.len() - 1] == digits.last());
    }
    assert(!text::white(line[0]));
    assert(text::trimmed_start(line, text::Class::Space) == line);
    laws::rclone::lemma_nothing_to_trim(digits);
    let n = digits.len() as int;
    assert(mac::first_white(line, n)) by {
        assert(line[n] == ' ');
        assert forall|j: int| 0 <= j < n implies !text::white(#[trigger] line[j]) by {
            assert(line[j] == digits[j]);
            assert('0' <= digits[j] <= '9');
        }
    }
    let c = choose|c: int| mac::first_white(line, c);
    assert(mac::first_white(line, c));
    assert(c == n) by {
        if c < n {
            assert(!text::white(line[c]));
        }
    }
    assert(line.subrange(0, n) =~= digits);
    assert(line.subrange(n + 1, line.len() as int) =~= command);
    assert(number::integer_value(digits) == Some(pid as int));
}

/// An `rclone nfsmount` serves the place that its command names as a word of its
/// own, at the end or in front of the options; no other command serves anything,
/// and none a place that it does not name so.
pub proof fn lemma_what_is_served(front: Seq<char>, place: Seq<char>, options: Seq<char>)
    ensures
        ({
            let bare = front + " "@ + place;
            let more = front + " "@ + place + " --"@ + options;
            let rclone = |c: Seq<char>| split::has(c, "rclone"@) && split::has(c, "nfsmount"@);
            &&& mac::serves(bare, place) <==> rclone(bare)
            &&& mac::serves(more, place) <==> rclone(more)
        }),
        mac::serves(front, place) ==> split::stands_apart(front, place),
        mac::serves(front, place) ==> split::has(front, "rclone"@) && split::has(front, "nfsmount"@),
{
    reveal_strlit(" ");
    reveal_strlit("--");
    reveal_strlit(" --");
    let bare = front + " "@ + place;
    let more = front + " "@ + place + " --"@ + options;
    let i: int = front.len() as int + 1;
    let end: int = i + place.len();
    assert(bare.subrange(i, end) =~= place);
    assert(more.subrange(i, end) =~= place);
    assert(bare[i - 1] == ' ' && more[i - 1] == ' ' && more[end] == ' ');
    assert(more.subrange(end + 1, end + 3) =~= "--"@);
    assert(mac::serves_at(bare, place, i));
    assert(mac::serves_at(more, place, i));
    if mac::serves(front, place) {
        let j = choose|j: int| mac::serves_at(front, place, j);
        assert(split::apart_at(front, place, j));
    }
}

/// The number of a process is counted from 0, in 32 bits.
pub proof fn lemma_process_number(pid: i32)
    ensures
        0 <= mac::unsigned(pid as int) < 0x1_0000_0000,
        (mac::unsigned(pid as int) - pid) % 0x1_0000_0000 == 0,
{
}

/// The processes of a listing are those of its lines, in their order.
pub proof fn lemma_processes_line_by_line(
    lines: Seq<Seq<char>>,
    line: Seq<char>,
    me: u32,
    mount_point: Seq<char>,
    canonical: Seq<char>,
)
    ensures
        mac::stale_in(Seq::empty(), me, mount_point, canonical) == Seq::<int>::empty(),
        mac::stale_process(line, me, mount_point, canonical) matches Some(pid) ==> mac::stale_in(
            lines.push(line),
            me,
            mount_point,
            canonical,
        ) == mac::stale_in(lines, me, mount_point, canonical).push(pid),
        mac::stale_process(line, me, mount_point, canonical) is None ==> mac::stale_in(
            lines.push(line),
            me,
            mount_point,
            canonical,
        ) == mac::stale_in(lines, me, mount_point, canonical),
{
    assert(lines.push(line).drop_last() =~= lines);
}

// ---------------------------------------------------------------------------
// The login item
// ---------------------------------------------------------------------------

/// What a character is in XML text.
pub open spec fn in_xml(c: char) -> Seq<char> {
    if c == '&' {
        "&amp;"@
    } else if c == '<' {
        "&lt;"@
    } else if c == '>' {
        "&gt;"@
    } else {
        seq![c]
    }
}

/// In XML each character stands for itself, but for the three that mean
/// something there: those are written out, and nothing twice.
pub proof fn lemma_xml_by_character(s: Seq<char>, c: char)
    ensures
        mac::xml(Seq::empty()) == Seq::<char>::empty(),
        mac::xml(s.push(c)) == mac::xml(s) + in_xml(c),
{
    reveal_strlit("&amp;");
    reveal_strlit("&lt;");
    reveal_strlit("&gt;");
    let none = Seq::<char>::empty();
    let one = seq![c];
    assert(s.push(c) =~= s + one);
    split::lemma_replaced_concat(s, one, '&', "&amp;"@);
    let a = split::replaced(s, '&', "&amp;"@);
    let a1 = split::replaced(one, '&', "&amp;"@);
    split::lemma_replaced_concat(a, a1, '<', "&lt;"@);
    let b = split::replaced(a, '<', "&lt;"@);
    let b1 = split::replaced(a1, '<', "&lt;"@);
    split::lemma_replaced_concat(b, b1, '>', "&gt;"@);
    assert(one.drop_last() =~= none);
    reveal_with_fuel(split::replaced, 2);
    if c == '&' {
        assert(a1 =~= "&amp;"@);
        assert(!"&amp;"@.contains('<') && !"&amp;"@.contains('>'));
        split::lemma_replaced_none("&amp;"@, '<', "&lt;"@);
        split::lemma_replaced_none("&amp;"@, '>', "&gt;"@);
    } else if c == '<' {
        assert(a1 =~= one);
        assert(b1 =~= "&lt;"@);
        assert(!"&lt;"@.contains('>'));
        split::lemma_replaced_none("&lt;"@, '>', "&gt;"@);
    } else if c == '>' {
        assert(a1 =~= one);
        assert(b1 =~= one);
        assert(split::replaced(b1, '>', "&gt;"@) =~= "&gt;"@);
    } else {
        assert(a1 =~= one);
        assert(b1 =~= one);
        assert(split::replaced(b1, '>', "&gt;"@) =~= one);
    }
}

/// The login item starts the executable in the background when the user logs in,
/// again after a crash but not after it ended well, with its output in the
/// application's logs; launchctl knows it by the application's name.
pub proof fn lemma_login_item(exe: Seq<char>, home: Seq<char>, uid: u32)
    requires
        laws::config::usual_home(home),
    ensures
        mac::plist(exe, home)
            == "<?xml version=\"1.0\" encoding=\"UTF-8\"?>\n<!DOCTYPE plist PUBLIC \"-//Apple//DTD PLIST 1.0//EN\" \"http://www.apple.com/DTDs/PropertyList-1.0.dtd\">\n<plist version=\"1.0\">\n<dict>\n    <key>Label</key>\n    <string>"@
            + "com.bucketmount.desktop"@
            + "</string>\n    <key>ProgramArguments</key>\n    <array>\n        "@ + (
        "<string>"@ + mac::xml(exe) + "</string>"@)
            + "\n        <string>--background</string>\n    </array>\n    <key>RunAtLoad</key>\n    <true/>\n    <key>KeepAlive</key>\n    <dict>\n        <key>SuccessfulExit</key>\n        <false/>\n    </dict>\n    <key>ProcessType</key>\n    <string>Interactive</string>\n    <key>StandardOutPath</key>\n    <string>"@
            + mac::xml(home + "/Library/Logs/BucketMount/launchd.out.log"@)
            + "</string>\n    <key>StandardErrorPath</key>\n    <string>"@ + mac::xml(
            home + "/Library/Logs/BucketMount/launchd.err.log"@,
        ) + "</string>\n</dict>\n</plist>\n"@,
        mac::agent_file(home) == home + "/Library/LaunchAgents/com.bucketmount.desktop.plist"@,
        mac::agent_target(uid) == "gui/"@ + number::decimal(uid as nat) + "/"@
            + "com.bucketmount.desktop"@,
        mac::instance_file(home) == home
            + "/Library/Application Support/BucketMount/instance.lock"@,
{
    lemma_files_of_the_system(home);
}

proof fn lemma_files_of_the_system(home: Seq<char>)
    requires
        laws::config::usual_home(home),
    ensures
        ({
            let logs = config::library_path(home, "Logs"@);
            &&& path::joined_path(logs, "launchd.out.log"@) == home
                + "/Library/Logs/BucketMount/launchd.out.log"@
            &&& path::joined_path(logs, "launchd.err.log"@) == home
                + "/Library/Logs/BucketMount/launchd.err.log"@
        }),
        mac::agent_file(home) == home + "/Library/LaunchAgents/com.bucketmount.desktop.plist"@,
        mac::instance_file(home) == home
            + "/Library/Application Support/BucketMount/instance.lock"@,
{
    laws::config::lemma_directories(home, home);
    lemma_log_of_launchd(home);
    lemma_agent_file(home);
    lemma_instance_file(home);
}

proof fn lemma_log_of_launchd(home: Seq<char>)
    requires
        laws::config::usual_home(home),
    ensures
        path::joined_path(home + "/Library/Logs/BucketMount"@, "launchd.out.log"@) == home
            + "/Library/Logs/BucketMount/launchd.out.log"@,
        path::joined_path(home + "/Library/Logs/BucketMount"@, "launchd.err.log"@) == home
            + "/Library/Logs/BucketMount/launchd.err.log"@,
{
    reveal_strlit("launchd.out.log");
    reveal_strlit("launchd.err.log");
    reveal_strlit("/Library/Logs/BucketMount");
    reveal_strlit("/Library/Logs/BucketMount/launchd.out.log");
    reveal_strlit("/Library/Logs/BucketMount/launchd.err.log");
    let logs = home + "/Library/Logs/BucketMount"@;
    assert(path::joined_path(logs, "launchd.out.log"@) =~= home
        + "/Library/Logs/BucketMount/launchd.out.log"@);
    assert(path::joined_path(logs, "launchd.err.log"@) =~= home
        + "/Library/Logs/BucketMount/launchd.err.log"@);
}

proof fn lemma_agent_file(home: Seq<char>)
    requires
        laws::config::usual_home(home),
    ensures
        mac::agent_file(home) == home + "/Library/LaunchAgents/com.bucketmount.desktop.plist"@,
{
    reveal_strlit("Library");
    reveal_strlit("LaunchAgents");
    reveal_strlit("com.bucketmount.desktop");
    reveal_strlit(".plist");
    reveal_strlit("/Library/LaunchAgents/com.bucketmount.desktop.plist");
    assert(mac::agent_file(home) =~= home
        + "/Library/LaunchAgents/com.bucketmount.desktop.plist"@);
}

proof fn lemma_instance_file(home: Seq<char>)
    requires
        laws::config::usual_home(home),
    ensures
        mac::instance_file(home) == home
            + "/Library/Application Support/BucketMount/instance.lock"@,
{
    laws::config::lemma_directories(home, home);
    reveal_strlit("instance.lock");
    reveal_strlit("/Library/Application Support/BucketMount");
    reveal_strlit("/Library/Application Support/BucketMount/instance.lock");
    assert(mac::instance_file(home) =~= home
        + "/Library/Application Support/BucketMount/instance.lock"@);
}

/// A login item is the right one just when its description has an entry for the
/// executable; without a description, or without an executable, it is not.
pub proof fn lemma_right_login_item(text: Seq<char>, exe: Seq<char>)
    ensures
        mac::agent_starts(Some(text), Some(exe)) <==> split::has(
            text,
            "<string>"@ + mac::xml(exe) + "</string>"@,
        ),
        !mac::agent_starts(None, Some(exe)),
        !mac::agent_starts(Some(text), None),
{
}

} // verus!
