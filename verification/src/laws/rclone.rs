//! What rclone is told: every setting reaches it under the flag or variable that
//! it is for, and nothing else does.

use crate::config;
use crate::config::MountModel;
use crate::json;
use crate::number;
use crate::path;
use crate::rclone;
use crate::split;
use crate::text;
use vstd::prelude::*;
use vstd::utf8::*;

verus! {

/// `value` stands right behind `flag`.
pub open spec fn behind(args: Seq<Seq<char>>, flag: Seq<char>, value: Seq<char>) -> bool {
    exists|i: int| stands_behind(args, flag, value, i)
}

pub open spec fn stands_behind(
    args: Seq<Seq<char>>,
    flag: Seq<char>,
    value: Seq<char>,
    i: int,
) -> bool {
    0 <= i && i + 1 < args.len() && args[i] == flag && args[i + 1] == value
}

/// A number of seconds as rclone takes it.
pub open spec fn seconds(n: nat) -> Seq<char> {
    number::decimal(n) + "s"@
}

/// A mount serves the remote at the mount point, and each of its settings
/// reaches rclone behind the flag that it is for; the caches are kept below the
/// mount's own directory. There is room for nothing else: after what is listed
/// here come the user's own flags, and the list is as long as that.
pub proof fn lemma_mount_settings_reach_rclone(
    m: MountModel,
    remote: Seq<char>,
    mount_point: Seq<char>,
    rc_port: u16,
    home: Seq<char>,
)
    ensures
        ({
            let args = rclone::mount_arguments(m, remote, mount_point, rc_port, home);
            let own = if m.read_only {
                29int
            } else {
                28int
            };
            let cache = path::joined_path(
                config::library_path(home, "Caches"@),
                rclone::sanitized(m.name),
            );
            &&& args.len() == own + m.extra_args.len()
            &&& args.skip(own) == m.extra_args
            &&& args[0] == "nfsmount"@ && args[1] == remote && args[2] == mount_point
            &&& behind(args, "--vfs-cache-mode"@, "full"@)
            &&& behind(args, "--vfs-write-back"@, seconds(m.write_back_secs as nat))
            &&& behind(args, "--vfs-cache-max-size"@, text::trimmed(m.cache_max_size))
            &&& behind(
                args,
                "--dir-cache-time"@,
                seconds(
                    if m.dir_cache_secs == 0 {
                        1
                    } else {
                        m.dir_cache_secs as nat
                    },
                ),
            )
            &&& behind(args, "--cache-dir"@, path::joined_path(cache, "vfs"@))
            &&& behind(args, "--nfs-cache-type"@, "disk"@)
            &&& behind(args, "--nfs-cache-dir"@, path::joined_path(cache, "nfs-handles"@))
            &&& behind(args, "--volname"@, text::trimmed(m.name))
            &&& behind(args, "-o"@, "locallocks"@)
            &&& behind(args, "--rc-addr"@, "127.0.0.1:"@ + number::decimal(rc_port as nat))
            &&& behind(args, "--log-level"@, "INFO"@)
            &&& args.take(own).contains("--rc"@) && args.take(own).contains("--rc-no-auth"@)
            &&& args.take(own).contains("--use-json-log=false"@)
            &&& m.read_only ==> args[28] == "--read-only"@
        }),
{
    let args = rclone::mount_arguments(m, remote, mount_point, rc_port, home);
    let own = if m.read_only {
        29int
    } else {
        28int
    };
    let cache = path::joined_path(config::library_path(home, "Caches"@), rclone::sanitized(m.name));
    let dirs = seconds(
        if m.dir_cache_secs == 0 {
            1
        } else {
            m.dir_cache_secs as nat
        },
    );
    assert(args.skip(own) =~= m.extra_args);
    assert(stands_behind(args, "--vfs-cache-mode"@, "full"@, 3));
    assert(stands_behind(args, "--vfs-write-back"@, seconds(m.write_back_secs as nat), 5));
    assert(stands_behind(args, "--vfs-cache-max-size"@, text::trimmed(m.cache_max_size), 7));
    assert(stands_behind(args, "--dir-cache-time"@, dirs, 9));
    assert(stands_behind(args, "--cache-dir"@, path::joined_path(cache, "vfs"@), 11));
    assert(stands_behind(args, "--nfs-cache-type"@, "disk"@, 13));
    assert(stands_behind(args, "--nfs-cache-dir"@, path::joined_path(cache, "nfs-handles"@), 15));
    assert(stands_behind(args, "--volname"@, text::trimmed(m.name), 17));
    assert(stands_behind(args, "-o"@, "locallocks"@, 19));
    assert(stands_behind(
        args,
        "--rc-addr"@,
        "127.0.0.1:"@ + number::decimal(rc_port as nat),
        22,
    ));
    assert(stands_behind(args, "--log-level"@, "INFO"@, 25));
    assert(args.take(own)[21] == "--rc"@);
    assert(args.take(own)[24] == "--rc-no-auth"@);
    assert(args.take(own)[27] == "--use-json-log=false"@);
}

/// A mount is asked for its queue at the address at which it was told to listen,
/// and no two ports make the same address.
pub proof fn lemma_asked_where_it_listens(
    m: MountModel,
    remote: Seq<char>,
    mount_point: Seq<char>,
    rc_port: u16,
    other_port: u16,
    home: Seq<char>,
)
    ensures
        exists|address: Seq<char>|
            behind(
                rclone::mount_arguments(m, remote, mount_point, rc_port, home),
                "--rc-addr"@,
                address,
            ) && #[trigger] behind(rclone::stats_arguments(rc_port), "--rc-addr"@, address),
        rclone::mount_arguments(m, remote, mount_point, rc_port, home)[22] == "--rc-addr"@,
        rclone::mount_arguments(m, remote, mount_point, rc_port, home)[23]
            == rclone::stats_arguments(rc_port)[2],
        rclone::stats_arguments(rc_port).len() == 4,
        rclone::stats_arguments(rc_port)[0] == "rc"@,
        rclone::stats_arguments(rc_port)[3] == "vfs/stats"@,
        rc_port != other_port ==> rclone::stats_arguments(rc_port)[2] != rclone::stats_arguments(
            other_port,
        )[2],
{
    let args = rclone::mount_arguments(m, remote, mount_point, rc_port, home);
    let address = "127.0.0.1:"@ + number::decimal(rc_port as nat);
    assert(stands_behind(args, "--rc-addr"@, address, 22));
    assert(stands_behind(rclone::stats_arguments(rc_port), "--rc-addr"@, address, 1));
    assert(behind(rclone::stats_arguments(rc_port), "--rc-addr"@, address));
    if rc_port != other_port {
        crate::laws::number::lemma_decimal_distinct(rc_port as nat, other_port as nat);
        let other = "127.0.0.1:"@ + number::decimal(other_port as nat);
        if address == other {
            let n = "127.0.0.1:"@.len() as int;
            assert(address.skip(n) =~= number::decimal(rc_port as nat));
            assert(other.skip(n) =~= number::decimal(other_port as nat));
        }
    }
}

/// A flag that a run of bisync is given by the application itself.
pub open spec fn bisync_flag(arg: Seq<char>, resync: bool) -> bool {
    arg == "--workdir"@ || arg == "--recover"@ || arg == "--exclude"@ || arg == "--log-level"@ || arg
        == "--use-json-log=false"@ || (resync && (arg == "--resync"@ || arg == "--resync-mode"@))
}

/// An argument that begins like a flag.
pub open spec fn flag_like(arg: Seq<char>) -> bool {
    arg.len() > 1 && arg[0] == '-' && arg[1] == '-'
}

/// A run of bisync syncs the folder and the remote, in this order, with its state
/// in the work directory, and leaves out Finder metadata and swap files. Apart
/// from the user's own flags, which come last, nothing changes what is copied:
/// the flags are those listed here, each with its value, and the list is as long
/// as that. A resync differs in one thing: it is told to merge, keeping what is
/// newer.
pub proof fn lemma_bisync_syncs_both_sides(
    m: MountModel,
    remote: Seq<char>,
    folder: Seq<char>,
    workdir: Seq<char>,
    resync: bool,
)
    ensures
        ({
            let args = rclone::bisync_arguments(m, remote, folder, workdir, resync);
            let own = if resync {
                20int
            } else {
                17int
            };
            &&& args.len() == own + m.extra_args.len()
            &&& args.skip(own) == m.extra_args
            &&& args[0] == "bisync"@ && args[1] == folder && args[2] == remote
            &&& args[3] == "--workdir"@ && args[4] == workdir
            &&& forall|i: int|
                5 <= i < own && flag_like(#[trigger] args[i]) ==> bisync_flag(args[i], resync)
            &&& args.take(own).contains("--recover"@)
            &&& behind(args.take(own), "--exclude"@, ".DS_Store"@)
            &&& behind(args.take(own), "--exclude"@, "._*"@)
            &&& behind(args.take(own), "--exclude"@, ".*.swp"@)
            &&& behind(args.take(own), "--exclude"@, ".*.swx"@)
            &&& behind(args.take(own), "--log-level"@, "INFO"@)
            &&& args.take(own).contains("--use-json-log=false"@)
            &&& resync ==> args.subrange(17, 20) == seq!["--resync"@, "--resync-mode"@, "newer"@]
        }),
        rclone::bisync_arguments(m, remote, folder, workdir, true).take(17)
            == rclone::bisync_arguments(m, remote, folder, workdir, false).take(17),
{
    reveal_strlit(".DS_Store");
    reveal_strlit("._*");
    reveal_strlit(".*.swp");
    reveal_strlit(".*.swx");
    reveal_strlit("INFO");
    reveal_strlit("newer");
    let args = rclone::bisync_arguments(m, remote, folder, workdir, resync);
    let own = if resync {
        20int
    } else {
        17int
    };
    assert(args.skip(own) =~= m.extra_args);
    let ours = args.take(own);
    assert(ours[5] == "--recover"@);
    assert(stands_behind(ours, "--exclude"@, ".DS_Store"@, 6));
    assert(stands_behind(ours, "--exclude"@, "._*"@, 8));
    assert(stands_behind(ours, "--exclude"@, ".*.swp"@, 10));
    assert(stands_behind(ours, "--exclude"@, ".*.swx"@, 12));
    assert(stands_behind(ours, "--log-level"@, "INFO"@, 14));
    assert(ours[16] == "--use-json-log=false"@);
    if resync {
        assert(args.subrange(17, 20) =~= seq!["--resync"@, "--resync-mode"@, "newer"@]);
    }
    assert forall|i: int| 5 <= i < own && flag_like(#[trigger] args[i]) implies bisync_flag(
        args[i],
        resync,
    ) by {
        assert(args[7] == ".DS_Store"@ && args[9] == "._*"@ && args[11] == ".*.swp"@);
        assert(args[13] == ".*.swx"@ && args[15] == "INFO"@);
        if resync {
            assert(args[17] == "--resync"@ && args[18] == "--resync-mode"@ && args[19] == "newer"@);
        }
    }
    assert(rclone::bisync_arguments(m, remote, folder, workdir, true).take(17)
        =~= rclone::bisync_arguments(m, remote, folder, workdir, false).take(17));
}

/// A check lists the top of the remote once: it is told how deep to look and how
/// long to try, and nothing else.
pub proof fn lemma_check_lists_the_remote(remote: Seq<char>)
    ensures
        ({
            let args = rclone::connectivity_arguments(remote);
            &&& args.len() == 12
            &&& args[0] == "lsjson"@
            &&& args[11] == remote
            &&& behind(args, "--max-depth"@, "1"@)
            &&& behind(args, "--contimeout"@, "10s"@)
            &&& behind(args, "--timeout"@, "20s"@)
            &&& behind(args, "--retries"@, "1"@)
            &&& behind(args, "--low-level-retries"@, "2"@)
        }),
{
    let args = rclone::connectivity_arguments(remote);
    assert(stands_behind(args, "--max-depth"@, "1"@, 1));
    assert(stands_behind(args, "--contimeout"@, "10s"@, 3));
    assert(stands_behind(args, "--timeout"@, "20s"@, 5));
    assert(stands_behind(args, "--retries"@, "1"@, 7));
    assert(stands_behind(args, "--low-level-retries"@, "2"@, 9));
}

// ---------------------------------------------------------------------------
// The environment
// ---------------------------------------------------------------------------

proof fn lemma_contains_concat(
    a: Seq<(Seq<char>, Seq<char>)>,
    b: Seq<(Seq<char>, Seq<char>)>,
    x: (Seq<char>, Seq<char>),
)
    ensures
        (a + b).contains(x) <==> a.contains(x) || b.contains(x),
{
    let c = a + b;
    if a.contains(x) {
        let i = choose|i: int| 0 <= i < a.len() && a[i] == x;
        assert(c[i] == x);
    }
    if b.contains(x) {
        let i = choose|i: int| 0 <= i < b.len() && b[i] == x;
        assert(c[a.len() + i] == x);
    }
    if c.contains(x) {
        let i = choose|i: int| 0 <= i < c.len() && c[i] == x;
        if i < a.len() {
            assert(a[i] == x);
        } else {
            assert(b[i - a.len()] == x);
        }
    }
}

proof fn lemma_contains_push(
    a: Seq<(Seq<char>, Seq<char>)>,
    p: (Seq<char>, Seq<char>),
    x: (Seq<char>, Seq<char>),
)
    ensures
        a.push(p).contains(x) <==> a.contains(x) || p == x,
{
    assert(a.push(p) =~= a + seq![p]);
    lemma_contains_concat(a, seq![p], x);
    assert(seq![p][0] == p);
}

proof fn lemma_given(key: Seq<char>, value: Seq<char>, x: (Seq<char>, Seq<char>))
    ensures
        rclone::given(key, value).contains(x) <==> x.0 == key && text::trimmed(value).len() > 0
            && x.1 == text::trimmed(value),
{
    let g = rclone::given(key, value);
    if text::trimmed(value).len() > 0 {
        assert(g[0] == (key, text::trimmed(value)));
    }
}

/// The variable is one of rclone's for the on-the-fly remote, with the setting
/// that it is for.
pub open spec fn remote_setting(m: MountModel, x: (Seq<char>, Seq<char>)) -> bool {
    let present = x.1.len() > 0;
    ||| x == ("RCLONE_CONFIG_BUCKET_TYPE"@, "s3"@)
    ||| x == ("RCLONE_CONFIG_BUCKET_PROVIDER"@, text::trimmed(m.provider)) && present
    ||| x == ("RCLONE_CONFIG_BUCKET_REGION"@, text::trimmed(m.region)) && present
    ||| x == ("RCLONE_CONFIG_BUCKET_ENDPOINT"@, text::trimmed(m.endpoint)) && present
}

/// Each variable in the environment of rclone has the setting that it is for,
/// and each setting that is given reaches rclone: the kind of remote, provider,
/// region and endpoint, and then either both keys, or the wish for the default
/// chain and the profile. With a remote of the user's own it is the profile
/// alone.
pub proof fn lemma_settings_reach_the_environment(
    program: Seq<char>,
    m: MountModel,
    x: (Seq<char>, Seq<char>),
)
    ensures
        ({
            let inv = rclone::invocation_of(program, m);
            let own_remote = text::trimmed(m.rclone_remote).len() > 0;
            let keys = text::trimmed(m.access_key_id).len() > 0;
            let profile = text::trimmed(m.aws_profile);
            &&& inv.rclone == program
            &&& own_remote ==> inv.remote == text::trimmed(m.rclone_remote) + ":"@
                + m.bucket_and_prefix()
            &&& !own_remote ==> inv.remote == "bucket"@ + ":"@ + m.bucket_and_prefix()
            &&& own_remote ==> (inv.env.contains(x) <==> x == ("RCLONE_S3_PROFILE"@, profile)
                && profile.len() > 0)
            &&& !own_remote && keys ==> (inv.env.contains(x) <==> remote_setting(m, x) || x == (
                "RCLONE_CONFIG_BUCKET_ACCESS_KEY_ID"@,
                text::trimmed(m.access_key_id),
            ) || x == (
                "RCLONE_CONFIG_BUCKET_SECRET_ACCESS_KEY"@,
                text::trimmed(m.secret_access_key),
            ))
            &&& !own_remote && !keys ==> (inv.env.contains(x) <==> remote_setting(m, x) || x == (
                "RCLONE_CONFIG_BUCKET_ENV_AUTH"@,
                "true"@,
            ) || (x == ("RCLONE_CONFIG_BUCKET_PROFILE"@, profile) && profile.len() > 0))
        }),
{
    let inv = rclone::invocation_of(program, m);
    lemma_given("RCLONE_S3_PROFILE"@, m.aws_profile, x);
    let e0 = seq![("RCLONE_CONFIG_BUCKET_TYPE"@, "s3"@)];
    let p1 = rclone::given("RCLONE_CONFIG_BUCKET_PROVIDER"@, m.provider);
    let p2 = rclone::given("RCLONE_CONFIG_BUCKET_REGION"@, m.region);
    let p3 = rclone::given("RCLONE_CONFIG_BUCKET_ENDPOINT"@, m.endpoint);
    lemma_given("RCLONE_CONFIG_BUCKET_PROVIDER"@, m.provider, x);
    lemma_given("RCLONE_CONFIG_BUCKET_REGION"@, m.region, x);
    lemma_given("RCLONE_CONFIG_BUCKET_ENDPOINT"@, m.endpoint, x);
    lemma_given("RCLONE_CONFIG_BUCKET_PROFILE"@, m.aws_profile, x);
    assert(e0[0] == ("RCLONE_CONFIG_BUCKET_TYPE"@, "s3"@));
    assert(e0.contains(x) <==> x == ("RCLONE_CONFIG_BUCKET_TYPE"@, "s3"@));
    lemma_contains_concat(e0, p1, x);
    lemma_contains_concat(e0 + p1, p2, x);
    lemma_contains_concat(e0 + p1 + p2, p3, x);
    let place = e0 + p1 + p2 + p3;
    assert(place.contains(x) <==> remote_setting(m, x));
    let id = ("RCLONE_CONFIG_BUCKET_ACCESS_KEY_ID"@, text::trimmed(m.access_key_id));
    let secret = ("RCLONE_CONFIG_BUCKET_SECRET_ACCESS_KEY"@, text::trimmed(m.secret_access_key));
    lemma_contains_push(place, id, x);
    lemma_contains_push(place.push(id), secret, x);
    let chain = ("RCLONE_CONFIG_BUCKET_ENV_AUTH"@, "true"@);
    lemma_contains_push(place, chain, x);
    lemma_contains_concat(
        place.push(chain),
        rclone::given("RCLONE_CONFIG_BUCKET_PROFILE"@, m.aws_profile),
        x,
    );
}

/// A text without white space or slashes around it.
pub open spec fn bare(s: Seq<char>) -> bool {
    s.len() > 0 && !text::white(s[0]) && !text::white(s.last()) && s[0] != '/' && s.last() != '/'
}

/// A bucket stands for itself, and with a path inside it for that path, whether
/// or not the path was given with slashes around it.
pub proof fn lemma_bucket_and_prefix(m: MountModel, bucket: Seq<char>, prefix: Seq<char>)
    requires
        bare(bucket),
        bare(prefix),
    ensures
        (MountModel { bucket, prefix: Seq::empty(), ..m }).bucket_and_prefix() == bucket,
        (MountModel { bucket, prefix, ..m }).bucket_and_prefix() == bucket + "/"@ + prefix,
        (MountModel { bucket, prefix: seq!['/'] + prefix, ..m }).bucket_and_prefix() == bucket + "/"@
            + prefix,
        (MountModel { bucket, prefix: prefix.push('/'), ..m }).bucket_and_prefix() == bucket + "/"@
            + prefix,
{
    let none = Seq::<char>::empty();
    text::lemma_trimmed_of(bucket, text::Class::Space);
    text::lemma_trimmed_of(none, text::Class::Space);
    text::lemma_trimmed_of(none, text::Class::Only('/'));
    lemma_clean_bare(prefix);
    lemma_clean_front(prefix);
    lemma_clean_back(prefix);
}

/// What is left of a prefix without white space and then slashes around it.
pub open spec fn clean(prefix: Seq<char>) -> Seq<char> {
    text::trimmed_of(text::trimmed(prefix), text::Class::Only('/'))
}

proof fn lemma_clean_bare(prefix: Seq<char>)
    requires
        bare(prefix),
    ensures
        clean(prefix) == prefix,
        text::trimmed_start(prefix, text::Class::Only('/')) == prefix,
        text::trimmed_end(prefix, text::Class::Only('/')) == prefix,
{
    text::lemma_trimmed_of(prefix, text::Class::Space);
    text::lemma_trimmed_of(prefix, text::Class::Only('/'));
}

/// A text with nothing to trim is left as it is.
pub proof fn lemma_nothing_to_trim(s: Seq<char>)
    requires
        s.len() > 0,
        !text::white(s[0]),
        !text::white(s.last()),
    ensures
        text::trimmed(s) == s,
{
    text::lemma_trimmed_of(s, text::Class::Space);
}

proof fn lemma_start_trimmed(s: Seq<char>)
    ensures
        text::trimmed_start(seq!['/'] + s, text::Class::Only('/')) == text::trimmed_start(
            s,
            text::Class::Only('/'),
        ),
{
    let front = seq!['/'] + s;
    assert(front.subrange(1, front.len() as int) =~= s);
}

proof fn lemma_clean_front(prefix: Seq<char>)
    requires
        bare(prefix),
    ensures
        clean(seq!['/'] + prefix) == prefix,
{
    let front = seq!['/'] + prefix;
    assert(front[0] == '/' && front.last() == prefix.last());
    assert(!text::white('/'));
    lemma_nothing_to_trim(front);
    lemma_start_trimmed(prefix);
    lemma_clean_bare(prefix);
}

proof fn lemma_clean_back(prefix: Seq<char>)
    requires
        bare(prefix),
    ensures
        clean(prefix.push('/')) == prefix,
{
    let slash = text::Class::Only('/');
    let back = prefix.push('/');
    assert(back[0] == prefix[0] && back.last() == '/');
    assert(!text::white('/'));
    lemma_nothing_to_trim(back);
    lemma_clean_bare(prefix);
    assert(text::trimmed_start(back, slash) == back);
    assert(back.drop_last() =~= prefix);
    assert(text::trimmed_end(back, slash) == text::trimmed_end(prefix, slash));
}

/// In the name of a file, letters, digits, dots, dashes and underscores stay, and
/// everything else becomes an underscore, one for one.
pub proof fn lemma_sanitized_in_place(name: Seq<char>, i: int)
    requires
        0 <= i < text::trimmed(name).len(),
    ensures
        ({
            let c = text::trimmed(name)[i];
            let kept = ('a' <= c <= 'z') || ('A' <= c <= 'Z') || ('0' <= c <= '9') || c == '-' || c
                == '_' || c == '.';
            rclone::sanitized(name)[i] == (if kept {
                c
            } else {
                '_'
            })
        }),
        rclone::sanitized(name).len() == text::trimmed(name).len(),
{
}

// ---------------------------------------------------------------------------
// What rclone says
// ---------------------------------------------------------------------------

/// The line names an error.
pub open spec fn names_error(l: Seq<char>) -> bool {
    split::has(l, "ERROR"@) || split::has(l, "Failed"@) || split::has(l, "error"@)
}

proof fn lemma_last_naming(lines: Seq<Seq<char>>)
    ensures
        match rclone::last_telling(lines) {
            Some(l) => exists|i: int|
                0 <= i < lines.len() && lines[i] == l && names_error(lines[i]) && (forall|j: int|
                    i < j < lines.len() ==> !names_error(#[trigger] lines[j])),
            None => forall|j: int| 0 <= j < lines.len() ==> !names_error(#[trigger] lines[j]),
        },
    decreases lines.len(),
{
    if lines.len() > 0 {
        let before = lines.drop_last();
        lemma_last_naming(before);
        if names_error(lines.last()) {
            assert(lines[lines.len() - 1] == lines.last());
        } else {
            match rclone::last_telling(before) {
                Some(l) => {
                    let i = choose|i: int|
                        0 <= i < before.len() && before[i] == l && names_error(before[i]) && (
                        forall|j: int|
                            i < j < before.len() ==> !names_error(#[trigger] before[j]));
                    assert(lines[i] == l);
                    assert forall|j: int| i < j < lines.len() implies !names_error(
                        #[trigger] lines[j],
                    ) by {
                        if j < before.len() {
                            assert(before[j] == lines[j]);
                        }
                    }
                },
                None => {
                    assert forall|j: int| 0 <= j < lines.len() implies !names_error(
                        #[trigger] lines[j],
                    ) by {
                        if j < before.len() {
                            assert(before[j] == lines[j]);
                        }
                    }
                },
            }
        }
    }
}

/// The line that is told is the last that names an error; where none does, the
/// last; where there is none, a word that nothing is known.
pub proof fn lemma_most_telling_line(stderr: Seq<char>)
    ensures
        ({
            let lines = rclone::spoken_lines(stderr);
            let line = rclone::most_useful(stderr);
            &&& lines.len() == 0 ==> line == "unknown error"@
            &&& lines.len() > 0 ==> lines.contains(line)
            &&& (forall|j: int| 0 <= j < lines.len() ==> !names_error(#[trigger] lines[j]))
                && lines.len() > 0 ==> line == lines.last()
            &&& forall|i: int|
                0 <= i < lines.len() && names_error(#[trigger] lines[i]) && (forall|j: int|
                    i < j < lines.len() ==> !names_error(#[trigger] lines[j])) ==> line == lines[i]
        }),
{
    let lines = rclone::spoken_lines(stderr);
    lemma_last_naming(lines);
    if lines.len() > 0 {
        assert(lines[lines.len() - 1] == lines.last());
    }
    if let Some(l) = rclone::last_telling(lines) {
        let k = choose|k: int|
            0 <= k < lines.len() && lines[k] == l && names_error(lines[k]) && (forall|j: int|
                k < j < lines.len() ==> !names_error(#[trigger] lines[j]));
        assert forall|i: int|
            0 <= i < lines.len() && names_error(#[trigger] lines[i]) && (forall|j: int|
                i < j < lines.len() ==> !names_error(#[trigger] lines[j])) implies l == lines[i] by {
            if i < k {
                assert(!names_error(lines[k]));
            } else if k < i {
                assert(!names_error(lines[i]));
            }
        }
    }
}

/// A message of at most 200 bytes is told as it is. Of a longer one a beginning
/// is told, as much of it as fits into 200 bytes, and an ellipsis.
pub proof fn lemma_long_messages_cut(s: Seq<char>)
    ensures
        encode_utf8(s).len() <= 200 ==> rclone::clipped(s) == s,
        encode_utf8(s).len() > 200 ==> {
            let t = rclone::clipped(s);
            let head = t.drop_last();
            &&& t.len() > 0 && t.last() == '…'
            &&& head.is_prefix_of(s)
            &&& encode_utf8(head).len() <= 200
            &&& head.len() < s.len() && encode_utf8(s.take(head.len() as int + 1)).len() > 200
        },
{
    let bytes = encode_utf8(s);
    if bytes.len() > 200 {
        encode_utf8_valid_utf8(s);
        encode_utf8_decode_utf8(s);
        rclone::lemma_last_boundary(bytes, 200);
        let n = rclone::last_boundary(bytes, 200);
        decode_utf8_split(bytes, n);
        valid_utf8_split(bytes, n);
        let head = decode_utf8(bytes.subrange(0, n));
        decode_utf8_encode_utf8(bytes.subrange(0, n));
        assert(rclone::clipped(s).drop_last() =~= head);
        assert(head =~= s.subrange(0, head.len() as int));
        let k = head.len() as int;
        if k >= s.len() {
            assert(head =~= s);
        }
        lemma_boundary_behind(s, k + 1);
        lemma_boundary_behind(s, k);
        assert(s.take(k) =~= head);
        lemma_one_more_byte(s, k);
        if encode_utf8(s.take(k + 1)).len() <= 200 {
            lemma_no_later_boundary(bytes, 200, encode_utf8(s.take(k + 1)).len() as int);
        }
    }
}

proof fn lemma_boundary_behind(s: Seq<char>, j: int)
    requires
        0 <= j <= s.len(),
    ensures
        is_char_boundary(encode_utf8(s), encode_utf8(s.take(j)).len() as int),
        encode_utf8(s.take(j)).len() <= encode_utf8(s).len(),
    decreases s.len(),
{
    let bytes = encode_utf8(s);
    encode_utf8_valid_utf8(s);
    if j == 0 {
        assert(s.take(0) =~= Seq::<char>::empty());
        is_char_boundary_start_end_of_seq(bytes);
    } else {
        let rest = s.drop_first();
        encode_utf8_first_scalar(s);
        lemma_boundary_behind(rest, j - 1);
        assert(s.take(j)[0] == s[0]);
        assert(s.take(j).drop_first() =~= rest.take(j - 1));
        assert(pop_first_scalar(bytes) =~= encode_utf8(rest));
    }
}

proof fn lemma_one_more_byte(s: Seq<char>, j: int)
    requires
        0 <= j < s.len(),
    ensures
        encode_utf8(s.take(j)).len() < encode_utf8(s.take(j + 1)).len(),
    decreases j,
{
    let t = s.take(j + 1);
    encode_utf8_first_scalar(t);
    if j == 0 {
        assert(s.take(0) =~= Seq::<char>::empty());
    } else {
        lemma_one_more_byte(s.drop_first(), j - 1);
        assert(s.take(j)[0] == s[0] && t[0] == s[0]);
        assert(s.take(j).drop_first() =~= s.drop_first().take(j - 1));
        assert(t.drop_first() =~= s.drop_first().take(j));
    }
}

proof fn lemma_no_later_boundary(bytes: Seq<u8>, n: int, j: int)
    requires
        is_char_boundary(bytes, j),
        0 <= j <= n,
    ensures
        j <= rclone::last_boundary(bytes, n),
    decreases n,
{
    if n > 0 && !is_char_boundary(bytes, n) {
        lemma_no_later_boundary(bytes, n - 1, j);
    }
}

/// A digit.
pub open spec fn digit(c: char) -> bool {
    '0' <= c <= '9'
}

/// A line of the log begins with a date and a time, as `2024/05/17 10:11:12`, and
/// a blank.
pub proof fn lemma_stamped_lines(line: Seq<char>)
    ensures
        rclone::stamped(line) <==> {
            &&& line.len() >= 20
            &&& digit(line[0]) && digit(line[1]) && digit(line[2]) && digit(line[3])
            &&& line[4] == '/' && digit(line[5]) && digit(line[6])
            &&& line[7] == '/' && digit(line[8]) && digit(line[9])
            &&& line[10] == ' ' && digit(line[11]) && digit(line[12])
            &&& line[13] == ':' && digit(line[14]) && digit(line[15])
            &&& line[16] == ':' && digit(line[17]) && digit(line[18])
            &&& line[19] == ' '
        },
{
    reveal_strlit("0000/00/00 00:00:00 ");
    let p = rclone::STAMP@;
    assert(p.len() == 20);
    if rclone::stamped(line) {
        assert(rclone::fits(p[0], line[0]) && rclone::fits(p[1], line[1]));
        assert(rclone::fits(p[2], line[2]) && rclone::fits(p[3], line[3]));
        assert(rclone::fits(p[4], line[4]) && rclone::fits(p[5], line[5]));
        assert(rclone::fits(p[6], line[6]) && rclone::fits(p[7], line[7]));
        assert(rclone::fits(p[8], line[8]) && rclone::fits(p[9], line[9]));
        assert(rclone::fits(p[10], line[10]) && rclone::fits(p[11], line[11]));
        assert(rclone::fits(p[12], line[12]) && rclone::fits(p[13], line[13]));
        assert(rclone::fits(p[14], line[14]) && rclone::fits(p[15], line[15]));
        assert(rclone::fits(p[16], line[16]) && rclone::fits(p[17], line[17]));
        assert(rclone::fits(p[18], line[18]) && rclone::fits(p[19], line[19]));
    }
}

/// Of an error in one line the user is told that line, without the stamp of the
/// log where it has one.
pub proof fn lemma_one_line_told(line: Seq<char>)
    requires
        line.len() > 0,
        !text::white(line[0]),
        !text::white(line.last()),
        !line.contains('\n'),
    ensures
        rclone::most_useful(line) == line,
        !rclone::stamped(line) && encode_utf8(line).len() <= 200 ==> rclone::summary(line) == line,
        encode_utf8(rclone::without_stamp(line)).len() <= 200 ==> rclone::summary(line)
            == rclone::without_stamp(line),
{
    crate::laws::text::lemma_line_by_line(line, Seq::empty());
    lemma_nothing_to_trim(line);
    let trim = |l: Seq<char>| text::trimmed(l);
    assert(split::lines_of(line).map_values(trim) =~= seq![line]);
    assert(seq![line].drop_last() =~= Seq::<Seq<char>>::empty());
    reveal_with_fuel(split::non_empty, 2);
    reveal_with_fuel(rclone::last_telling, 2);
    assert(rclone::spoken_lines(line) =~= seq![line]);
}

/// What rclone does not count it counts as nothing.
pub proof fn lemma_counted_in_the_cache(answer: Seq<char>, key: Seq<char>)
    ensures
        json::json_inner_unsigned(answer, "diskCache"@, key) matches Some(n) ==> rclone::cache_count(
            answer,
            key,
        ) == n,
        json::json_inner_unsigned(answer, "diskCache"@, key) is None ==> rclone::cache_count(
            answer,
            key,
        ) == 0,
{
}

// ---------------------------------------------------------------------------
// The binary
// ---------------------------------------------------------------------------

/// rclone is looked for where the settings say before anywhere else, then beside
/// the application, then at the usual places, then in each directory of the
/// search path in its order.
pub proof fn lemma_places_in_order(
    configured: Option<Seq<char>>,
    exe_dir: Option<Seq<char>>,
    search: Option<Seq<char>>,
    home: Seq<char>,
)
    ensures
        ({
            let all = rclone::places(configured, exe_dir, search, home);
            let a = if configured matches Some(c) && text::trimmed(c).len() > 0 {
                1int
            } else {
                0int
            };
            let b = if exe_dir is Some {
                a + 2
            } else {
                a
            };
            &&& a == 1 ==> all[0] == config::expanded(configured->Some_0, home)
            &&& exe_dir matches Some(d) ==> all[a] == path::joined_path(d, "rclone"@) && all[a + 1]
                == path::joined_path(d, "../Resources/rclone"@)
            &&& all[b] == "/opt/homebrew/bin/rclone"@
            &&& all[b + 1] == "/usr/local/bin/rclone"@
            &&& all[b + 2] == path::joined_path(home, ".local/bin/rclone"@)
            &&& match search {
                Some(list) => {
                    let dirs = split::pieces(list, text::Class::Only(':'));
                    &&& all.len() == b + 3 + dirs.len()
                    &&& forall|i: int|
                        0 <= i < dirs.len() ==> all[b + 3 + i] == path::joined_path(
                            #[trigger] dirs[i],
                            "rclone"@,
                        )
                },
                None => all.len() == b + 3,
            }
        }),
{
}

} // verus!
