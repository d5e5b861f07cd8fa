//! Everything about invoking rclone: the places where the binary may be, the
//! remote definition and arguments that a `MountConfig` makes, and what
//! rclone's output means.

use crate::config;
use crate::config::{CredMode, MountConfig};
use crate::json;
use crate::json::push_pair;
use crate::number;
use crate::number::decimal_string;
use crate::path;
use crate::path::join_path;
use crate::split;
use crate::split::{contains, lines, strip_prefix};
use crate::sso;
use crate::sso::is_session_error;
use crate::text;
use crate::text::{
    chars_of, is_blank, push_all, push_text, string_of, trim, trim_start_of, Class,
};
use vstd::prelude::*;
use vstd::utf8::*;

verus! {

// ---------------------------------------------------------------------------
// The binary
// ---------------------------------------------------------------------------

/// Where rclone may be, in the order in which the places are tried.
pub open spec fn places(
    configured: Option<Seq<char>>,
    exe_dir: Option<Seq<char>>,
    search: Option<Seq<char>>,
    home: Seq<char>,
) -> Seq<Seq<char>> {
    let own = match configured {
        Some(c) if !config::blank(c) => seq![config::expanded(c, home)],
        _ => Seq::empty(),
    };
    let bundled = match exe_dir {
        Some(dir) => seq![
            path::joined_path(dir, "rclone"@),
            path::joined_path(dir, "../Resources/rclone"@),
        ],
        None => Seq::empty(),
    };
    let installed = seq![
        "/opt/homebrew/bin/rclone"@,
        "/usr/local/bin/rclone"@,
        path::joined_path(home, ".local/bin/rclone"@),
    ];
    let searched = match search {
        Some(list) => in_each(split::pieces(list, Class::Only(':'))),
        None => Seq::empty(),
    };
    own + bundled + installed + searched
}

/// The name `rclone` in each of the directories.
pub open spec fn in_each(dirs: Seq<Seq<char>>) -> Seq<Seq<char>> {
    Seq::new(dirs.len(), |i: int| path::joined_path(dirs[i], "rclone"@))
}

/// Where rclone may be: the explicit config path, the copy bundled next to
/// our own executable (Contents/MacOS/rclone), then common install locations
/// and the directories of the search path. `exe_dir` is the directory of the
/// running executable, `search` the value of `PATH`.
pub fn candidates(
    configured: Option<&str>,
    exe_dir: Option<&str>,
    search: Option<&str>,
) -> (r: Vec<String>)
    ensures
        exists|home: Seq<char>|
            home.len() > 0 && text::views(r@) == #[trigger] places(
                text::opt_str(configured),
                text::opt_str(exe_dir),
                text::opt_str(search),
                home,
            ),
{
    candidates_in(configured, exe_dir, search, config::home_dir().as_str())
}

pub fn candidates_in(
    configured: Option<&str>,
    exe_dir: Option<&str>,
    search: Option<&str>,
    home: &str,
) -> (r: Vec<String>)
    ensures
        text::views(r@) == places(
            text::opt_str(configured),
            text::opt_str(exe_dir),
            text::opt_str(search),
            home@,
        ),
{
    let mut r: Vec<String> = Vec::new();
    assert(text::views(r@) =~= Seq::<Seq<char>>::empty());
    match configured {
        Some(c) => if !is_blank(c) {
            push_text(&mut r, config::expand_tilde_in(c, home).as_str());
        },
        None => {},
    }
    match exe_dir {
        Some(dir) => {
            push_text(&mut r, join_path(dir, "rclone").as_str());
            push_text(&mut r, join_path(dir, "../Resources/rclone").as_str());
        },
        None => {},
    }
    push_text(&mut r, "/opt/homebrew/bin/rclone");
    push_text(&mut r, "/usr/local/bin/rclone");
    push_text(&mut r, join_path(home, ".local/bin/rclone").as_str());
    let ghost fixed = text::views(r@);
    match search {
        Some(list) => {
            let dirs = split::split(list, Class::Only(':'));
            let ghost all = in_each(text::views(dirs@));
            let mut i: usize = 0;
            assert(fixed + all.take(0) =~= fixed);
            while i < dirs.len()
                invariant
                    i <= dirs.len(),
                    all == in_each(text::views(dirs@)),
                    text::views(r@) == fixed + all.take(i as int),
                decreases dirs.len() - i,
            {
                push_text(&mut r, join_path(dirs[i].as_str(), "rclone").as_str());
                assert(fixed + all.take(i + 1) =~= (fixed + all.take(i as int)).push(
                    all[i as int],
                ));
                i = i + 1;
            }
            assert(all.take(all.len() as int) =~= all);
        },
        None => {},
    }
    assert(text::views(r@) =~= places(
        text::opt_str(configured),
        text::opt_str(exe_dir),
        text::opt_str(search),
        home@,
    ));
    r
}

/// The first of the places at which there is a file; `is_file` says of each
/// place whether there is one.
pub fn locate(places: &Vec<String>, is_file: &Vec<bool>) -> (r: Option<String>)
    requires
        places.len() == is_file.len(),
    ensures
        match r {
            Some(p) => exists|i: int|
                0 <= i < places.len() && #[trigger] is_file@[i] && places@[i]@ == p@ && (forall|j: int|
                    0 <= j < i ==> !is_file@[j]),
            None => forall|j: int| 0 <= j < is_file.len() ==> !is_file@[j],
        },
{
    let mut i: usize = 0;
    while i < places.len()
        invariant
            i <= places.len(),
            places.len() == is_file.len(),
            forall|j: int| 0 <= j < i ==> !is_file@[j],
        decreases places.len() - i,
    {
        if is_file[i] {
            return Some(places[i].clone());
        }
        i = i + 1;
    }
    None
}

/// The version in what `rclone version` printed: its first line.
pub fn version(stdout: &str) -> (r: Option<String>)
    ensures
        match r {
            Some(v) => split::lines_of(stdout@).len() > 0 && v@ == text::trimmed(
                split::lines_of(stdout@)[0],
            ),
            None => split::lines_of(stdout@).len() == 0,
        },
{
    let all = lines(stdout);
    assert(text::views(all@).len() == all.len());
    if all.len() == 0 {
        None
    } else {
        assert(text::views(all@)[0] == all@[0]@);
        Some(trim(all[0].as_str()))
    }
}

// ---------------------------------------------------------------------------
// The remote
// ---------------------------------------------------------------------------

/// Name of the on-the-fly remote we define through environment variables.
const ENV_REMOTE: &'static str = "bucket";

/// The pieces needed to talk to one bucket.
#[derive(Debug)]
pub struct Invocation {
    pub rclone: String,
    /// `remote:bucket/prefix`
    pub remote: String,
    pub env: Vec<(String, String)>,
}

/// What an `Invocation` says, as values.
#[verifier::ext_equal]
pub struct InvocationModel {
    pub rclone: Seq<char>,
    pub remote: Seq<char>,
    pub env: Seq<(Seq<char>, Seq<char>)>,
}

impl View for Invocation {
    type V = InvocationModel;

    open spec fn view(&self) -> InvocationModel {
        InvocationModel {
            rclone: self.rclone@,
            remote: self.remote@,
            env: json::pairs(self.env@),
        }
    }
}

fn copy_pairs(v: &Vec<(String, String)>) -> (r: Vec<(String, String)>)
    ensures
        json::pairs(r@) == json::pairs(v@),
{
    let mut r: Vec<(String, String)> = Vec::new();
    let mut i: usize = 0;
    assert(json::pairs(r@) =~= json::pairs(v@).take(0));
    while i < v.len()
        invariant
            i <= v.len(),
            json::pairs(r@) == json::pairs(v@).take(i as int),
        decreases v.len() - i,
    {
        push_pair(&mut r, v[i].0.as_str(), v[i].1.as_str());
        assert(json::pairs(v@).take(i + 1) =~= json::pairs(v@).take(i as int).push(
            json::pairs(v@)[i as int],
        ));
        i = i + 1;
    }
    assert(json::pairs(v@).take(v@.len() as int) =~= json::pairs(v@));
    r
}

impl Clone for Invocation {
    fn clone(&self) -> (r: Self)
        ensures
            r@ == self@,
    {
        Invocation {
            rclone: self.rclone.clone(),
            remote: self.remote.clone(),
            env: copy_pairs(&self.env),
        }
    }
}

impl Invocation {
    /// The variables that a command gets in its environment, in the order in
    /// which they are set: the remote's own, then a search path that takes in
    /// the system directories (launchd starts us with a minimal PATH;
    /// mount_nfs lives in /sbin). `search` is our own `PATH`.
    pub fn command(&self, search: Option<&str>) -> (r: Vec<(String, String)>)
        ensures
            json::pairs(r@) == self@.env.push(
                (
                    "PATH"@,
                    (match search {
                        Some(p) => p@,
                        None => Seq::empty(),
                    }) + ":/sbin:/usr/sbin:/usr/bin:/bin"@,
                ),
            ),
    {
        let mut r = copy_pairs(&self.env);
        let own = match search {
            Some(p) => p.to_owned(),
            None => String::new(),
        };
        push_pair(&mut r, "PATH", own.concat(":/sbin:/usr/sbin:/usr/bin:/bin").as_str());
        r
    }
}

/// The setting under `key`, if `value` is not blank.
pub open spec fn given(key: Seq<char>, value: Seq<char>) -> Seq<(Seq<char>, Seq<char>)> {
    if config::blank(value) {
        Seq::empty()
    } else {
        seq![(key, text::trimmed(value))]
    }
}

/// The environment that defines the on-the-fly remote. Without inline keys the
/// SDK finds the credentials, in the profile that the settings name, if any.
pub open spec fn remote_env(m: config::MountModel) -> Seq<(Seq<char>, Seq<char>)> {
    let place = seq![("RCLONE_CONFIG_BUCKET_TYPE"@, "s3"@)] + given(
        "RCLONE_CONFIG_BUCKET_PROVIDER"@,
        m.provider,
    ) + given("RCLONE_CONFIG_BUCKET_REGION"@, m.region) + given(
        "RCLONE_CONFIG_BUCKET_ENDPOINT"@,
        m.endpoint,
    );
    if m.credentials() == CredMode::Keys {
        place.push(("RCLONE_CONFIG_BUCKET_ACCESS_KEY_ID"@, text::trimmed(m.access_key_id))).push(
            ("RCLONE_CONFIG_BUCKET_SECRET_ACCESS_KEY"@, text::trimmed(m.secret_access_key)),
        )
    } else {
        place.push(("RCLONE_CONFIG_BUCKET_ENV_AUTH"@, "true"@)) + given(
            "RCLONE_CONFIG_BUCKET_PROFILE"@,
            m.aws_profile,
        )
    }
}

/// How rclone is told of the bucket of `m`. Of a remote of the user's own the
/// settings can override the profile: rclone prefers what its environment says
/// of the S3 backend to what its config file says of the remote.
pub open spec fn invocation_of(rclone: Seq<char>, m: config::MountModel) -> InvocationModel {
    if m.credentials() == CredMode::RcloneRemote {
        InvocationModel {
            rclone,
            remote: text::trimmed(m.rclone_remote) + ":"@ + m.bucket_and_prefix(),
            env: given("RCLONE_S3_PROFILE"@, m.aws_profile),
        }
    } else {
        InvocationModel {
            rclone,
            remote: "bucket"@ + ":"@ + m.bucket_and_prefix(),
            env: remote_env(m),
        }
    }
}

fn push_given(env: &mut Vec<(String, String)>, key: &str, value: &str)
    ensures
        json::pairs(final(env)@) == json::pairs(old(env)@) + given(key@, value@),
{
    if !is_blank(value) {
        push_pair(env, key, trim(value).as_str());
    }
    assert(json::pairs(env@) =~= json::pairs(old(env)@) + given(key@, value@));
}

pub fn invocation(rclone: &str, m: &MountConfig) -> (r: Invocation)
    ensures
        r@ == invocation_of(rclone@, m@),
{
    let mut env: Vec<(String, String)> = Vec::new();
    assert(json::pairs(env@) =~= Seq::<(Seq<char>, Seq<char>)>::empty());
    let mode = m.cred_mode();
    let remote_name = if mode == CredMode::RcloneRemote {
        push_given(&mut env, "RCLONE_S3_PROFILE", m.aws_profile.as_str());
        trim(m.rclone_remote.as_str())
    } else {
        push_pair(&mut env, "RCLONE_CONFIG_BUCKET_TYPE", "s3");
        push_given(&mut env, "RCLONE_CONFIG_BUCKET_PROVIDER", m.provider.as_str());
        push_given(&mut env, "RCLONE_CONFIG_BUCKET_REGION", m.region.as_str());
        push_given(&mut env, "RCLONE_CONFIG_BUCKET_ENDPOINT", m.endpoint.as_str());
        if mode == CredMode::Keys {
            push_pair(
                &mut env,
                "RCLONE_CONFIG_BUCKET_ACCESS_KEY_ID",
                trim(m.access_key_id.as_str()).as_str(),
            );
            push_pair(
                &mut env,
                "RCLONE_CONFIG_BUCKET_SECRET_ACCESS_KEY",
                trim(m.secret_access_key.as_str()).as_str(),
            );
        } else {
            push_pair(&mut env, "RCLONE_CONFIG_BUCKET_ENV_AUTH", "true");
            push_given(&mut env, "RCLONE_CONFIG_BUCKET_PROFILE", m.aws_profile.as_str());
        }
        ENV_REMOTE.to_owned()
    };
    Invocation {
        rclone: rclone.to_owned(),
        remote: remote_name.concat(":").concat(m.bucket_path().as_str()),
        env,
    }
}

// ---------------------------------------------------------------------------
// Names of files
// ---------------------------------------------------------------------------

/// `c` can stand in the name of a file as it is.
pub open spec fn plain(c: char) -> bool {
    'a' <= c <= 'z' || 'A' <= c <= 'Z' || '0' <= c <= '9' || c == '-' || c == '_' || c == '.'
}

/// `name` with everything that is not plain replaced.
pub open spec fn sanitized(name: Seq<char>) -> Seq<char> {
    text::trimmed(name).map_values(
        |c: char|
            if plain(c) {
                c
            } else {
                '_'
            },
    )
}

pub fn sanitize(name: &str) -> (r: String)
    ensures
        r@ == sanitized(name@),
{
    let v = chars_of(trim(name).as_str());
    let mut r = String::new();
    let mut i: usize = 0;
    assert(r@ =~= sanitized(name@).take(0));
    while i < v.len()
        invariant
            i <= v.len(),
            v@ == text::trimmed(name@),
            r@ == sanitized(name@).take(i as int),
        decreases v.len() - i,
    {
        let c: char = v[i];
        if ('a' <= c && c <= 'z') || ('A' <= c && c <= 'Z') || ('0' <= c && c <= '9') || c == '-'
            || c == '_' || c == '.' {
            r.push(c);
        } else {
            r.push('_');
        }
        assert(r@ =~= sanitized(name@).take(i + 1));
        i = i + 1;
    }
    assert(r@ =~= sanitized(name@));
    r
}

/// A name of plain characters is left as it is.
proof fn lemma_plain_kept(s: Seq<char>)
    requires
        forall|i: int| 0 <= i < s.len() ==> plain(#[trigger] s[i]),
    ensures
        sanitized(s) == s,
{
    if s.len() > 0 {
        assert(!text::white(s[0]) && !text::white(s[s.len() - 1]));
    }
    text::lemma_trimmed_of(s, Class::Space);
    assert(sanitized(s) =~= s);
}

/// What `sanitize` gives is made of plain characters only, and is left as it
/// is by a second `sanitize`.
pub proof fn lemma_sanitized(name: Seq<char>)
    ensures
        sanitized(name).len() == text::trimmed(name).len(),
        forall|i: int| 0 <= i < sanitized(name).len() ==> plain(#[trigger] sanitized(name)[i]),
        sanitized(sanitized(name)) == sanitized(name),
{
    lemma_plain_kept(sanitized(name));
}

// ---------------------------------------------------------------------------
// Arguments
// ---------------------------------------------------------------------------

/// The cache directory of one mount.
pub open spec fn mount_cache(name: Seq<char>, home: Seq<char>) -> Seq<char> {
    path::joined_path(config::library_path(home, "Caches"@), sanitized(name))
}

pub open spec fn at_least_one(n: u64) -> nat {
    if n == 0 {
        1
    } else {
        n as nat
    }
}

/// The arguments of `rclone nfsmount`.
pub open spec fn mount_arguments(
    m: config::MountModel,
    remote: Seq<char>,
    mount_point: Seq<char>,
    rc_port: u16,
    home: Seq<char>,
) -> Seq<Seq<char>> {
    let cache = mount_cache(m.name, home);
    let fixed = seq![
        "nfsmount"@,
        remote,
        mount_point,
        "--vfs-cache-mode"@,
        "full"@,
        "--vfs-write-back"@,
        number::decimal(m.write_back_secs as nat) + "s"@,
        "--vfs-cache-max-size"@,
        text::trimmed(m.cache_max_size),
        "--dir-cache-time"@,
        number::decimal(at_least_one(m.dir_cache_secs)) + "s"@,
        "--cache-dir"@,
        path::joined_path(cache, "vfs"@),
        "--nfs-cache-type"@,
        "disk"@,
        "--nfs-cache-dir"@,
        path::joined_path(cache, "nfs-handles"@),
        "--volname"@,
        text::trimmed(m.name),
        "-o"@,
        "locallocks"@,
        "--rc"@,
        "--rc-addr"@,
        "127.0.0.1:"@ + number::decimal(rc_port as nat),
        "--rc-no-auth"@,
        "--log-level"@,
        "INFO"@,
        "--use-json-log=false"@,
    ];
    (if m.read_only {
        fixed.push("--read-only"@)
    } else {
        fixed
    }) + m.extra_args
}

/// Arguments for `rclone nfsmount`.
pub fn mount_args(m: &MountConfig, inv: &Invocation, mount_point: &str, rc_port: u16) -> (r: Vec<
    String,
>)
    ensures
        exists|home: Seq<char>|
            home.len() > 0 && text::views(r@) == #[trigger] mount_arguments(
                m@,
                inv@.remote,
                mount_point@,
                rc_port,
                home,
            ),
{
    mount_args_in(m, inv, mount_point, rc_port, config::home_dir().as_str())
}

pub fn mount_args_in(
    m: &MountConfig,
    inv: &Invocation,
    mount_point: &str,
    rc_port: u16,
    home: &str,
) -> (r: Vec<String>)
    ensures
        text::views(r@) == mount_arguments(m@, inv@.remote, mount_point@, rc_port, home@),
{
    let cache = join_path(config::cache_dir_in(home).as_str(), sanitize(m.name.as_str()).as_str());
    let mut args: Vec<String> = Vec::new();
    assert(text::views(args@) =~= Seq::<Seq<char>>::empty());
    push_text(&mut args, "nfsmount");
    push_text(&mut args, inv.remote.as_str());
    push_text(&mut args, mount_point);
    push_text(&mut args, "--vfs-cache-mode");
    push_text(&mut args, "full");
    push_text(&mut args, "--vfs-write-back");
    push_text(&mut args, decimal_string(m.write_back_secs).concat("s").as_str());
    push_text(&mut args, "--vfs-cache-max-size");
    push_text(&mut args, trim(m.cache_max_size.as_str()).as_str());
    push_text(&mut args, "--dir-cache-time");
    let dir_cache: u64 = if m.dir_cache_secs == 0 {
        1
    } else {
        m.dir_cache_secs
    };
    push_text(&mut args, decimal_string(dir_cache).concat("s").as_str());
    push_text(&mut args, "--cache-dir");
    push_text(&mut args, join_path(cache.as_str(), "vfs").as_str());
    push_text(&mut args, "--nfs-cache-type");
    push_text(&mut args, "disk");
    push_text(&mut args, "--nfs-cache-dir");
    push_text(&mut args, join_path(cache.as_str(), "nfs-handles").as_str());
    push_text(&mut args, "--volname");
    push_text(&mut args, trim(m.name.as_str()).as_str());
    // Local file locking so apps that flock() (editors, cargo, sqlite) work
    // on the volume.
    push_text(&mut args, "-o");
    push_text(&mut args, "locallocks");
    push_text(&mut args, "--rc");
    push_text(&mut args, "--rc-addr");
    push_text(&mut args, "127.0.0.1:".to_owned().concat(decimal_string(rc_port as u64).as_str()).as_str());
    push_text(&mut args, "--rc-no-auth");
    push_text(&mut args, "--log-level");
    push_text(&mut args, "INFO");
    push_text(&mut args, "--use-json-log=false");
    if m.read_only {
        push_text(&mut args, "--read-only");
    }
    push_all(&mut args, &m.extra_args);
    args
}

/// The arguments of `rclone bisync` between a folder and a remote.
pub open spec fn bisync_arguments(
    m: config::MountModel,
    remote: Seq<char>,
    folder: Seq<char>,
    workdir: Seq<char>,
    resync: bool,
) -> Seq<Seq<char>> {
    let fixed = seq![
        "bisync"@,
        folder,
        remote,
        "--workdir"@,
        workdir,
        "--recover"@,
        "--exclude"@,
        ".DS_Store"@,
        "--exclude"@,
        "._*"@,
        "--exclude"@,
        ".*.swp"@,
        "--exclude"@,
        ".*.swx"@,
        "--log-level"@,
        "INFO"@,
        "--use-json-log=false"@,
    ];
    (if resync {
        fixed.push("--resync"@).push("--resync-mode"@).push("newer"@)
    } else {
        fixed
    }) + m.extra_args
}

/// Arguments for `rclone bisync`. Its state is kept in `workdir`, an
/// interrupted run is picked up by the next one, and Finder metadata and
/// editor swap files are left out. A resync merges both sides and keeps the
/// newer copy of any file that exists on both.
pub fn bisync_args(
    m: &MountConfig,
    inv: &Invocation,
    folder: &str,
    workdir: &str,
    resync: bool,
) -> (r: Vec<String>)
    ensures
        text::views(r@) == bisync_arguments(m@, inv@.remote, folder@, workdir@, resync),
{
    let mut args: Vec<String> = Vec::new();
    assert(text::views(args@) =~= Seq::<Seq<char>>::empty());
    push_text(&mut args, "bisync");
    push_text(&mut args, folder);
    push_text(&mut args, inv.remote.as_str());
    push_text(&mut args, "--workdir");
    push_text(&mut args, workdir);
    push_text(&mut args, "--recover");
    push_text(&mut args, "--exclude");
    push_text(&mut args, ".DS_Store");
    push_text(&mut args, "--exclude");
    push_text(&mut args, "._*");
    push_text(&mut args, "--exclude");
    push_text(&mut args, ".*.swp");
    push_text(&mut args, "--exclude");
    push_text(&mut args, ".*.swx");
    push_text(&mut args, "--log-level");
    push_text(&mut args, "INFO");
    push_text(&mut args, "--use-json-log=false");
    if resync {
        push_text(&mut args, "--resync");
        push_text(&mut args, "--resync-mode");
        push_text(&mut args, "newer");
    }
    push_all(&mut args, &m.extra_args);
    args
}

/// The arguments of one cheap listing request against a remote.
pub open spec fn connectivity_arguments(remote: Seq<char>) -> Seq<Seq<char>> {
    seq![
        "lsjson"@,
        "--max-depth"@,
        "1"@,
        "--contimeout"@,
        "10s"@,
        "--timeout"@,
        "20s"@,
        "--retries"@,
        "1"@,
        "--low-level-retries"@,
        "2"@,
        remote,
    ]
}

pub fn connectivity_args(inv: &Invocation) -> (r: Vec<String>)
    ensures
        text::views(r@) == connectivity_arguments(inv@.remote),
{
    let mut args: Vec<String> = Vec::new();
    assert(text::views(args@) =~= Seq::<Seq<char>>::empty());
    push_text(&mut args, "lsjson");
    push_text(&mut args, "--max-depth");
    push_text(&mut args, "1");
    push_text(&mut args, "--contimeout");
    push_text(&mut args, "10s");
    push_text(&mut args, "--timeout");
    push_text(&mut args, "20s");
    push_text(&mut args, "--retries");
    push_text(&mut args, "1");
    push_text(&mut args, "--low-level-retries");
    push_text(&mut args, "2");
    push_text(&mut args, inv.remote.as_str());
    args
}

/// The arguments of the question for the upload queue.
pub open spec fn stats_arguments(port: u16) -> Seq<Seq<char>> {
    seq!["rc"@, "--rc-addr"@, "127.0.0.1:"@ + number::decimal(port as nat), "vfs/stats"@]
}

/// Arguments of the question for cache and upload state that a running
/// mount's remote-control API answers.
pub fn stats_args(port: u16) -> (r: Vec<String>)
    ensures
        text::views(r@) == stats_arguments(port),
        text::views(r@) == seq![
            "rc"@,
            "--rc-addr"@,
            "127.0.0.1:"@ + number::decimal(port as nat),
            "vfs/stats"@,
        ],
{
    let mut args: Vec<String> = Vec::new();
    assert(text::views(args@) =~= Seq::<Seq<char>>::empty());
    push_text(&mut args, "rc");
    push_text(&mut args, "--rc-addr");
    push_text(&mut args, "127.0.0.1:".to_owned().concat(decimal_string(port as u64).as_str()).as_str());
    push_text(&mut args, "vfs/stats");
    args
}

/// Keys are handed to rclone in its environment only: what its arguments are
/// does not depend on them. Nor does a synced folder depend on the read-only
/// setting, which it does not support.
pub proof fn lemma_arguments_hold_no_keys(
    m: config::MountModel,
    remote: Seq<char>,
    place: Seq<char>,
    rc_port: u16,
    home: Seq<char>,
    workdir: Seq<char>,
    resync: bool,
    access_key_id: Seq<char>,
    secret_access_key: Seq<char>,
    read_only: bool,
)
    ensures
        ({
            let other = config::MountModel { access_key_id, secret_access_key, ..m };
            &&& mount_arguments(other, remote, place, rc_port, home) == mount_arguments(
                m,
                remote,
                place,
                rc_port,
                home,
            )
            &&& bisync_arguments(
                config::MountModel { read_only, ..other },
                remote,
                place,
                workdir,
                resync,
            ) == bisync_arguments(m, remote, place, workdir, resync)
        }),
{
}

/// Exactly one style of credentials is used: with a remote of the user's own no
/// key, place or style is put in the environment; inline keys are put there and
/// no profile; without either nothing of the keys is.
pub proof fn lemma_one_style(
    rclone: Seq<char>,
    m: config::MountModel,
    secret_access_key: Seq<char>,
    aws_profile: Seq<char>,
)
    ensures
        m.credentials() == CredMode::RcloneRemote ==> invocation_of(rclone, m).env == given(
            "RCLONE_S3_PROFILE"@,
            m.aws_profile,
        ),
        m.credentials() == CredMode::Keys ==> invocation_of(
            rclone,
            config::MountModel { aws_profile, ..m },
        ) == invocation_of(rclone, m) && invocation_of(rclone, m).env.contains(
            ("RCLONE_CONFIG_BUCKET_SECRET_ACCESS_KEY"@, text::trimmed(m.secret_access_key)),
        ),
        m.credentials() == CredMode::EnvAuth ==> {
            let env = invocation_of(rclone, m).env;
            &&& invocation_of(rclone, config::MountModel { secret_access_key, ..m })
                == invocation_of(rclone, m)
            &&& env.contains(("RCLONE_CONFIG_BUCKET_ENV_AUTH"@, "true"@))
        },
{
    let env = invocation_of(rclone, m).env;
    if m.credentials() == CredMode::Keys {
        assert(env[env.len() - 1] == (
            "RCLONE_CONFIG_BUCKET_SECRET_ACCESS_KEY"@,
            text::trimmed(m.secret_access_key),
        ));
    } else if m.credentials() == CredMode::EnvAuth {
        if config::blank(m.aws_profile) {
            assert(env[env.len() - 1] == ("RCLONE_CONFIG_BUCKET_ENV_AUTH"@, "true"@));
        } else {
            assert(env[env.len() - 2] == ("RCLONE_CONFIG_BUCKET_ENV_AUTH"@, "true"@));
        }
    }
}

/// A profile that the settings name is handed to rclone wherever it counts as
/// the one that rclone uses, and so as the one that the user signs in to.
pub proof fn lemma_profile_is_handed_over(
    rclone: Seq<char>,
    m: config::MountModel,
    dump: Option<Seq<u8>>,
    asked: Option<Seq<char>>,
)
    requires
        !config::blank(m.aws_profile),
    ensures
        sso::used_profile(m, dump, asked) == (if m.credentials() == CredMode::Keys {
            None
        } else {
            Some(text::trimmed(m.aws_profile))
        }),
        m.credentials() == CredMode::EnvAuth ==> invocation_of(rclone, m).env.contains(
            ("RCLONE_CONFIG_BUCKET_PROFILE"@, text::trimmed(m.aws_profile)),
        ),
        m.credentials() == CredMode::RcloneRemote ==> invocation_of(rclone, m).env.contains(
            ("RCLONE_S3_PROFILE"@, text::trimmed(m.aws_profile)),
        ),
{
    let env = invocation_of(rclone, m).env;
    if m.credentials() == CredMode::EnvAuth {
        assert(env[env.len() - 1] == (
            "RCLONE_CONFIG_BUCKET_PROFILE"@,
            text::trimmed(m.aws_profile),
        ));
    } else if m.credentials() == CredMode::RcloneRemote {
        assert(env[0] == ("RCLONE_S3_PROFILE"@, text::trimmed(m.aws_profile)));
    }
}

// ---------------------------------------------------------------------------
// Running to completion
// ---------------------------------------------------------------------------

/// A command that has run to its end.
#[derive(Debug)]
pub struct Finished {
    pub success: bool,
    pub stdout: String,
    pub stderr: String,
}

/// What a look at a running command showed.
#[derive(Debug)]
pub enum Polled {
    /// It has ended, with success or without.
    Exited(bool),
    Running,
    /// The look failed, with this message.
    Failed(String),
}

/// What to do about a running command.
#[derive(Debug)]
pub enum Wait {
    /// It has ended: collect its output.
    Finish(bool),
    /// Its time is up: kill it, then collect its output.
    Kill,
    /// Look again after this many milliseconds.
    Again(u64),
    /// Give up with this message.
    Fail(String),
}

/// The next step in waiting for a command that has been running for
/// `elapsed` nanoseconds and may run for `timeout_secs` seconds.
pub fn wait_step(polled: Polled, elapsed: u64, timeout_secs: u64) -> (r: Wait)
    ensures
        match polled {
            Polled::Exited(success) => r == Wait::Finish(success),
            Polled::Running => r == (if elapsed > timeout_secs * 1_000_000_000 {
                Wait::Kill
            } else {
                Wait::Again(100)
            }),
            Polled::Failed(e) => r matches Wait::Fail(m) && m@ == "wait: "@ + e@,
        },
{
    match polled {
        Polled::Exited(success) => Wait::Finish(success),
        Polled::Running => if elapsed as u128 > timeout_secs as u128 * 1_000_000_000 {
            Wait::Kill
        } else {
            Wait::Again(100)
        },
        Polled::Failed(e) => Wait::Fail("wait: ".to_owned().concat(e.as_str())),
    }
}

/// The message for a command that could not be started.
pub fn spawn_error(e: &str) -> (r: String)
    ensures
        r@ == "spawn rclone: "@ + e@,
{
    "spawn rclone: ".to_owned().concat(e)
}

/// What has become of a command that ended with `ended`, or was killed when
/// its `timeout_secs` seconds were over.
pub fn run_with_timeout(
    ended: Option<bool>,
    stdout: String,
    stderr: String,
    timeout_secs: u64,
) -> (r: Result<Finished, String>)
    ensures
        match ended {
            Some(success) => r == Ok::<Finished, String>(Finished { success, stdout, stderr }),
            None => r matches Err(e) && e@ == "timed out after "@ + number::decimal(
                timeout_secs as nat,
            ) + "s"@,
        },
{
    match ended {
        Some(success) => Ok(Finished { success, stdout, stderr }),
        None => Err(
            "timed out after ".to_owned().concat(decimal_string(timeout_secs).as_str()).concat("s"),
        ),
    }
}

// ---------------------------------------------------------------------------
// What rclone says
// ---------------------------------------------------------------------------

/// The line tells of an error.
pub open spec fn telling(line: Seq<char>) -> bool {
    split::has(line, "ERROR"@) || split::has(line, "Failed"@) || split::has(line, "error"@)
}

/// The last line that tells of an error.
pub open spec fn last_telling(lines: Seq<Seq<char>>) -> Option<Seq<char>>
    decreases lines.len(),
{
    if lines.len() == 0 {
        None
    } else if telling(lines.last()) {
        Some(lines.last())
    } else {
        last_telling(lines.drop_last())
    }
}

/// The lines of `stderr` that are not blank, without white space around them.
pub open spec fn spoken_lines(stderr: Seq<char>) -> Seq<Seq<char>> {
    split::non_empty(split::lines_of(stderr).map_values(|l: Seq<char>| text::trimmed(l)))
}

/// The line of `stderr` that says most: the last that tells of an error, or
/// else the last.
pub open spec fn most_useful(stderr: Seq<char>) -> Seq<char> {
    let lines = spoken_lines(stderr);
    match last_telling(lines) {
        Some(l) => l,
        None => if lines.len() > 0 {
            lines.last()
        } else {
            "unknown error"@
        },
    }
}

/// How a log line begins, with `0` for any digit.
pub const STAMP: &'static str = "0000/00/00 00:00:00 ";

/// `c` stands where the pattern has `p`.
pub open spec fn fits(p: char, c: char) -> bool {
    if p == '0' {
        '0' <= c <= '9'
    } else {
        c == p
    }
}

/// The line begins with a date and a time.
pub open spec fn stamped(line: Seq<char>) -> bool {
    line.len() >= STAMP@.len() && forall|i: int|
        0 <= i < STAMP@.len() ==> fits(#[trigger] STAMP@[i], line[i])
}

/// The words for the levels of log lines.
pub open spec fn levels() -> Seq<Seq<char>> {
    seq![
        "EMERGENCY"@,
        "ALERT"@,
        "CRITICAL"@,
        "ERROR"@,
        "WARNING"@,
        "NOTICE"@,
        "INFO"@,
        "DEBUG"@,
    ]
}

/// What follows the level, the colon behind it and the spaces around that.
pub open spec fn after_level(s: Seq<char>, level: Seq<char>) -> Option<Seq<char>> {
    match split::without_prefix(s, level) {
        Some(rest) => match split::without_prefix(
            text::trimmed_start(rest, Class::Only(' ')),
            ":"@,
        ) {
            Some(message) => Some(text::trimmed_start(message, Class::Only(' '))),
            None => None,
        },
        None => None,
    }
}

/// `s` without the first of the levels that it begins with.
pub open spec fn without_level(s: Seq<char>, levels: Seq<Seq<char>>) -> Seq<char>
    decreases levels.len(),
{
    if levels.len() == 0 {
        s
    } else {
        match after_level(s, levels[0]) {
            Some(message) => message,
            None => without_level(s, levels.skip(1)),
        }
    }
}

/// A log line without a prefix like `2026/09/23 09:30:27 ERROR : `, or
/// `2026/09/23 09:30:27 ` where no level is given. A line without such a
/// prefix, or with nothing behind it, is left whole.
pub open spec fn without_stamp(line: Seq<char>) -> Seq<char> {
    if stamped(line) {
        let rest = line.subrange(STAMP@.len() as int, line.len() as int);
        let message = without_level(text::trimmed_start(rest, Class::Only(' ')), levels());
        if message.len() == 0 {
            line
        } else {
            message
        }
    } else {
        line
    }
}

/// The last boundary between characters at or before byte `n`.
pub open spec fn last_boundary(bytes: Seq<u8>, n: int) -> int
    decreases n,
{
    if n <= 0 {
        0
    } else if is_char_boundary(bytes, n) {
        n
    } else {
        last_boundary(bytes, n - 1)
    }
}

/// `s`, or what of it fits in 200 bytes with an ellipsis behind it.
pub open spec fn clipped(s: Seq<char>) -> Seq<char> {
    let bytes = encode_utf8(s);
    if bytes.len() <= 200 {
        s
    } else {
        decode_utf8(bytes.subrange(0, last_boundary(bytes, 200))).push('…')
    }
}

/// The most useful single line of rclone's `stderr`.
pub open spec fn summary(stderr: Seq<char>) -> Seq<char> {
    clipped(without_stamp(most_useful(stderr)))
}

fn is_telling(line: &str) -> (r: bool)
    ensures
        r == telling(line@),
{
    contains(line, "ERROR") || contains(line, "Failed") || contains(line, "error")
}

fn spoken(stderr: &str) -> (r: Vec<String>)
    ensures
        text::views(r@) == spoken_lines(stderr@),
{
    let all = lines(stderr);
    let ghost want = split::lines_of(stderr@).map_values(|l: Seq<char>| text::trimmed(l));
    let mut trimmed: Vec<String> = Vec::new();
    let mut i: usize = 0;
    assert(text::views(trimmed@) =~= want.take(0));
    while i < all.len()
        invariant
            i <= all.len(),
            text::views(all@) == split::lines_of(stderr@),
            want == split::lines_of(stderr@).map_values(|l: Seq<char>| text::trimmed(l)),
            text::views(trimmed@) == want.take(i as int),
        decreases all.len() - i,
    {
        assert(text::views(all@)[i as int] == all@[i as int]@);
        push_text(&mut trimmed, trim(all[i].as_str()).as_str());
        assert(want.take(i + 1) =~= want.take(i as int).push(want[i as int]));
        i = i + 1;
    }
    assert(want.take(want.len() as int) =~= want);
    split::drop_empty(&trimmed)
}

fn pick_line(stderr: &str) -> (r: String)
    ensures
        r@ == most_useful(stderr@),
{
    let all = spoken(stderr);
    let ghost want = spoken_lines(stderr@);
    let mut i: usize = all.len();
    assert(want.take(i as int) =~= want);
    while i > 0
        invariant
            i <= all.len(),
            text::views(all@) == want,
            want == spoken_lines(stderr@),
            last_telling(want) == last_telling(want.take(i as int)),
        decreases i,
    {
        assert(want.take(i as int).last() == all@[i - 1]@);
        if is_telling(all[i - 1].as_str()) {
            return all[i - 1].clone();
        }
        assert(want.take(i as int).drop_last() =~= want.take(i - 1));
        i = i - 1;
    }
    assert(want.len() == all.len());
    if all.len() > 0 {
        assert(want.last() == all@[all.len() - 1]@);
        all[all.len() - 1].clone()
    } else {
        "unknown error".to_owned()
    }
}

fn is_stamped(line: &str) -> (r: bool)
    ensures
        r == stamped(line@),
{
    let pattern = chars_of(STAMP);
    let v = chars_of(line);
    if v.len() < pattern.len() {
        return false;
    }
    let mut i: usize = 0;
    while i < pattern.len()
        invariant
            i <= pattern.len() <= v.len(),
            pattern@ == STAMP@,
            v@ == line@,
            forall|j: int| 0 <= j < i ==> fits(#[trigger] STAMP@[j], line@[j]),
        decreases pattern.len() - i,
    {
        let p: char = pattern[i];
        let c: char = v[i];
        let fine = if p == '0' {
            '0' <= c && c <= '9'
        } else {
            c == p
        };
        if !fine {
            assert(!fits(STAMP@[i as int], line@[i as int]));
            return false;
        }
        i = i + 1;
    }
    true
}

fn strip_level_word(s: &str, level: &str) -> (r: Option<String>)
    ensures
        text::opt_string(r) == after_level(s@, level@),
{
    match strip_prefix(s, level) {
        Some(rest) => match strip_prefix(
            trim_start_of(rest.as_str(), Class::Only(' ')).as_str(),
            ":",
        ) {
            Some(message) => Some(trim_start_of(message.as_str(), Class::Only(' '))),
            None => None,
        },
        None => None,
    }
}

fn level_words() -> (r: Vec<String>)
    ensures
        text::views(r@) == levels(),
{
    let mut r: Vec<String> = Vec::new();
    assert(text::views(r@) =~= Seq::<Seq<char>>::empty());
    push_text(&mut r, "EMERGENCY");
    push_text(&mut r, "ALERT");
    push_text(&mut r, "CRITICAL");
    push_text(&mut r, "ERROR");
    push_text(&mut r, "WARNING");
    push_text(&mut r, "NOTICE");
    push_text(&mut r, "INFO");
    push_text(&mut r, "DEBUG");
    r
}

fn strip_level(s: &str) -> (r: String)
    ensures
        r@ == without_level(s@, levels()),
{
    let words = level_words();
    let ghost all = levels();
    let mut i: usize = 0;
    assert(all.skip(0) =~= all);
    while i < words.len()
        invariant
            i <= words.len(),
            text::views(words@) == all,
            all == levels(),
            without_level(s@, all) == without_level(s@, all.skip(i as int)),
        decreases words.len() - i,
    {
        assert(all.skip(i as int)[0] == words@[i as int]@);
        assert(all.skip(i as int).skip(1) =~= all.skip(i + 1));
        match strip_level_word(s, words[i].as_str()) {
            Some(message) => return message,
            None => {},
        }
        i = i + 1;
    }
    assert(all.skip(i as int).len() == 0);
    s.to_owned()
}

fn strip_stamp(line: &str) -> (r: String)
    ensures
        r@ == without_stamp(line@),
{
    if is_stamped(line) {
        let v = chars_of(line);
        let rest = string_of(&v, chars_of(STAMP).len(), v.len());
        let message = strip_level(trim_start_of(rest.as_str(), Class::Only(' ')).as_str());
        if !message.as_str().is_empty() {
            return message;
        }
    }
    line.to_owned()
}

fn clip(s: &str) -> (r: String)
    ensures
        r@ == clipped(s@),
{
    if s.as_bytes().len() <= 200 {
        return s.to_owned();
    }
    let ghost bytes = encode_utf8(s@);
    let mut n: usize = 200;
    while n > 0 && !s.is_char_boundary(n)
        invariant
            n <= 200,
            bytes == encode_utf8(s@),
            last_boundary(bytes, 200) == last_boundary(bytes, n as int),
        decreases n,
    {
        n = n - 1;
    }
    proof {
        encode_utf8_valid_utf8(s@);
        is_char_boundary_start_end_of_seq(bytes);
    }
    let (head, _) = s.split_at(n);
    proof {
        encode_utf8_decode_utf8(head@);
    }
    let mut r = head.to_owned();
    r.push('…');
    r
}

/// Pull the most useful single line out of rclone's stderr.
pub fn summarize_error(stderr: &str) -> (r: String)
    ensures
        r@ == summary(stderr@),
{
    clip(strip_stamp(pick_line(stderr).as_str()).as_str())
}

proof fn lemma_part_free(s: Seq<char>, a: int, b: int, k: Class)
    requires
        split::free_of(s, k),
        0 <= a <= b <= s.len(),
    ensures
        split::free_of(s.subrange(a, b), k),
{
    assert forall|i: int| 0 <= i < s.subrange(a, b).len() implies !text::in_class(
        #[trigger] s.subrange(a, b)[i],
        k,
    ) by {
        assert(s.subrange(a, b)[i] == s[a + i]);
    }
}

proof fn lemma_non_empty(v: Seq<Seq<char>>, i: int)
    requires
        0 <= i < split::non_empty(v).len(),
    ensures
        split::non_empty(v)[i].len() > 0,
        v.contains(split::non_empty(v)[i]),
    decreases v.len(),
{
    if v.len() > 0 {
        let before = split::non_empty(v.drop_last());
        assert(v[v.len() - 1] == v.last());
        if i < before.len() {
            lemma_non_empty(v.drop_last(), i);
            let j = choose|j: int| 0 <= j < v.drop_last().len() && v.drop_last()[j] == before[i];
            assert(v[j] == before[i]);
        }
    }
}

/// A line that is not blank is one line, and not empty.
proof fn lemma_spoken_line(stderr: Seq<char>, i: int)
    requires
        0 <= i < spoken_lines(stderr).len(),
    ensures
        spoken_lines(stderr)[i].len() > 0,
        split::free_of(spoken_lines(stderr)[i], Class::Only('\n')),
{
    let k = Class::Only('\n');
    let all = split::lines_of(stderr).map_values(|l: Seq<char>| text::trimmed(l));
    lemma_non_empty(all, i);
    let j = choose|j: int| 0 <= j < all.len() && all[j] == spoken_lines(stderr)[i];
    let line = split::lines_of(stderr)[j];
    let parts = split::pieces(stderr, k);
    split::lemma_pieces_free(stderr, k);
    split::lemma_pieces_len(stderr, k);
    assert(split::free_of(parts[j], k));
    assert(line =~= parts[j] || line =~= parts[j].subrange(0, parts[j].len() - 1));
    if line != parts[j] {
        lemma_part_free(parts[j], 0, parts[j].len() - 1, k);
    }
    text::lemma_trimmed_of(line, Class::Space);
    let (a, b) = choose|a: int, b: int|
        0 <= a <= b <= line.len() && #[trigger] line.subrange(a, b) == text::trimmed(line);
    lemma_part_free(line, a, b, k);
}

proof fn lemma_last_telling(lines: Seq<Seq<char>>)
    ensures
        last_telling(lines) matches Some(l) ==> lines.contains(l),
    decreases lines.len(),
{
    if lines.len() > 0 {
        assert(lines[lines.len() - 1] == lines.last());
        lemma_last_telling(lines.drop_last());
        if last_telling(lines) is Some && !telling(lines.last()) {
            let l = last_telling(lines)->Some_0;
            let j = choose|j: int| 0 <= j < lines.drop_last().len() && lines.drop_last()[j] == l;
            assert(lines[j] == l);
        }
    }
}

/// The most useful line is one line, and not empty.
proof fn lemma_most_useful(stderr: Seq<char>)
    ensures
        most_useful(stderr).len() > 0,
        split::free_of(most_useful(stderr), Class::Only('\n')),
{
    let lines = spoken_lines(stderr);
    lemma_last_telling(lines);
    if lines.len() > 0 {
        let l = most_useful(stderr);
        assert(lines[lines.len() - 1] == lines.last());
        assert(lines.contains(l));
        let i = choose|i: int| 0 <= i < lines.len() && lines[i] == l;
        lemma_spoken_line(stderr, i);
    } else {
        reveal_strlit("unknown error");
    }
}

proof fn lemma_trimmed_start_free(s: Seq<char>, c: Class, k: Class)
    requires
        split::free_of(s, k),
    ensures
        split::free_of(text::trimmed_start(s, c), k),
{
    text::lemma_trimmed_start(s, c);
    lemma_part_free(s, s.len() - text::trimmed_start(s, c).len(), s.len() as int, k);
}

proof fn lemma_without_level_free(s: Seq<char>, levels: Seq<Seq<char>>, k: Class)
    requires
        split::free_of(s, k),
    ensures
        split::free_of(without_level(s, levels), k),
    decreases levels.len(),
{
    if levels.len() > 0 {
        if let Some(rest) = split::without_prefix(s, levels[0]) {
            lemma_part_free(s, levels[0].len() as int, s.len() as int, k);
            lemma_trimmed_start_free(rest, Class::Only(' '), k);
            let t = text::trimmed_start(rest, Class::Only(' '));
            if let Some(message) = split::without_prefix(t, ":"@) {
                lemma_part_free(t, ":"@.len() as int, t.len() as int, k);
                lemma_trimmed_start_free(message, Class::Only(' '), k);
            }
        }
        lemma_without_level_free(s, levels.skip(1), k);
    }
}

/// There is a boundary between characters at or before any byte.
pub proof fn lemma_last_boundary(bytes: Seq<u8>, n: int)
    requires
        valid_utf8(bytes),
        0 <= n,
    ensures
        0 <= last_boundary(bytes, n) <= n,
        is_char_boundary(bytes, last_boundary(bytes, n)),
    decreases n,
{
    is_char_boundary_start_end_of_seq(bytes);
    if n > 0 && !is_char_boundary(bytes, n) {
        lemma_last_boundary(bytes, n - 1);
    }
}

/// An ellipsis takes three bytes.
proof fn lemma_ellipsis_len(s: Seq<char>)
    ensures
        encode_utf8(s.push('…')).len() == encode_utf8(s).len() + 3,
    decreases s.len(),
{
    let t = s.push('…');
    if s.len() == 0 {
        assert(t.drop_first() =~= Seq::<char>::empty());
        assert(encode_utf8(t.drop_first()).len() == 0);
        assert(encode_scalar(t[0] as u32).len() == 3);
    } else {
        assert(t.drop_first() =~= s.drop_first().push('…'));
        assert(t[0] == s[0]);
        lemma_ellipsis_len(s.drop_first());
    }
}

/// What is told of an error is a single short line, and is not empty.
pub proof fn lemma_summary_is_a_line(stderr: Seq<char>)
    ensures
        summary(stderr).len() > 0,
        !summary(stderr).contains('\n'),
        encode_utf8(summary(stderr)).len() <= 203,
{
    let k = Class::Only('\n');
    let line = most_useful(stderr);
    lemma_most_useful(stderr);
    let short = without_stamp(line);
    if stamped(line) {
        let rest = line.subrange(STAMP@.len() as int, line.len() as int);
        lemma_part_free(line, STAMP@.len() as int, line.len() as int, k);
        lemma_trimmed_start_free(rest, Class::Only(' '), k);
        lemma_without_level_free(text::trimmed_start(rest, Class::Only(' ')), levels(), k);
    }
    assert(short.len() > 0 && split::free_of(short, k));
    let bytes = encode_utf8(short);
    let s = summary(stderr);
    if bytes.len() > 200 {
        encode_utf8_valid_utf8(short);
        encode_utf8_decode_utf8(short);
        lemma_last_boundary(bytes, 200);
        let n = last_boundary(bytes, 200);
        decode_utf8_split(bytes, n);
        valid_utf8_split(bytes, n);
        let head = decode_utf8(bytes.subrange(0, n));
        decode_utf8_encode_utf8(bytes.subrange(0, n));
        assert(head =~= short.subrange(0, head.len() as int));
        lemma_part_free(short, 0, head.len() as int, k);
        lemma_ellipsis_len(head);
        assert forall|i: int| 0 <= i < s.len() implies s[i] != '\n' by {
            if i < head.len() {
                assert(!text::in_class(head[i], k));
            }
        }
    } else {
        assert forall|i: int| 0 <= i < s.len() implies s[i] != '\n' by {
            assert(!text::in_class(short[i], k));
        }
    }
}

/// No two words for levels begin with the same two letters.
proof fn lemma_level_words(level: Seq<char>)
    requires
        levels().contains(level),
    ensures
        level.len() >= 4,
        level[0] != ' ',
        forall|i: int|
            0 <= i < levels().len() && (#[trigger] levels()[i])[0] == level[0] && levels()[i][1]
                == level[1] ==> levels()[i] == level,
        forall|i: int| 0 <= i < levels().len() ==> (#[trigger] levels()[i]).len() >= 4,
{
    reveal_strlit("EMERGENCY");
    reveal_strlit("ALERT");
    reveal_strlit("CRITICAL");
    reveal_strlit("ERROR");
    reveal_strlit("WARNING");
    reveal_strlit("NOTICE");
    reveal_strlit("INFO");
    reveal_strlit("DEBUG");
    let all = levels();
    assert(all.len() == 8);
    assert(all[0][0] == 'E' && all[0][1] == 'M' && all[1][0] == 'A' && all[2][0] == 'C');
    assert(all[3][0] == 'E' && all[3][1] == 'R' && all[4][0] == 'W' && all[5][0] == 'N');
    assert(all[6][0] == 'I' && all[7][0] == 'D');
    let k = choose|k: int| 0 <= k < all.len() && all[k] == level;
    assert(all[k] == level);
}

proof fn lemma_after_own_level(level: Seq<char>, gap: Seq<char>, message: Seq<char>)
    requires
        gap == Seq::<char>::empty() || gap == " "@,
        message.len() > 0,
        message[0] != ' ',
    ensures
        after_level(level + gap + ": "@ + message, level) == Some(message),
{
    reveal_strlit(" ");
    reveal_strlit(":");
    reveal_strlit(": ");
    reveal_with_fuel(text::trimmed_start, 3);
    let space = Class::Only(' ');
    let s = level + gap + ": "@ + message;
    let behind = gap + ": "@ + message;
    let colon = ": "@ + message;
    assert(s.subrange(0, level.len() as int) =~= level);
    assert(s.subrange(level.len() as int, s.len() as int) =~= behind);
    assert(colon[0] == ':');
    if gap == " "@ {
        assert(behind[0] == ' ');
        assert(behind.subrange(1, behind.len() as int) =~= colon);
    } else {
        assert(behind =~= colon);
    }
    assert(text::trimmed_start(behind, space) == colon);
    let spaced = " "@ + message;
    assert(colon.subrange(0, 1) =~= ":"@);
    assert(colon.subrange(1, colon.len() as int) =~= spaced);
    assert(spaced[0] == ' ');
    assert(spaced.subrange(1, spaced.len() as int) =~= message);
    assert(text::trimmed_start(spaced, space) == message);
}

proof fn lemma_without_own_level(
    s: Seq<char>,
    level: Seq<char>,
    levels: Seq<Seq<char>>,
    message: Seq<char>,
)
    requires
        after_level(s, level) == Some(message),
        levels.contains(level),
        forall|i: int|
            0 <= i < levels.len() && (#[trigger] levels[i]) != level ==> !levels[i].is_prefix_of(s),
    ensures
        without_level(s, levels) == message,
    decreases levels.len(),
{
    if levels[0] != level {
        let k = choose|k: int| 0 <= k < levels.len() && levels[k] == level;
        let rest = levels.skip(1);
        assert(rest[k - 1] == level);
        assert forall|i: int| 0 <= i < rest.len() && (#[trigger] rest[i]) != level implies !rest[i].is_prefix_of(
            s,
        ) by {
            assert(rest[i] == levels[i + 1]);
        }
        lemma_without_own_level(s, level, rest, message);
    }
}

/// Of a log line with date, time and level, the message is kept whole.
pub proof fn lemma_message_kept(stamp: Seq<char>, level: Seq<char>, gap: Seq<char>, message: Seq<char>)
    requires
        stamped(stamp),
        stamp.len() == STAMP@.len(),
        levels().contains(level),
        gap == Seq::<char>::empty() || gap == " "@,
        message.len() > 0,
        message[0] != ' ',
    ensures
        without_stamp(stamp + level + gap + ": "@ + message) == message,
{
    reveal_strlit(" ");
    reveal_strlit(":");
    reveal_strlit(": ");
    let line = stamp + level + gap + ": "@ + message;
    let n = STAMP@.len() as int;
    assert forall|i: int| 0 <= i < n implies fits(#[trigger] STAMP@[i], line[i]) by {
        assert(line[i] == stamp[i]);
    }
    let rest = level + gap + ": "@ + message;
    assert(line.subrange(n, line.len() as int) =~= rest);
    lemma_level_words(level);
    text::lemma_trimmed_start(rest, Class::Only(' '));
    assert(rest[0] == level[0]);
    assert(text::trimmed_start(rest, Class::Only(' ')) == rest);
    lemma_after_own_level(level, gap, message);
    assert forall|i: int| 0 <= i < levels().len() && (#[trigger] levels()[i]) != level implies !levels()[i].is_prefix_of(
        rest,
    ) by {
        let other = levels()[i];
        if other.is_prefix_of(rest) {
            assert(other =~= rest.subrange(0, other.len() as int));
            assert(other[0] == rest[0] && other[1] == rest[1]);
            assert(rest[0] == level[0] && rest[1] == level[1]);
        }
    }
    lemma_without_own_level(rest, level, levels(), message);
}

/// What a listing request against the bucket showed: the number of top-level
/// entries (0 if the listing cannot be read), or why it failed. A failure that
/// tells of a lost SSO session is reported as `SESSION_EXPIRED`, by which the
/// supervisor knows that the user has to sign in.
pub fn check_connectivity(ran: Result<Finished, String>) -> (r: Result<usize, String>)
    ensures
        match ran {
            Ok(fin) => if fin.success {
                r == Ok::<usize, String>(
                    match json::json_list_len(fin.stdout@) {
                        Some(n) => n,
                        None => 0,
                    },
                )
            } else if sso::session_error(fin.stderr@) {
                r matches Err(e) && e@ == sso::SESSION_EXPIRED@
            } else {
                r matches Err(e) && e@ == summary(fin.stderr@)
            },
            Err(e) => r == Err::<usize, String>(e),
        },
{
    match ran {
        Ok(fin) => if fin.success {
            Ok(
                match json::list_len(fin.stdout.as_str()) {
                    Some(n) => n,
                    None => 0,
                },
            )
        } else if is_session_error(fin.stderr.as_str()) {
            Err(sso::SESSION_EXPIRED.to_owned())
        } else {
            Err(summarize_error(fin.stderr.as_str()))
        },
        Err(e) => Err(e),
    }
}

/// How long a check of the bucket may take while its mount runs, in seconds.
pub const CHECK_TIMEOUT_SECS: u64 = 30;

/// How long a check of the bucket that the user asked for may take, in seconds.
pub const TEST_TIMEOUT_SECS: u64 = 40;

/// How long the remote-control API may take to answer, in seconds.
pub const STATS_TIMEOUT_SECS: u64 = 5;

/// The state of a mount's upload queue.
#[derive(Debug, Clone, Copy, PartialEq, Eq, Structural)]
pub struct VfsStats {
    pub uploads_queued: u64,
    pub uploads_in_progress: u64,
    pub errored_files: u64,
}

impl Default for VfsStats {
    fn default() -> (r: Self)
        ensures
            r == (VfsStats { uploads_queued: 0, uploads_in_progress: 0, errored_files: 0 }),
    {
        VfsStats { uploads_queued: 0, uploads_in_progress: 0, errored_files: 0 }
    }
}

/// The count under `key` in the part of an answer that tells of the cache.
pub open spec fn cache_count(answer: Seq<char>, key: Seq<char>) -> u64 {
    match json::json_inner_unsigned(answer, "diskCache"@, key) {
        Some(n) => n,
        None => 0,
    }
}

fn count_at(answer: &str, key: &str) -> (r: u64)
    ensures
        r == cache_count(answer@, key@),
{
    match json::inner_unsigned_at(answer, "diskCache", key) {
        Some(n) => n,
        None => 0,
    }
}

/// What the running mount's remote-control API said of cache and uploads.
pub fn rc_vfs_stats(ran: Result<Finished, String>) -> (r: Result<VfsStats, String>)
    ensures
        match ran {
            Ok(fin) => if !fin.success {
                r matches Err(e) && e@ == summary(fin.stderr@)
            } else {
                match json::json_error(fin.stdout@) {
                    Some(m) => r matches Err(e) && e@ == m,
                    None => r == Ok::<VfsStats, String>(
                        VfsStats {
                            uploads_queued: cache_count(fin.stdout@, "uploadsQueued"@),
                            uploads_in_progress: cache_count(fin.stdout@, "uploadsInProgress"@),
                            errored_files: cache_count(fin.stdout@, "erroredFiles"@),
                        },
                    ),
                }
            },
            Err(e) => r == Err::<VfsStats, String>(e),
        },
{
    match ran {
        Ok(fin) => {
            if !fin.success {
                return Err(summarize_error(fin.stderr.as_str()));
            }
            let out = fin.stdout.as_str();
            match json::error_in(out) {
                Some(m) => Err(m),
                None => Ok(
                    VfsStats {
                        uploads_queued: count_at(out, "uploadsQueued"),
                        uploads_in_progress: count_at(out, "uploadsInProgress"),
                        errored_files: count_at(out, "erroredFiles"),
                    },
                ),
            }
        },
        Err(e) => Err(e),
    }
}

/// The port for the remote-control server: an unused one, if the system gave
/// one, or the customary one.
pub fn free_port(found: Option<u16>) -> (r: u16)
    ensures
        r == (match found {
            Some(p) => p,
            None => 5572,
        }),
{
    match found {
        Some(p) => p,
        None => 5572,
    }
}

} // verus!
