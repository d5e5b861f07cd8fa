//! Configuration: the settings of every mount, what makes them valid, and
//! where the application keeps its files.
//!
//! The whole application is driven by one file,
//! `~/.config/bucketmount/config.toml`. Paths are text; the home directory is
//! looked up once by the functions that need it, and each of those has a
//! counterpart that takes it as an argument.

use crate::path;
use crate::path::{components_of, is_absolute, join_path, same_path, strip_base};
use crate::split;
use crate::split::{starts_with, strip_prefix};
use crate::text;
use crate::text::{chars_of, copy_strings, is_blank, same, same_strings, trim, trim_of, Class};
use vstd::prelude::*;

verus! {

pub const APP_NAME: &'static str = "BucketMount";

pub const BUNDLE_ID: &'static str = "com.bucketmount.desktop";

/// How a bucket is made available.
#[derive(Debug, Clone, Copy, PartialEq, Eq, Structural)]
pub enum Mode {
    /// As a volume, through `rclone nfsmount`.
    Mount,
    /// As a local folder kept in two-way sync, through `rclone bisync`.
    Sync,
}

/// The settings of one mount.
#[derive(Debug, PartialEq)]
pub struct MountConfig {
    /// Display name; also the default volume / folder name. Must be unique.
    pub name: String,
    /// A volume, or a synced folder.
    pub mode: Mode,
    pub bucket: String,
    /// Optional directory inside the bucket to mount instead of the root.
    pub prefix: String,
    /// Where the volume appears. `~` is expanded.
    pub mount_point: String,
    pub enabled: bool,
    pub read_only: bool,
    /// rclone S3 provider name: AWS, Cloudflare, Minio, Wasabi, DigitalOcean, Other, ...
    pub provider: String,
    pub region: String,
    /// Custom endpoint for non-AWS providers.
    pub endpoint: String,
    pub access_key_id: String,
    pub secret_access_key: String,
    /// Name of a remote in the user's own rclone.conf to reuse instead of inline keys.
    pub rclone_remote: String,
    /// Let the AWS SDK find credentials (env vars, ~/.aws/credentials, IAM).
    pub env_auth: bool,
    /// AWS profile from ~/.aws/config for the default chain (or to override
    /// the rclone remote's). SSO profiles are signed in to by the app.
    pub aws_profile: String,
    /// Seconds a written file sits in the local cache before it is uploaded.
    pub write_back_secs: u64,
    /// How long directory listings are cached (how quickly changes made
    /// elsewhere show up).
    pub dir_cache_secs: u64,
    /// Upper bound on the local VFS cache, e.g. "10G".
    pub cache_max_size: String,
    /// Any additional rclone flags.
    pub extra_args: Vec<String>,
}

/// What a `MountConfig` says, as values.
#[verifier::ext_equal]
pub struct MountModel {
    pub name: Seq<char>,
    pub mode: Mode,
    pub bucket: Seq<char>,
    pub prefix: Seq<char>,
    pub mount_point: Seq<char>,
    pub enabled: bool,
    pub read_only: bool,
    pub provider: Seq<char>,
    pub region: Seq<char>,
    pub endpoint: Seq<char>,
    pub access_key_id: Seq<char>,
    pub secret_access_key: Seq<char>,
    pub rclone_remote: Seq<char>,
    pub env_auth: bool,
    pub aws_profile: Seq<char>,
    pub write_back_secs: u64,
    pub dir_cache_secs: u64,
    pub cache_max_size: Seq<char>,
    pub extra_args: Seq<Seq<char>>,
}

impl View for MountConfig {
    type V = MountModel;

    open spec fn view(&self) -> MountModel {
        MountModel {
            name: self.name@,
            mode: self.mode,
            bucket: self.bucket@,
            prefix: self.prefix@,
            mount_point: self.mount_point@,
            enabled: self.enabled,
            read_only: self.read_only,
            provider: self.provider@,
            region: self.region@,
            endpoint: self.endpoint@,
            access_key_id: self.access_key_id@,
            secret_access_key: self.secret_access_key@,
            rclone_remote: self.rclone_remote@,
            env_auth: self.env_auth,
            aws_profile: self.aws_profile@,
            write_back_secs: self.write_back_secs,
            dir_cache_secs: self.dir_cache_secs,
            cache_max_size: self.cache_max_size@,
            extra_args: text::views(self.extra_args@),
        }
    }
}

/// The settings of all mounts of a list.
pub open spec fn models(v: Seq<MountConfig>) -> Seq<MountModel> {
    Seq::new(v.len(), |i: int| v[i]@)
}

impl Clone for MountConfig {
    fn clone(&self) -> (r: Self)
        ensures
            r@ == self@,
    {
        MountConfig {
            name: self.name.clone(),
            mode: self.mode,
            bucket: self.bucket.clone(),
            prefix: self.prefix.clone(),
            mount_point: self.mount_point.clone(),
            enabled: self.enabled,
            read_only: self.read_only,
            provider: self.provider.clone(),
            region: self.region.clone(),
            endpoint: self.endpoint.clone(),
            access_key_id: self.access_key_id.clone(),
            secret_access_key: self.secret_access_key.clone(),
            rclone_remote: self.rclone_remote.clone(),
            env_auth: self.env_auth,
            aws_profile: self.aws_profile.clone(),
            write_back_secs: self.write_back_secs,
            dir_cache_secs: self.dir_cache_secs,
            cache_max_size: self.cache_max_size.clone(),
            extra_args: copy_strings(&self.extra_args),
        }
    }
}

impl Default for MountConfig {
    fn default() -> (r: Self)
        ensures
            r@ == MountModel::fresh(),
    {
        let extra_args: Vec<String> = Vec::new();
        assert(text::views(extra_args@) =~= Seq::<Seq<char>>::empty());
        MountConfig {
            name: String::new(),
            mode: Mode::Mount,
            bucket: String::new(),
            prefix: String::new(),
            mount_point: String::new(),
            enabled: true,
            read_only: false,
            provider: "AWS".to_owned(),
            region: String::new(),
            endpoint: String::new(),
            access_key_id: String::new(),
            secret_access_key: String::new(),
            rclone_remote: String::new(),
            env_auth: false,
            aws_profile: String::new(),
            write_back_secs: 5,
            dir_cache_secs: 60,
            cache_max_size: "10G".to_owned(),
            extra_args,
        }
    }
}

/// All settings.
#[derive(Debug, PartialEq)]
pub struct Config {
    /// `None` = never asked. Set on first launch when the user answers the prompt.
    pub start_at_login: Option<bool>,
    /// Override the rclone binary. Normally the bundled copy is used.
    pub rclone_path: Option<String>,
    /// How often to actively verify the bucket is reachable.
    pub health_check_interval_secs: u64,
    pub mounts: Vec<MountConfig>,
}

/// What a `Config` says, as values.
#[verifier::ext_equal]
pub struct ConfigModel {
    pub start_at_login: Option<bool>,
    pub rclone_path: Option<Seq<char>>,
    pub health_check_interval_secs: u64,
    pub mounts: Seq<MountModel>,
}

impl View for Config {
    type V = ConfigModel;

    open spec fn view(&self) -> ConfigModel {
        ConfigModel {
            start_at_login: self.start_at_login,
            rclone_path: text::opt_string(self.rclone_path),
            health_check_interval_secs: self.health_check_interval_secs,
            mounts: models(self.mounts@),
        }
    }
}

impl Default for Config {
    fn default() -> (r: Self)
        ensures
            r@ == (ConfigModel {
                start_at_login: None,
                rclone_path: None,
                health_check_interval_secs: 30,
                mounts: Seq::empty(),
            }),
    {
        let mounts: Vec<MountConfig> = Vec::new();
        assert(models(mounts@) =~= Seq::<MountModel>::empty());
        Config { start_at_login: None, rclone_path: None, health_check_interval_secs: 30, mounts }
    }
}

/// A copy of a list of mounts.
pub fn copy_mounts(v: &Vec<MountConfig>) -> (r: Vec<MountConfig>)
    ensures
        models(r@) == models(v@),
{
    let mut r: Vec<MountConfig> = Vec::new();
    let mut i: usize = 0;
    while i < v.len()
        invariant
            i <= v.len(),
            r.len() == i,
            forall|j: int| 0 <= j < i ==> (#[trigger] r@[j])@ == v@[j]@,
        decreases v.len() - i,
    {
        r.push(v[i].clone());
        i = i + 1;
    }
    assert(models(r@) =~= models(v@));
    r
}

impl Clone for Config {
    fn clone(&self) -> (r: Self)
        ensures
            r@ == self@,
    {
        Config {
            start_at_login: self.start_at_login,
            rclone_path: match &self.rclone_path {
                Some(p) => Some(p.clone()),
                None => None,
            },
            health_check_interval_secs: self.health_check_interval_secs,
            mounts: copy_mounts(&self.mounts),
        }
    }
}

/// Where a mount's credentials come from.
#[derive(Debug, Clone, Copy, PartialEq, Eq, Structural)]
pub enum CredMode {
    /// Inline access key + secret stored in config.toml.
    Keys,
    /// Reuse a remote from ~/.config/rclone/rclone.conf.
    RcloneRemote,
    /// AWS SDK default chain.
    EnvAuth,
}

// ---------------------------------------------------------------------------
// What the settings mean
// ---------------------------------------------------------------------------

/// There is nothing but white space in `s`.
pub open spec fn blank(s: Seq<char>) -> bool {
    text::trimmed(s).len() == 0
}

/// `p` with white space around it taken off and a leading `~` replaced by
/// the home directory.
pub open spec fn expanded(p: Seq<char>, home: Seq<char>) -> Seq<char> {
    let p = text::trimmed(p);
    if p == "~"@ {
        home
    } else {
        match split::without_prefix(p, "~/"@) {
            Some(rest) => path::joined_path(home, rest),
            None => p,
        }
    }
}

/// `p` with the home directory written as `~`.
pub open spec fn collapsed(p: Seq<char>, home: Seq<char>) -> Seq<char> {
    match path::below(p, home) {
        Some(rest) => if rest.len() == 0 {
            "~"@
        } else {
            "~/"@ + rest
        },
        None => p,
    }
}

impl MountModel {
    pub open spec fn fresh() -> MountModel {
        MountModel {
            name: Seq::empty(),
            mode: Mode::Mount,
            bucket: Seq::empty(),
            prefix: Seq::empty(),
            mount_point: Seq::empty(),
            enabled: true,
            read_only: false,
            provider: "AWS"@,
            region: Seq::empty(),
            endpoint: Seq::empty(),
            access_key_id: Seq::empty(),
            secret_access_key: Seq::empty(),
            rclone_remote: Seq::empty(),
            env_auth: false,
            aws_profile: Seq::empty(),
            write_back_secs: 5,
            dir_cache_secs: 60,
            cache_max_size: "10G"@,
            extra_args: Seq::empty(),
        }
    }

    /// A named rclone remote comes first, then inline keys, then the chain.
    pub open spec fn credentials(self) -> CredMode {
        if !blank(self.rclone_remote) {
            CredMode::RcloneRemote
        } else if !blank(self.access_key_id) {
            CredMode::Keys
        } else {
            CredMode::EnvAuth
        }
    }

    pub open spec fn path_in(self, home: Seq<char>) -> Seq<char> {
        expanded(self.mount_point, home)
    }

    /// The prefix without white space and slashes around it.
    pub open spec fn clean_prefix(self) -> Seq<char> {
        text::trimmed_of(text::trimmed(self.prefix), Class::Only('/'))
    }

    /// The `bucket/prefix` part of the rclone remote.
    pub open spec fn bucket_and_prefix(self) -> Seq<char> {
        if self.clean_prefix().len() == 0 {
            text::trimmed(self.bucket)
        } else {
            text::trimmed(self.bucket) + "/"@ + self.clean_prefix()
        }
    }

    pub open spec fn name_allowed(self) -> bool {
        let name = text::trimmed(self.name);
        !name.contains('/') && !name.contains(':') && !"."@.is_prefix_of(name)
    }

    pub open spec fn name_taken(self, others: Seq<MountModel>) -> bool {
        exists|i: int|
            0 <= i < others.len() && text::trimmed((#[trigger] others[i]).name) == text::trimmed(
                self.name,
            )
    }

    pub open spec fn path_taken(self, others: Seq<MountModel>, home: Seq<char>) -> bool {
        exists|i: int|
            0 <= i < others.len() && path::equal_paths(
                (#[trigger] others[i]).path_in(home),
                self.path_in(home),
            )
    }

    /// The first of the rules for a mount among `others` that is broken.
    pub open spec fn problem(self, others: Seq<MountModel>, home: Seq<char>) -> Option<Seq<char>> {
        let mp = self.path_in(home);
        if blank(self.name) {
            Some("Name is required."@)
        } else if !self.name_allowed() {
            Some("Name may not contain '/' or ':' or start with '.'"@)
        } else if self.name_taken(others) {
            Some("A mount named '"@ + text::trimmed(self.name) + "' already exists."@)
        } else if blank(self.bucket) {
            Some("Bucket is required."@)
        } else if self.bucket.contains('/') {
            Some(
                "Bucket must be just the bucket name; put sub-folders in 'Path in bucket'."@,
            )
        } else if blank(self.mount_point) {
            Some("Mount point is required."@)
        } else if !path::absolute(mp) {
            Some("Mount point must be an absolute path (or start with ~)."@)
        } else if path::components(mp).len() == 0 {
            Some("Mount point cannot be the root directory."@)
        } else if self.path_taken(others, home) {
            Some("Another mount already uses that mount point."@)
        } else if self.credentials() == CredMode::Keys && blank(self.secret_access_key) {
            Some("Secret access key is required when an access key ID is given."@)
        } else if self.write_back_secs == 0 {
            Some("Write-back delay must be at least 1 second."@)
        } else {
            None
        }
    }
}

fn has_char(s: &str, c: char) -> (r: bool)
    ensures
        r == s@.contains(c),
{
    let v = chars_of(s);
    let mut i: usize = 0;
    while i < v.len()
        invariant
            i <= v.len(),
            v@ == s@,
            forall|j: int| 0 <= j < i ==> v@[j] != c,
        decreases v.len() - i,
    {
        if v[i] == c {
            return true;
        }
        i = i + 1;
    }
    false
}

impl MountConfig {
    /// Whether all settings are the same.
    pub fn same_as(&self, other: &MountConfig) -> (r: bool)
        ensures
            r == (self@ == other@),
    {
        self.name == other.name && self.mode == other.mode && self.bucket == other.bucket
            && self.prefix == other.prefix && self.mount_point == other.mount_point && self.enabled
            == other.enabled && self.read_only == other.read_only && self.provider
            == other.provider && self.region == other.region && self.endpoint == other.endpoint
            && self.access_key_id == other.access_key_id && self.secret_access_key
            == other.secret_access_key && self.rclone_remote == other.rclone_remote
            && self.env_auth == other.env_auth && self.aws_profile == other.aws_profile
            && self.write_back_secs == other.write_back_secs && self.dir_cache_secs
            == other.dir_cache_secs && self.cache_max_size == other.cache_max_size && same_strings(
            &self.extra_args,
            &other.extra_args,
        )
    }

    pub fn cred_mode(&self) -> (r: CredMode)
        ensures
            r == self@.credentials(),
    {
        if !is_blank(self.rclone_remote.as_str()) {
            CredMode::RcloneRemote
        } else if !is_blank(self.access_key_id.as_str()) {
            CredMode::Keys
        } else {
            CredMode::EnvAuth
        }
    }

    /// Absolute mount point with `~` expanded.
    pub fn mount_path(&self) -> (r: String)
        ensures
            exists|home: Seq<char>| home.len() > 0 && r@ == #[trigger] self@.path_in(home),
    {
        self.mount_path_in(home_dir().as_str())
    }

    /// Absolute mount point with `~` standing for `home`.
    pub fn mount_path_in(&self, home: &str) -> (r: String)
        ensures
            r@ == self@.path_in(home@),
    {
        expand_tilde_in(self.mount_point.as_str(), home)
    }

    /// `bucket/prefix` part of the rclone remote spec.
    pub fn bucket_path(&self) -> (r: String)
        ensures
            r@ == self@.bucket_and_prefix(),
    {
        let prefix = trim_of(trim(self.prefix.as_str()).as_str(), Class::Only('/'));
        let bucket = trim(self.bucket.as_str());
        if prefix.as_str().is_empty() {
            bucket
        } else {
            bucket.concat("/").concat(prefix.as_str())
        }
    }

    /// Whether this mount may stand beside `others`.
    pub fn validate(&self, others: &[MountConfig]) -> (r: Result<(), String>)
        ensures
            exists|home: Seq<char>|
                home.len() > 0 && match r {
                    Ok(_) => (#[trigger] self@.problem(models(others@), home)) is None,
                    Err(e) => self@.problem(models(others@), home) == Some(e@),
                },
    {
        self.validate_in(others, home_dir().as_str())
    }

    /// Whether this mount may stand beside `others`, with `~` standing for
    /// `home`.
    pub fn validate_in(&self, others: &[MountConfig], home: &str) -> (r: Result<(), String>)
        ensures
            match r {
                Ok(_) => self@.problem(models(others@), home@) is None,
                Err(e) => self@.problem(models(others@), home@) == Some(e@),
            },
    {
        let name = trim(self.name.as_str());
        if name.as_str().is_empty() {
            return Err("Name is required.".to_owned());
        }
        if has_char(name.as_str(), '/') || has_char(name.as_str(), ':') || starts_with(
            name.as_str(),
            ".",
        ) {
            return Err("Name may not contain '/' or ':' or start with '.'".to_owned());
        }
        if self.shares_name(others) {
            return Err(
                "A mount named '".to_owned().concat(name.as_str()).concat("' already exists."),
            );
        }
        if is_blank(self.bucket.as_str()) {
            return Err("Bucket is required.".to_owned());
        }
        if has_char(self.bucket.as_str(), '/') {
            return Err(
                "Bucket must be just the bucket name; put sub-folders in 'Path in bucket'.".to_owned(),
            );
        }
        if is_blank(self.mount_point.as_str()) {
            return Err("Mount point is required.".to_owned());
        }
        let mp = self.mount_path_in(home);
        if !is_absolute(mp.as_str()) {
            return Err("Mount point must be an absolute path (or start with ~).".to_owned());
        }
        let parts = components_of(mp.as_str());
        assert(path::components(mp@).len() == parts.len());
        if parts.len() == 0 {
            return Err("Mount point cannot be the root directory.".to_owned());
        }
        if self.shares_path(others, home) {
            return Err("Another mount already uses that mount point.".to_owned());
        }
        if self.cred_mode() == CredMode::Keys && is_blank(self.secret_access_key.as_str()) {
            return Err(
                "Secret access key is required when an access key ID is given.".to_owned(),
            );
        }
        if self.write_back_secs == 0 {
            return Err("Write-back delay must be at least 1 second.".to_owned());
        }
        Ok(())
    }

    fn shares_name(&self, others: &[MountConfig]) -> (r: bool)
        ensures
            r == self@.name_taken(models(others@)),
    {
        let name = trim(self.name.as_str());
        let mut i: usize = 0;
        while i < others.len()
            invariant
                i <= others.len(),
                name@ == text::trimmed(self.name@),
                forall|j: int|
                    0 <= j < i ==> text::trimmed((#[trigger] models(others@)[j]).name) != name@,
            decreases others.len() - i,
        {
            assert(models(others@)[i as int] == others@[i as int]@);
            if same(trim(others[i].name.as_str()).as_str(), name.as_str()) {
                return true;
            }
            i = i + 1;
        }
        false
    }

    fn shares_path(&self, others: &[MountConfig], home: &str) -> (r: bool)
        ensures
            r == self@.path_taken(models(others@), home@),
    {
        let mp = self.mount_path_in(home);
        let mut i: usize = 0;
        while i < others.len()
            invariant
                i <= others.len(),
                mp@ == self@.path_in(home@),
                forall|j: int|
                    0 <= j < i ==> !path::equal_paths(
                        (#[trigger] models(others@)[j]).path_in(home@),
                        mp@,
                    ),
            decreases others.len() - i,
        {
            assert(models(others@)[i as int] == others@[i as int]@);
            if same_path(others[i].mount_path_in(home).as_str(), mp.as_str()) {
                return true;
            }
            i = i + 1;
        }
        false
    }
}

/// The mount point offered for a new mount.
pub fn default_mount_point(name: &str) -> (r: String)
    ensures
        r@ == "~/BucketMount/"@ + text::trimmed(name@),
{
    let n = trim(name);
    "~/BucketMount/".to_owned().concat(n.as_str())
}

// ---------------------------------------------------------------------------
// Paths
// ---------------------------------------------------------------------------

/// Trusted: `dirs::home_dir` reports the user's home directory, from the
/// environment or the user database. It may report none; a reported one is
/// not empty. Which one it is depends on the machine and is not stated. Bytes
/// of it that are not UTF-8 are replaced.
#[verifier::external_body]
fn lookup_home_dir() -> (r: Option<String>)
    ensures
        r matches Some(h) ==> h@.len() > 0,
{
    dirs::home_dir().map(|p| p.to_string_lossy().into_owned())
}

/// The home directory; the root directory if none is known.
pub fn home_dir() -> (r: String)
    ensures
        r@.len() > 0,
{
    home_or_root(lookup_home_dir())
}

/// The home directory that was looked up, or the root directory.
pub fn home_or_root(found: Option<String>) -> (r: String)
    ensures
        match found {
            Some(h) => r@ == h@,
            None => r@ == seq!['/'],
        },
{
    match found {
        Some(h) => h,
        None => {
            proof {
                reveal_strlit("/");
            }
            assert("/"@ =~= seq!['/']);
            "/".to_owned()
        },
    }
}

pub fn expand_tilde(p: &str) -> (r: String)
    ensures
        exists|home: Seq<char>| home.len() > 0 && r@ == #[trigger] expanded(p@, home),
{
    expand_tilde_in(p, home_dir().as_str())
}

/// `p` with a leading `~` replaced by `home`.
pub fn expand_tilde_in(p: &str, home: &str) -> (r: String)
    ensures
        r@ == expanded(p@, home@),
{
    let p = trim(p);
    if same(p.as_str(), "~") {
        return home.to_owned();
    }
    match strip_prefix(p.as_str(), "~/") {
        Some(rest) => join_path(home, rest.as_str()),
        None => p,
    }
}

/// Display a path with the home directory collapsed to `~`.
pub fn collapse_tilde(p: &str) -> (r: String)
    ensures
        exists|home: Seq<char>| home.len() > 0 && r@ == #[trigger] collapsed(p@, home),
{
    collapse_tilde_in(p, home_dir().as_str())
}

/// Display a path with `home` collapsed to `~`.
pub fn collapse_tilde_in(p: &str, home: &str) -> (r: String)
    requires
        home@.len() > 0,
    ensures
        r@ == collapsed(p@, home@),
{
    match strip_base(p, home) {
        Some(rest) => if rest.as_str().is_empty() {
            "~".to_owned()
        } else {
            "~/".to_owned().concat(rest.as_str())
        },
        None => p.to_owned(),
    }
}

/// The directory of the configuration file: the one asked for in the
/// environment, if it is not empty, or a fixed place below the home directory.
pub open spec fn config_dir_path(asked: Option<Seq<char>>, home: Seq<char>) -> Seq<char> {
    match asked {
        Some(dir) if dir.len() > 0 => dir,
        _ => path::joined_path(path::joined_path(home, ".config"@), "bucketmount"@),
    }
}

/// `asked` is the value of `BUCKETMOUNT_CONFIG_DIR`, which lets tests and
/// power users relocate the configuration.
pub fn config_dir(asked: Option<&str>) -> (r: String)
    ensures
        exists|home: Seq<char>|
            home.len() > 0 && r@ == #[trigger] config_dir_path(text::opt_str(asked), home),
{
    config_dir_in(asked, home_dir().as_str())
}

pub fn config_dir_in(asked: Option<&str>, home: &str) -> (r: String)
    ensures
        r@ == config_dir_path(text::opt_str(asked), home@),
{
    match asked {
        Some(dir) => if !dir.is_empty() {
            return dir.to_owned();
        },
        None => {},
    }
    join_path(join_path(home, ".config").as_str(), "bucketmount")
}

/// The configuration file.
pub open spec fn config_file_path(asked: Option<Seq<char>>, home: Seq<char>) -> Seq<char> {
    path::joined_path(config_dir_path(asked, home), "config.toml"@)
}

pub fn config_path(asked: Option<&str>) -> (r: String)
    ensures
        exists|home: Seq<char>|
            home.len() > 0 && r@ == #[trigger] config_file_path(text::opt_str(asked), home),
{
    config_path_in(asked, home_dir().as_str())
}

pub fn config_path_in(asked: Option<&str>, home: &str) -> (r: String)
    ensures
        r@ == config_file_path(text::opt_str(asked), home@),
{
    join_path(config_dir_in(asked, home).as_str(), "config.toml")
}

/// A directory of the application's own in the user's library.
pub open spec fn library_path(home: Seq<char>, kind: Seq<char>) -> Seq<char> {
    path::joined_path(path::joined_path(path::joined_path(home, "Library"@), kind), APP_NAME@)
}

fn library_dir_in(home: &str, kind: &str) -> (r: String)
    ensures
        r@ == library_path(home@, kind@),
{
    join_path(join_path(join_path(home, "Library").as_str(), kind).as_str(), APP_NAME)
}

pub fn logs_dir() -> (r: String)
    ensures
        exists|home: Seq<char>| home.len() > 0 && r@ == #[trigger] library_path(home, "Logs"@),
{
    logs_dir_in(home_dir().as_str())
}

pub fn logs_dir_in(home: &str) -> (r: String)
    ensures
        r@ == library_path(home@, "Logs"@),
{
    library_dir_in(home, "Logs")
}

pub fn cache_dir() -> (r: String)
    ensures
        exists|home: Seq<char>| home.len() > 0 && r@ == #[trigger] library_path(home, "Caches"@),
{
    cache_dir_in(home_dir().as_str())
}

pub fn cache_dir_in(home: &str) -> (r: String)
    ensures
        r@ == library_path(home@, "Caches"@),
{
    library_dir_in(home, "Caches")
}

pub fn support_dir() -> (r: String)
    ensures
        exists|home: Seq<char>|
            home.len() > 0 && r@ == #[trigger] library_path(home, "Application Support"@),
{
    support_dir_in(home_dir().as_str())
}

pub fn support_dir_in(home: &str) -> (r: String)
    ensures
        r@ == library_path(home@, "Application Support"@),
{
    library_dir_in(home, "Application Support")
}

// ---------------------------------------------------------------------------
// The file
// ---------------------------------------------------------------------------

/// The text of the configuration file: a heading, then the settings as TOML.
pub fn file_text(settings: &str) -> (r: String)
    ensures
        r@
            == "# BucketMount configuration. Each [[mount]] is an S3 bucket mounted as a volume.\n# Docs: see README.md in the BucketMount repository.\n\n"@
            + settings@,
{
    "# BucketMount configuration. Each [[mount]] is an S3 bucket mounted as a volume.\n# Docs: see README.md in the BucketMount repository.\n\n".to_owned().concat(
        settings,
    )
}

// ---------------------------------------------------------------------------
// What holds of all paths
// ---------------------------------------------------------------------------

/// A path that is shown with `~` for the home directory is understood as the
/// same path, unless what is shown ends in white space.
pub proof fn lemma_shown_path_understood(p: Seq<char>, home: Seq<char>)
    requires
        path::absolute(p),
        path::absolute(home),
        text::trimmed(collapsed(p, home)) == collapsed(p, home),
    ensures
        path::equal_paths(expanded(collapsed(p, home), home), p),
{
    reveal_strlit("~");
    reveal_strlit("~/");
    let c = collapsed(p, home);
    match path::below(p, home) {
        Some(rest) => {
            path::lemma_below_joined(p, home);
            if rest.len() > 0 {
                assert(c.subrange(0, 2) =~= "~/"@);
                assert(c.subrange(2, c.len() as int) =~= rest);
                assert(c != "~"@) by {
                    assert(c.len() > 1);
                }
            }
        },
        None => {
            assert(c[0] == '/');
            assert("~"@[0] == '~' && "~/"@[0] == '~');
            if "~/"@.is_prefix_of(p) {
                assert(p.subrange(0, 2)[0] == p[0]);
            }
        },
    }
}

} // verus!
