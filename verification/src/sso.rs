//! AWS IAM Identity Center (SSO): which profile stands behind a mount, and
//! whether its cached token still serves.
//!
//! rclone's AWS SDK already turns a cached SSO token into credentials and
//! refreshes it while it can. What it cannot do is the interactive sign-in
//! once the session has fully expired; see the `login` module for that.

use crate::clock;
use crate::clock::{now_utc, parse_time};
use crate::config;
use crate::config::{CredMode, MountConfig};
use crate::ini;
use crate::ini::{parse_ini, Section};
use crate::json;
use crate::path;
use crate::path::join_path;
use crate::split;
use crate::split::{contains, drop_empty, split};
use crate::text;
use crate::text::{copy_strings, push_text, same, trim, Class};
use vstd::prelude::*;

verus! {

/// Error text used when a bucket check fails because the SSO session is gone.
pub const SESSION_EXPIRED: &'static str = "AWS SSO session expired or invalid";

/// Everything needed to sign in for one SSO profile.
#[derive(Debug, PartialEq, Eq)]
pub struct SsoProfile {
    pub profile: String,
    /// `sso_session` name for the modern config format; `None` for legacy
    /// profiles that carry `sso_start_url` themselves (no refresh tokens).
    pub session: Option<String>,
    pub start_url: String,
    pub region: String,
    pub scopes: Vec<String>,
}

/// What an `SsoProfile` says, as values.
#[verifier::ext_equal]
pub struct SsoModel {
    pub profile: Seq<char>,
    pub session: Option<Seq<char>>,
    pub start_url: Seq<char>,
    pub region: Seq<char>,
    pub scopes: Seq<Seq<char>>,
}

impl View for SsoProfile {
    type V = SsoModel;

    open spec fn view(&self) -> SsoModel {
        SsoModel {
            profile: self.profile@,
            session: text::opt_string(self.session),
            start_url: self.start_url@,
            region: self.region@,
            scopes: text::views(self.scopes@),
        }
    }
}

impl Clone for SsoProfile {
    fn clone(&self) -> (r: Self)
        ensures
            r@ == self@,
    {
        SsoProfile {
            profile: self.profile.clone(),
            session: match &self.session {
                Some(s) => Some(s.clone()),
                None => None,
            },
            start_url: self.start_url.clone(),
            region: self.region.clone(),
            scopes: copy_strings(&self.scopes),
        }
    }
}

/// The profile that may stand behind a mount.
pub open spec fn opt_profile(p: Option<SsoProfile>) -> Option<SsoModel> {
    match p {
        Some(p) => Some(p@),
        None => None,
    }
}

/// `stderr` says that the SSO token is missing, expired or rejected.
pub open spec fn session_error(stderr: Seq<char>) -> bool {
    split::has(stderr, "SSO token"@) || split::has(stderr, "SSO OIDC"@) || split::has(
        stderr,
        "InvalidGrantException"@,
    ) || split::has(stderr, "UnauthorizedException"@)
}

/// Does rclone's stderr say the SSO token is missing, expired or rejected?
pub fn is_session_error(stderr: &str) -> (r: bool)
    ensures
        r == session_error(stderr@),
{
    contains(stderr, "SSO token") || contains(stderr, "SSO OIDC") || contains(
        stderr,
        "InvalidGrantException",
    ) || contains(stderr, "UnauthorizedException")
}

// ---------------------------------------------------------------------------
// The cached token
// ---------------------------------------------------------------------------

/// The SHA-1 digest of the text, in hexadecimal digits.
pub uninterp spec fn sha1_hex(text: Seq<char>) -> Seq<char>;

/// Trusted: `sha1_smol::Sha1::from` and `digest` compute the SHA-1 digest of the
/// text's bytes, and `Digest`'s `Display` writes it as 40 characters.
#[verifier::external_body]
fn sha1(text: &str) -> (r: String)
    ensures
        r@ == sha1_hex(text@),
        r@.len() == 40,
{
    sha1_smol::Sha1::from(text).digest().to_string()
}

impl SsoModel {
    /// What the token is filed under: the session's name, or the start URL of
    /// a profile without one.
    pub open spec fn cache_key(self) -> Seq<char> {
        match self.session {
            Some(s) => s,
            None => self.start_url,
        }
    }

    pub open spec fn cache_file(self, home: Seq<char>) -> Seq<char> {
        path::joined_path(
            path::joined_path(home, ".aws/sso/cache"@),
            sha1_hex(self.cache_key()) + ".json"@,
        )
    }
}

/// The string under `key` in the cached token, nothing if there is none.
pub open spec fn cached_text(cached: Seq<char>, key: Seq<char>) -> Seq<char> {
    match json::json_text(cached, key) {
        Some(s) => s,
        None => Seq::empty(),
    }
}

/// The time under `key` in the cached token is later than `t`.
pub open spec fn cached_later(cached: Seq<char>, key: Seq<char>, t: int) -> bool {
    clock::read(cached_text(cached, key)) matches Some(x) && x > t
}

/// A token that has five minutes left.
pub open spec fn token_valid(cached: Seq<char>, now: int) -> bool {
    cached_later(cached, "expiresAt"@, now + 300 * clock::SECOND)
}

/// A token that the SDK can refresh.
pub open spec fn token_refreshable(cached: Seq<char>, now: int) -> bool {
    cached_text(cached, "refreshToken"@).len() > 0 && cached_text(cached, "clientId"@).len() > 0
        && cached_later(cached, "registrationExpiresAt"@, now)
}

/// The cached token serves: there is one, and it is valid or can be made so.
pub open spec fn token_serves(cached: Option<Seq<char>>, now: int) -> bool {
    match cached {
        Some(text) => json::json_error(text) is None && cached_text(text, "accessToken"@).len() > 0
            && (token_valid(text, now) || token_refreshable(text, now)),
        None => false,
    }
}

fn cached_string(cached: &str, key: &str) -> (r: String)
    ensures
        r@ == cached_text(cached@, key@),
{
    match json::text_at(cached, key) {
        Some(s) => s,
        None => {
            let r = String::new();
            assert(r@ =~= Seq::<char>::empty());
            r
        },
    }
}

fn is_later(cached: &str, key: &str, t: i128) -> (r: bool)
    ensures
        r == cached_later(cached@, key@, t as int),
{
    match parse_time(cached_string(cached, key).as_str()) {
        Some(x) => x > t,
        None => false,
    }
}

impl SsoProfile {
    /// Where the AWS SDKs look for this profile's token.
    pub fn cache_path(&self) -> (r: String)
        ensures
            exists|home: Seq<char>| home.len() > 0 && r@ == #[trigger] self@.cache_file(home),
    {
        self.cache_path_in(config::home_dir().as_str())
    }

    pub fn cache_path_in(&self, home: &str) -> (r: String)
        ensures
            r@ == self@.cache_file(home@),
    {
        let key = match &self.session {
            Some(s) => s.as_str(),
            None => self.start_url.as_str(),
        };
        join_path(join_path(home, ".aws/sso/cache").as_str(), sha1(key).concat(".json").as_str())
    }

    /// True when rclone cannot get credentials without a new sign-in: no
    /// token, or an expired one that cannot be refreshed. `cached` is what
    /// stands in the file at `cache_path`, if it can be read.
    pub fn needs_login(&self, cached: Option<&str>) -> (r: bool)
        ensures
            exists|now: i128|
                clock::in_calendar(now as int) && r == !#[trigger] token_serves(
                    text::opt_str(cached),
                    now as int,
                ),
    {
        needs_login_at(cached, now_utc())
    }
}

/// True when the cached token does not serve at the time `now`.
pub fn needs_login_at(cached: Option<&str>, now: i128) -> (r: bool)
    requires
        clock::in_calendar(now as int),
    ensures
        r == !token_serves(text::opt_str(cached), now as int),
{
    match cached {
        None => true,
        Some(text) => {
            if json::error_in(text).is_some() {
                return true;
            }
            if cached_string(text, "accessToken").as_str().is_empty() {
                return true;
            }
            if is_later(text, "expiresAt", now + 300 * clock::SECOND) {
                return false;
            }
            let refreshable = !cached_string(text, "refreshToken").as_str().is_empty()
                && !cached_string(text, "clientId").as_str().is_empty() && is_later(
                text,
                "registrationExpiresAt",
                now,
            );
            !refreshable
        },
    }
}

// ---------------------------------------------------------------------------
// Which profile a mount uses
// ---------------------------------------------------------------------------

/// The profile that the environment asks for.
pub open spec fn default_profile(asked: Option<Seq<char>>) -> Seq<char> {
    match asked {
        Some(p) if p.len() > 0 => p,
        _ => "default"@,
    }
}

/// The AWS profile that rclone uses for the mount: none with inline keys, else
/// the one that the settings name, else the remote's own or the default. `dump` is what `rclone config
/// dump` prints, `asked` the profile that the environment asks for.
pub open spec fn used_profile(
    m: config::MountModel,
    dump: Option<Seq<u8>>,
    asked: Option<Seq<char>>,
) -> Option<Seq<char>> {
    if m.credentials() == CredMode::Keys {
        None
    } else if !config::blank(m.aws_profile) {
        Some(text::trimmed(m.aws_profile))
    } else if m.credentials() == CredMode::EnvAuth {
        Some(default_profile(asked))
    } else {
        match dump {
            None => None,
            Some(d) => {
                let remote = text::trimmed(m.rclone_remote);
                if json::json_inner_text(d, remote, "env_auth"@) != Some("true"@) {
                    None
                } else {
                    match json::json_inner_text(d, remote, "profile"@) {
                        Some(p) if p.len() > 0 => Some(p),
                        _ => Some(default_profile(asked)),
                    }
                }
            },
        }
    }
}

fn asked_profile(asked: Option<&str>) -> (r: String)
    ensures
        r@ == default_profile(text::opt_str(asked)),
{
    match asked {
        Some(p) => if !p.is_empty() {
            return p.to_owned();
        },
        None => {},
    }
    "default".to_owned()
}

/// What `rclone config dump` printed, as a value.
pub open spec fn opt_bytes(dump: Option<&[u8]>) -> Option<Seq<u8>> {
    match dump {
        Some(d) => Some(d@),
        None => None,
    }
}

/// The AWS profile rclone will use for this mount; `None` for inline keys.
/// `dump` is what `rclone config dump` printed, if it could be run; `asked` is
/// the value of `AWS_PROFILE`.
pub fn profile_name(m: &MountConfig, dump: Option<&[u8]>, asked: Option<&str>) -> (r: Option<
    String,
>)
    ensures
        text::opt_string(r) == used_profile(m@, opt_bytes(dump), text::opt_str(asked)),
{
    let mode = m.cred_mode();
    if mode == CredMode::Keys {
        return None;
    }
    let explicit = trim(m.aws_profile.as_str());
    if !explicit.as_str().is_empty() {
        return Some(explicit);
    }
    if mode == CredMode::RcloneRemote {
        let d = match dump {
            Some(d) => d,
            None => return None,
        };
        let remote = trim(m.rclone_remote.as_str());
        match json::inner_text_at(d, remote.as_str(), "env_auth") {
            Some(e) => if !same(e.as_str(), "true") {
                return None;
            },
            None => return None,
        }
        match json::inner_text_at(d, remote.as_str(), "profile") {
            Some(p) => if !p.as_str().is_empty() {
                return Some(p);
            },
            None => {},
        }
    }
    Some(asked_profile(asked))
}

/// Where the AWS config file is: where the environment says, or at its usual
/// place below the home directory.
pub open spec fn aws_config_file(asked: Option<Seq<char>>, home: Seq<char>) -> Seq<char> {
    match asked {
        Some(p) => config::expanded(p, home),
        None => path::joined_path(home, ".aws/config"@),
    }
}

/// Where the AWS config file is; `asked` is the value of `AWS_CONFIG_FILE`.
pub fn aws_config_path(asked: Option<&str>) -> (r: String)
    ensures
        exists|home: Seq<char>|
            home.len() > 0 && r@ == #[trigger] aws_config_file(text::opt_str(asked), home),
{
    aws_config_path_in(asked, config::home_dir().as_str())
}

pub fn aws_config_path_in(asked: Option<&str>, home: &str) -> (r: String)
    ensures
        r@ == aws_config_file(text::opt_str(asked), home@),
{
    match asked {
        Some(p) => config::expand_tilde_in(p, home),
        None => join_path(home, ".aws/config"),
    }
}

/// The scopes of a list separated by commas.
pub open spec fn scopes_of(list: Seq<char>) -> Seq<Seq<char>> {
    split::non_empty(
        split::pieces(list, Class::Only(',')).map_values(|x: Seq<char>| text::trimmed(x)),
    )
}

/// The section of the AWS config file that describes a profile.
pub open spec fn profile_section(profile: Seq<char>) -> Seq<char> {
    if profile == "default"@ {
        "default"@
    } else {
        "profile "@ + profile
    }
}

/// The start URL and region in one section.
pub open spec fn sso_place(s: ini::Settings) -> Option<(Seq<char>, Seq<char>)> {
    if s.contains_key("sso_start_url"@) && s.contains_key("sso_region"@) {
        Some((s["sso_start_url"@], s["sso_region"@]))
    } else {
        None
    }
}

/// The SSO settings of `profile` in an AWS config file with these sections: in
/// a session of its own that the profile names, or else in the profile itself.
pub open spec fn resolved(
    profile: Seq<char>,
    sections: Map<Seq<char>, ini::Settings>,
) -> Option<SsoModel> {
    let section = profile_section(profile);
    if !sections.contains_key(section) {
        None
    } else if sections[section].contains_key("sso_session"@) {
        let session = sections[section]["sso_session"@];
        let s = sections["sso-session "@ + session];
        if !sections.contains_key("sso-session "@ + session) {
            None
        } else {
            match sso_place(s) {
                Some((start_url, region)) => Some(
                    SsoModel {
                        profile,
                        session: Some(session),
                        start_url,
                        region,
                        scopes: if s.contains_key("sso_registration_scopes"@) {
                            scopes_of(s["sso_registration_scopes"@])
                        } else {
                            seq!["sso:account:access"@]
                        },
                    },
                ),
                None => None,
            }
        }
    } else {
        match sso_place(sections[section]) {
            Some((start_url, region)) => Some(
                SsoModel { profile, session: None, start_url, region, scopes: Seq::empty() },
            ),
            None => None,
        }
    }
}

fn parse_scopes(list: &str) -> (r: Vec<String>)
    ensures
        text::views(r@) == scopes_of(list@),
{
    let parts = split(list, Class::Only(','));
    let ghost want = split::pieces(list@, Class::Only(',')).map_values(
        |x: Seq<char>| text::trimmed(x),
    );
    let mut trimmed: Vec<String> = Vec::new();
    let mut i: usize = 0;
    assert(text::views(trimmed@) =~= want.take(0));
    while i < parts.len()
        invariant
            i <= parts.len(),
            text::views(parts@) == split::pieces(list@, Class::Only(',')),
            want == split::pieces(list@, Class::Only(',')).map_values(
                |x: Seq<char>| text::trimmed(x),
            ),
            text::views(trimmed@) == want.take(i as int),
        decreases parts.len() - i,
    {
        assert(text::views(parts@)[i as int] == parts@[i as int]@);
        push_text(&mut trimmed, trim(parts[i].as_str()).as_str());
        assert(want.take(i + 1) =~= want.take(i as int).push(want[i as int]));
        i = i + 1;
    }
    assert(want.take(want.len() as int) =~= want);
    drop_empty(&trimmed)
}

fn read_place(s: &Section) -> (r: Option<(String, String)>)
    requires
        s.wf(),
    ensures
        match r {
            Some(p) => sso_place(s.settings()) == Some((p.0@, p.1@)),
            None => sso_place(s.settings()) is None,
        },
{
    match (s.get("sso_start_url"), s.get("sso_region")) {
        (Some(start_url), Some(region)) => Some((start_url.clone(), region.clone())),
        _ => None,
    }
}

/// Look `profile` up in the AWS config file and return its SSO settings.
/// `config` is what stands in that file, if it can be read.
pub fn resolve(profile: &str, config: Option<&str>) -> (r: Option<SsoProfile>)
    ensures
        opt_profile(r) == (match config {
            Some(text) => resolved(profile@, ini::sections_of(text@)),
            None => None,
        }),
{
    let sections = match config {
        Some(text) => parse_ini(text),
        None => return None,
    };
    let section = if same(profile, "default") {
        "default".to_owned()
    } else {
        "profile ".to_owned().concat(profile)
    };
    let p = match sections.get(section.as_str()) {
        Some(p) => p,
        None => return None,
    };
    match p.get("sso_session") {
        Some(session) => {
            let name = "sso-session ".to_owned().concat(session.as_str());
            let s = match sections.get(name.as_str()) {
                Some(s) => s,
                None => return None,
            };
            let scopes = match s.get("sso_registration_scopes") {
                Some(list) => parse_scopes(list.as_str()),
                None => {
                    let mut one: Vec<String> = Vec::new();
                    assert(text::views(one@) =~= Seq::<Seq<char>>::empty());
                    push_text(&mut one, "sso:account:access");
                    one
                },
            };
            match read_place(s) {
                Some((start_url, region)) => Some(
                    SsoProfile {
                        profile: profile.to_owned(),
                        session: Some(session.clone()),
                        start_url,
                        region,
                        scopes,
                    },
                ),
                None => None,
            }
        },
        None => match read_place(p) {
            Some((start_url, region)) => {
                let scopes: Vec<String> = Vec::new();
                assert(text::views(scopes@) =~= Seq::<Seq<char>>::empty());
                Some(
                    SsoProfile {
                        profile: profile.to_owned(),
                        session: None,
                        start_url,
                        region,
                        scopes,
                    },
                )
            },
            None => None,
        },
    }
}

/// The SSO profile behind a mount, if its credentials come from one. `dump` is
/// what `rclone config dump` printed, `asked` the value of `AWS_PROFILE`, and
/// `config` what stands in the AWS config file.
pub fn for_mount(
    m: &MountConfig,
    dump: Option<&[u8]>,
    asked: Option<&str>,
    config: Option<&str>,
) -> (r: Option<SsoProfile>)
    ensures
        opt_profile(r) == (match (
            used_profile(m@, opt_bytes(dump), text::opt_str(asked)),
            config,
        ) {
            (Some(profile), Some(text)) => resolved(profile, ini::sections_of(text@)),
            _ => None,
        }),
{
    match profile_name(m, dump, asked) {
        Some(profile) => resolve(profile.as_str(), config),
        None => None,
    }
}

/// A mount with inline keys has no SSO profile behind it, whatever its other
/// settings, the files and the environment say.
pub proof fn lemma_keys_need_no_profile(
    m: config::MountModel,
    dump: Option<Seq<u8>>,
    asked: Option<Seq<char>>,
)
    requires
        m.credentials() == CredMode::Keys,
    ensures
        used_profile(m, dump, asked) is None,
{
}

} // verus!
