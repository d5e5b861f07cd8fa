//! Signing in: which profile stands behind a mount, when its token serves, and
//! how the conversation with the service goes.

use crate::clock;
use crate::config;
use crate::config::MountModel;
use crate::ini;
use crate::json;
use crate::laws;
use crate::login;
use crate::login::{ApiError, LoginActionModel, LoginEvent, LoginModel};
use crate::path;
use crate::split;
use crate::sso;
use crate::sso::SsoModel;
use crate::text;
use vstd::prelude::*;

verus! {

// ---------------------------------------------------------------------------
// Profiles
// ---------------------------------------------------------------------------

/// The session is lost if rclone says that the token is missing, expired or
/// rejected, in one of four ways.
pub proof fn lemma_lost_sessions(stderr: Seq<char>)
    ensures
        sso::session_error(stderr) <==> laws::keeper::tells_of_lost_session(stderr),
{
}

/// A mount with inline keys has no profile. Otherwise the one that the settings
/// name comes first; then, for a remote of the user's own that finds its
/// credentials in the environment, the remote's own; then what the environment
/// asks for; then the default one. A remote that does not look in the
/// environment has none.
pub proof fn lemma_profile_of_a_mount(
    m: MountModel,
    dump: Option<Seq<u8>>,
    asked: Option<Seq<char>>,
)
    ensures
        ({
            let used = sso::used_profile(m, dump, asked);
            let remote = text::trimmed(m.rclone_remote);
            let named = text::trimmed(m.aws_profile);
            let keys = remote.len() == 0 && text::trimmed(m.access_key_id).len() > 0;
            let wanted = match asked {
                Some(p) if p.len() > 0 => p,
                _ => "default"@,
            };
            &&& keys ==> used is None
            &&& !keys && named.len() > 0 ==> used == Some(named)
            &&& !keys && named.len() == 0 && remote.len() == 0 ==> used == Some(wanted)
            &&& remote.len() > 0 && named.len() == 0 ==> match dump {
                None => used is None,
                Some(d) => {
                    let own = json::json_inner_text(d, remote, "profile"@);
                    if json::json_inner_text(d, remote, "env_auth"@) != Some("true"@) {
                        used is None
                    } else {
                        used == (match own {
                            Some(p) if p.len() > 0 => Some(p),
                            _ => Some(wanted),
                        })
                    }
                },
            }
        }),
{
}

/// A profile that names a session has the start URL, region and scopes of that
/// session, and the session's name; without scopes the usual one is asked for.
pub proof fn lemma_profile_with_session(
    profile: Seq<char>,
    sections: Map<Seq<char>, ini::Settings>,
    session: Seq<char>,
)
    requires
        profile != "default"@,
        sections.contains_key("profile "@ + profile),
        sections["profile "@ + profile].contains_key("sso_session"@),
        sections["profile "@ + profile]["sso_session"@] == session,
    ensures
        ({
            let r = sso::resolved(profile, sections);
            let name = "sso-session "@ + session;
            let s = sections[name];
            let whole = sections.contains_key(name) && s.contains_key("sso_start_url"@)
                && s.contains_key("sso_region"@);
            &&& r is Some <==> whole
            &&& r matches Some(p) ==> p.profile == profile && p.session == Some(session)
                && p.start_url == s["sso_start_url"@] && p.region == s["sso_region"@]
            &&& r matches Some(p) ==> (!s.contains_key("sso_registration_scopes"@) ==> p.scopes
                == seq!["sso:account:access"@])
            &&& r matches Some(p) ==> (s.contains_key("sso_registration_scopes"@) ==> p.scopes
                == sso::scopes_of(s["sso_registration_scopes"@]))
        }),
{
}

/// A profile without a session has its own start URL and region, and no scopes;
/// without them it is no SSO profile. The default profile stands in a section of
/// that name.
pub proof fn lemma_profile_without_session(
    profile: Seq<char>,
    sections: Map<Seq<char>, ini::Settings>,
)
    ensures
        ({
            let name = if profile == "default"@ {
                "default"@
            } else {
                "profile "@ + profile
            };
            let s = sections[name];
            let r = sso::resolved(profile, sections);
            &&& !sections.contains_key(name) ==> r is None
            &&& sections.contains_key(name) && !s.contains_key("sso_session"@) ==> {
                &&& r is Some <==> s.contains_key("sso_start_url"@) && s.contains_key(
                    "sso_region"@,
                )
                &&& r matches Some(p) ==> p == (SsoModel {
                    profile,
                    session: None,
                    start_url: s["sso_start_url"@],
                    region: s["sso_region"@],
                    scopes: Seq::empty(),
                })
            }
        }),
{
}

// ---------------------------------------------------------------------------
// Tokens
// ---------------------------------------------------------------------------

/// The token is filed under the digest of the session's name, or of the start
/// URL where there is none, in the directory where the SDK looks.
pub proof fn lemma_token_file(p: SsoModel, home: Seq<char>)
    requires
        laws::config::usual_home(home),
    ensures
        p.cache_key() == (match p.session {
            Some(s) => s,
            None => p.start_url,
        }),
        p.cache_file(home) == path::joined_path(
            home + "/.aws/sso/cache"@,
            sso::sha1_hex(p.cache_key()) + ".json"@,
        ),
{
    reveal_strlit(".aws/sso/cache");
    reveal_strlit("/.aws/sso/cache");
    assert(path::joined_path(home, ".aws/sso/cache"@) =~= home + "/.aws/sso/cache"@);
}

/// The string that stands under the key, nothing where there is none.
pub open spec fn under(token: Seq<char>, key: Seq<char>) -> Seq<char> {
    match json::json_text(token, key) {
        Some(s) => s,
        None => Seq::empty(),
    }
}

/// The time that stands under the key is later than `t`.
pub open spec fn later_than(token: Seq<char>, key: Seq<char>, t: int) -> bool {
    clock::read(under(token, key)) matches Some(x) && x > t
}

/// A token serves just when it is there and either does not expire within five
/// minutes or can be refreshed: then it comes with a refresh token and a client
/// whose registration has not expired.
pub proof fn lemma_when_a_token_serves(token: Seq<char>, now: int)
    ensures
        !sso::token_serves(None, now),
        sso::token_serves(Some(token), now) <==> {
            &&& json::json_error(token) is None
            &&& under(token, "accessToken"@).len() > 0
            &&& later_than(token, "expiresAt"@, now + 300_000_000_000) || (under(
                token,
                "refreshToken"@,
            ).len() > 0 && under(token, "clientId"@).len() > 0 && later_than(
                token,
                "registrationExpiresAt"@,
                now,
            ))
        },
{
}

/// A time with `UTC` for its zone is the same time as with `Z`, and white space
/// around a time makes no difference.
pub proof fn lemma_zones(body: Seq<char>)
    requires
        body.len() > 0,
        !text::white(body[0]),
    ensures
        clock::read(body + "UTC"@) == clock::rfc3339_time(body + "Z"@),
        clock::read(body + "Z"@) == clock::rfc3339_time(body + "Z"@),
{
    reveal_strlit("UTC");
    reveal_strlit("Z");
    let u = body + "UTC"@;
    let z = body + "Z"@;
    assert(u[0] == body[0] && u.last() == 'C' && z[0] == body[0] && z.last() == 'Z');
    assert(!text::white('C') && !text::white('Z'));
    laws::rclone::lemma_nothing_to_trim(u);
    laws::rclone::lemma_nothing_to_trim(z);
    assert("UTC"@ =~= u.subrange(u.len() - 3, u.len() as int));
    assert(u.subrange(0, u.len() - 3) =~= body);
    if "UTC"@.is_suffix_of(z) {
        assert("UTC"@ =~= z.subrange(z.len() - 3, z.len() as int));
        assert("UTC"@[2] == z.last());
    }
}

// ---------------------------------------------------------------------------
// The conversation
// ---------------------------------------------------------------------------

/// The address of the service in the profile's region.
pub open spec fn service(p: SsoModel, what: Seq<char>) -> Seq<char> {
    "https://oidc."@ + p.region + ".amazonaws.com"@ + what
}

/// The sign-in when the code was asked for with what `registered` said and
/// granted with what `authorized` said, at the time `shown_at`.
pub open spec fn with_code(
    p: SsoModel,
    registered: String,
    authorized: String,
    shown_at: u64,
) -> LoginModel {
    LoginModel::fresh(p).step(LoginEvent::Registered { reply: Ok(registered) }).login.step(
        LoginEvent::Authorized { reply: Ok(authorized), now: shown_at },
    ).login
}

/// What a reply says under the key.
pub open spec fn said(reply: String, key: Seq<char>) -> Seq<char> {
    under(reply@, key)
}

/// A client is registered under the application's and the profile's name, for
/// refresh tokens only if the profile has a session.
pub proof fn lemma_registration(p: SsoModel)
    ensures
        LoginModel::fresh(p).step(LoginEvent::Begin).action == (LoginActionModel::Register {
            url: service(p, "/client/register"@),
            body: json::json_object(
                seq![
                    ("clientName"@, "BucketMount"@ + "-"@ + p.profile),
                    ("clientType"@, "public"@),
                ],
                if p.session is Some {
                    seq![
                        ("scopes"@, p.scopes),
                        (
                            "grantTypes"@,
                            seq![
                                "urn:ietf:params:oauth:grant-type:device_code"@,
                                "refresh_token"@,
                            ],
                        ),
                    ]
                } else {
                    Seq::empty()
                },
            ),
        }),
{
}

/// A code is asked for with what the registration gave, at the profile's start
/// URL. The user is shown the code and the page that come back. Then a token is
/// asked for with what the registration gave and with the device code, and what
/// comes back is handed on as it is.
pub proof fn lemma_conversation(
    p: SsoModel,
    registered: String,
    authorized: String,
    shown_at: u64,
    now: u64,
    later: u64,
    token: String,
)
    requires
        json::json_text(registered@, "clientId"@) is Some,
        json::json_text(registered@, "clientSecret"@) is Some,
        json::json_text(authorized@, "deviceCode"@) is Some,
        json::json_text(authorized@, "userCode"@) is Some,
        json::json_text(authorized@, "verificationUriComplete"@) is Some || json::json_text(
            authorized@,
            "verificationUri"@,
        ) is Some,
    ensures
        ({
            let id = said(registered, "clientId"@);
            let secret = said(registered, "clientSecret"@);
            let first = LoginModel::fresh(p).step(LoginEvent::Registered { reply: Ok(registered) });
            let shown = first.login.step(
                LoginEvent::Authorized { reply: Ok(authorized), now: shown_at },
            );
            let l = with_code(p, registered, authorized, shown_at);
            let round = l.step(LoginEvent::Round { now, cancelled: false });
            let tick = round.login.step(LoginEvent::Tick { now: later, cancelled: false });
            let page = if json::json_text(authorized@, "verificationUriComplete"@) is Some {
                said(authorized, "verificationUriComplete"@)
            } else {
                said(authorized, "verificationUri"@)
            };
            let secs = match json::json_unsigned(authorized@, "interval"@) {
                Some(n) => if n >= 1 {
                    n as int
                } else {
                    1
                },
                None => 5,
            };
            let life = match json::json_unsigned(authorized@, "expiresIn"@) {
                Some(n) => n as int,
                None => 600,
            };
            &&& first.action == (LoginActionModel::Authorize {
                url: service(p, "/device_authorization"@),
                body: json::json_object(
                    seq![("clientId"@, id), ("clientSecret"@, secret), ("startUrl"@, p.start_url)],
                    Seq::empty(),
                ),
            })
            &&& shown.action == (LoginActionModel::ShowCode {
                code: said(authorized, "userCode"@),
                url: page,
            })
            &&& l.profile == p && l.client_id == id && l.client_secret == secret
            &&& later >= now + secs * 1_000_000_000 && later <= shown_at + life * 1_000_000_000
                ==> tick.action == (LoginActionModel::AskToken {
                url: service(p, "/token"@),
                body: json::json_object(
                    seq![
                        ("clientId"@, id),
                        ("clientSecret"@, secret),
                        ("grantType"@, "urn:ietf:params:oauth:grant-type:device_code"@),
                        ("deviceCode"@, said(authorized, "deviceCode"@)),
                    ],
                    Seq::empty(),
                ),
            })
            &&& now <= later < now + secs * 1_000_000_000 ==> tick.action == (
            LoginActionModel::Sleep { millis: 200 })
            &&& later >= now + secs * 1_000_000_000 && later > shown_at + life * 1_000_000_000
                ==> tick.action == (LoginActionModel::Fail {
                message: "The sign-in code expired before it was approved. Try again."@,
            })
            &&& tick.login.step(LoginEvent::Answered { reply: Ok(token) }).action == (
            LoginActionModel::Approved { reply: token@ })
            &&& l.registration_expires == (match json::json_signed(
                registered@,
                "clientSecretExpiresAt"@,
            ) {
                Some(t) if -377_705_116_800 <= t <= 253_402_300_799 => Some(t),
                _ => None,
            })
        }),
{
}

/// What the service refuses ends the sign-in, and the user is told in which step
/// and why; only where it asks to wait, or to wait longer, does the sign-in go
/// on.
pub proof fn lemma_refusals(l: LoginModel, e: ApiError, now: u64)
    ensures
        ({
            let failed = |o: login::LoginOutcome, message: Seq<char>|
                o.action == (LoginActionModel::Fail { message });
            let answered = l.step(LoginEvent::Answered { reply: Err(e) });
            let code = e.code@;
            &&& failed(
                l.step(LoginEvent::Registered { reply: Err(e) }),
                "register client: "@ + e.message@,
            )
            &&& failed(
                l.step(LoginEvent::Authorized { reply: Err(e), now }),
                "start sign-in: "@ + e.message@,
            )
            &&& code == "AuthorizationPendingException"@ || code == "authorization_pending"@
                ==> answered.action == LoginActionModel::Round && answered.login == l
            &&& answered.action == LoginActionModel::Round ==> code
                == "AuthorizationPendingException"@ || code == "authorization_pending"@ || code
                == "SlowDownException"@ || code == "slow_down"@
            &&& answered.action == LoginActionModel::Round || failed(
                answered,
                "Sign-in was denied in the browser."@,
            ) || failed(
                answered,
                "The sign-in code expired before it was approved. Try again."@,
            ) || failed(answered, "finish sign-in: "@ + e.message@)
        }),
{
}

/// A reply that lacks what it has to hold ends the sign-in, and the user is told
/// what is missing.
pub proof fn lemma_missing_fields(l: LoginModel, reply: String, now: u64)
    ensures
        ({
            let registered = l.step(LoginEvent::Registered { reply: Ok(reply) });
            let authorized = l.step(LoginEvent::Authorized { reply: Ok(reply), now });
            &&& json::json_text(reply@, "clientId"@) is None ==> registered.action == (
            LoginActionModel::Fail {
                message: "unexpected response from AWS: missing "@ + "clientId"@,
            })
            &&& json::json_text(reply@, "clientId"@) is Some && json::json_text(
                reply@,
                "clientSecret"@,
            ) is None ==> registered.action == (LoginActionModel::Fail {
                message: "unexpected response from AWS: missing "@ + "clientSecret"@,
            })
            &&& json::json_text(reply@, "deviceCode"@) is None ==> authorized.action == (
            LoginActionModel::Fail {
                message: "unexpected response from AWS: missing "@ + "deviceCode"@,
            })
            &&& json::json_text(reply@, "deviceCode"@) is Some && json::json_text(
                reply@,
                "userCode"@,
            ) is None ==> authorized.action == (LoginActionModel::Fail {
                message: "unexpected response from AWS: missing "@ + "userCode"@,
            })
        }),
{
}

/// A sign-in that was denied, one whose code expired and one that failed in any
/// other way are told apart.
pub proof fn lemma_why_it_failed(l: LoginModel, e: ApiError)
    ensures
        ({
            let code = e.code@;
            let said = l.step(LoginEvent::Answered { reply: Err(e) }).action;
            let goes_on = code == "AuthorizationPendingException"@ || code
                == "authorization_pending"@ || code == "SlowDownException"@ || code == "slow_down"@;
            let denied = code == "AccessDeniedException"@ || code == "access_denied"@;
            let expired = code == "ExpiredTokenException"@ || code == "expired_token"@;
            &&& denied ==> said == (LoginActionModel::Fail {
                message: "Sign-in was denied in the browser."@,
            })
            &&& expired ==> said == (LoginActionModel::Fail {
                message: "The sign-in code expired before it was approved. Try again."@,
            })
            &&& !goes_on && !denied && !expired ==> said == (LoginActionModel::Fail {
                message: "finish sign-in: "@ + e.message@,
            })
        }),
{
    reveal_strlit("AuthorizationPendingException");
    reveal_strlit("authorization_pending");
    reveal_strlit("SlowDownException");
    reveal_strlit("slow_down");
    reveal_strlit("AccessDeniedException");
    reveal_strlit("access_denied");
    reveal_strlit("ExpiredTokenException");
    reveal_strlit("expired_token");
    let code = e.code@;
    if code == "AccessDeniedException"@ {
        assert(code[0] == 'A' && code.len() == 21);
    }
    if code == "access_denied"@ {
        assert(code[0] == 'a' && code.len() == 13);
    }
    if code == "ExpiredTokenException"@ {
        assert(code[0] == 'E' && code.len() == 21);
    }
    if code == "expired_token"@ {
        assert(code[0] == 'e' && code.len() == 13);
    }
    assert("AuthorizationPendingException"@.len() == 29);
    assert("authorization_pending"@[0] == 'a' && "authorization_pending"@.len() == 21);
    assert("SlowDownException"@[0] == 'S' && "slow_down"@[0] == 's');
    assert("AccessDeniedException"@[0] == 'A' && "access_denied"@[0] == 'a');
}

/// Asked to slow down, the application asks five seconds less often from then on;
/// told that nothing was decided yet, it goes on as before. Both cost nothing else.
pub proof fn lemma_patience(l: LoginModel, e: ApiError, now: u64)
    requires
        l.interval_secs <= u64::MAX - 5,
    ensures
        ({
            let after = l.step(LoginEvent::Answered { reply: Err(e) });
            let slow = e.code@ == "SlowDownException"@ || e.code@ == "slow_down"@;
            let pending = e.code@ == "AuthorizationPendingException"@ || e.code@
                == "authorization_pending"@;
            &&& pending ==> after.action == LoginActionModel::Round && after.login == l
            &&& slow && !pending ==> after.action == LoginActionModel::Round && after.login == (
            LoginModel { interval_secs: (l.interval_secs + 5) as u64, ..l })
        }),
        l.step(LoginEvent::Round { now, cancelled: true }).login.wake == (now + l.interval_secs
            * 1_000_000_000) as u128,
        LoginModel::fresh(l.profile).interval_secs == 5,
{
}

/// What is filed of a token is, each under its own key: where and for whom it
/// was given, the token, the second at which it expires, the client and its
/// secret, and, where there are any, when the registration expires and the token
/// to refresh it with.
pub proof fn lemma_filed_token(
    l: LoginModel,
    access_token: Seq<char>,
    now: int,
    expires_in: u64,
    refresh_token: Option<Seq<char>>,
)
    ensures
        ({
            let expires = now + expires_in * 1_000_000_000;
            let f = l.token_fields(access_token, login::expiry(now, expires_in), refresh_token);
            &&& login::expiry(now, expires_in) == expires
            &&& json::last_under(f, "startUrl"@) == Some(l.profile.start_url)
            &&& json::last_under(f, "region"@) == Some(l.profile.region)
            &&& json::last_under(f, "accessToken"@) == Some(access_token)
            &&& json::last_under(f, "expiresAt"@) == Some(clock::written(expires))
            &&& json::last_under(f, "clientId"@) == Some(l.client_id)
            &&& json::last_under(f, "clientSecret"@) == Some(l.client_secret)
            &&& json::last_under(f, "refreshToken"@) == refresh_token
            &&& json::last_under(f, "registrationExpiresAt"@) == (match l.registration_expires {
                Some(t) => Some(clock::written(t * 1_000_000_000)),
                None => None,
            })
            &&& f.len() == 6 + (if l.registration_expires is Some {
                1int
            } else {
                0
            }) + (if refresh_token is Some {
                1int
            } else {
                0
            })
        }),
{
    login::lemma_token_fields(l, access_token, now + expires_in * 1_000_000_000, refresh_token);
}

/// The error of a refused request: the code that the body gives, or else what
/// stands in the header before its first colon; and a message with the HTTP
/// status, the code and what the body says.
pub proof fn lemma_error_codes(header: Seq<char>, body: Seq<char>)
    ensures
        ({
            let told = json::json_text(body, "error"@);
            &&& told matches Some(c) ==> (c.len() > 0 ==> login::error_code(
                Some(header),
                Some(body),
            ) == c)
            &&& told is None ==> login::error_code(Some(header), Some(body)) == split::pieces(
                header,
                text::Class::Only(':'),
            )[0]
            &&& login::error_code(None, None).len() == 0
            &&& login::error_code(Some(header), None) == split::pieces(
                header,
                text::Class::Only(':'),
            )[0]
            &&& json::json_text(body, "error_description"@) matches Some(d)
                ==> login::error_detail(Some(body)) == d
            &&& json::json_text(body, "error_description"@) is None ==> (json::json_text(
                body,
                "message"@,
            ) matches Some(d) ==> login::error_detail(Some(body)) == d)
            &&& login::error_detail(None).len() == 0
        }),
{
}

/// The settings of the AWS command line are read where the environment says, or
/// from the home directory.
pub proof fn lemma_where_aws_is_configured(home: Seq<char>, asked: Seq<char>)
    requires
        laws::config::usual_home(home),
    ensures
        sso::aws_config_file(None, home) == home + "/.aws/config"@,
        sso::aws_config_file(Some(asked), home) == config::expanded(asked, home),
{
    reveal_strlit(".aws/config");
    reveal_strlit("/.aws/config");
    assert(sso::aws_config_file(None, home) =~= home + "/.aws/config"@);
}

/// Scopes stand in a list with commas in between, each with or without white
/// space around it, and an empty one counts for nothing.
pub proof fn lemma_scope_by_scope(list: Seq<char>, scope: Seq<char>)
    requires
        !scope.contains(','),
    ensures
        text::trimmed(scope).len() > 0 ==> sso::scopes_of(list + seq![','] + scope)
            == sso::scopes_of(list).push(text::trimmed(scope)),
        text::trimmed(scope).len() == 0 ==> sso::scopes_of(list + seq![','] + scope)
            == sso::scopes_of(list),
        sso::scopes_of(Seq::empty()).len() == 0,
{
    let k = text::Class::Only(',');
    let trim = |x: Seq<char>| text::trimmed(x);
    let none = Seq::<char>::empty();
    assert(split::free_of(scope, k)) by {
        assert forall|i: int| 0 <= i < scope.len() implies !text::in_class(#[trigger] scope[i], k) by {
            assert(scope.contains(scope[i]));
        }
    }
    split::lemma_pieces_concat(list, ',', scope, k);
    split::lemma_one_piece(scope, k);
    let before = split::pieces(list, k).map_values(trim);
    let all = split::pieces(list + seq![','] + scope, k).map_values(trim);
    assert(all =~= before.push(text::trimmed(scope)));
    assert(all.drop_last() =~= before);
    text::lemma_trimmed_of(none, text::Class::Space);
    split::lemma_one_piece(none, k);
    let one = split::pieces(none, k).map_values(trim);
    assert(one =~= seq![none]);
    assert(one.drop_last() =~= Seq::<Seq<char>>::empty());
    reveal_with_fuel(split::non_empty, 2);
}

} // verus!
