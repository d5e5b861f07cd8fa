//! The interactive sign-in to AWS IAM Identity Center: the OIDC device
//! authorization flow (the same one `aws sso login` uses), and the token that
//! is filed where the SDK looks for it.

use crate::clock;
use crate::clock::{format_time, now_utc};
use crate::config;
use crate::json;
use crate::json::{object_text, push_list, push_pair};
use crate::number;
use crate::number::decimal_string;
use crate::split;
use crate::split::split;
use crate::sso;
use crate::sso::{SsoModel, SsoProfile};
use crate::text;
use crate::text::{copy_strings, push_text, same, trim, Class};
use vstd::prelude::*;

verus! {

pub const DEVICE_GRANT: &'static str = "urn:ietf:params:oauth:grant-type:device_code";

pub const CODE_EXPIRED: &'static str =
    "The sign-in code expired before it was approved. Try again.";

// ---------------------------------------------------------------------------
// Replies
// ---------------------------------------------------------------------------

/// Why a request failed. Errors carry the service's error code (e.g.
/// `AuthorizationPendingException`) so that the sign-in can branch on it.
#[derive(Debug)]
pub struct ApiError {
    pub code: String,
    pub message: String,
}

/// What an `ApiError` says, as values.
#[verifier::ext_equal]
pub struct ApiErrorModel {
    pub code: Seq<char>,
    pub message: Seq<char>,
}

impl View for ApiError {
    type V = ApiErrorModel;

    open spec fn view(&self) -> ApiErrorModel {
        ApiErrorModel { code: self.code@, message: self.message@ }
    }
}

/// The string under `key` of the body of a reply.
pub open spec fn body_text(body: Option<Seq<char>>, key: Seq<char>) -> Option<Seq<char>> {
    match body {
        Some(text) => json::json_text(text, key),
        None => None,
    }
}

/// The error code: the one in the body, if there is one that is not empty, or
/// what stands before the first colon in the header.
pub open spec fn error_code(error_type: Option<Seq<char>>, body: Option<Seq<char>>) -> Seq<char> {
    match body_text(body, "error"@) {
        Some(code) if code.len() > 0 => code,
        _ => match error_type {
            Some(header) => split::pieces(header, Class::Only(':'))[0],
            None => Seq::empty(),
        },
    }
}

/// What the body says of the error.
pub open spec fn error_detail(body: Option<Seq<char>>) -> Seq<char> {
    match body_text(body, "error_description"@) {
        Some(d) => d,
        None => match body_text(body, "message"@) {
            Some(m) => m,
            None => Seq::empty(),
        },
    }
}

fn text_in(body: Option<&str>, key: &str) -> (r: Option<String>)
    ensures
        text::opt_string(r) == body_text(text::opt_str(body), key@),
{
    match body {
        Some(text) => json::text_at(text, key),
        None => None,
    }
}

fn empty() -> (r: String)
    ensures
        r@ == Seq::<char>::empty(),
{
    let r = String::new();
    assert(r@ =~= Seq::<char>::empty());
    r
}

/// The error that a reply with the HTTP status `status` means. `error_type` is
/// its header `x-amzn-ErrorType`, `body` its body, if that is JSON.
pub fn api_error(status: u16, error_type: Option<&str>, body: Option<&str>) -> (r: ApiError)
    ensures
        r@ == (ApiErrorModel {
            code: error_code(text::opt_str(error_type), text::opt_str(body)),
            message: text::trimmed(
                "HTTP "@ + number::decimal(status as nat) + " "@ + error_code(
                    text::opt_str(error_type),
                    text::opt_str(body),
                ) + " "@ + error_detail(text::opt_str(body)),
            ),
        }),
{
    let header = match error_type {
        Some(h) => {
            let parts = split(h, Class::Only(':'));
            assert(text::views(parts@)[0] == parts@[0]@);
            parts[0].clone()
        },
        None => empty(),
    };
    let code = match text_in(body, "error") {
        Some(code) => if code.as_str().is_empty() {
            header
        } else {
            code
        },
        None => header,
    };
    let detail = match text_in(body, "error_description") {
        Some(d) => d,
        None => match text_in(body, "message") {
            Some(m) => m,
            None => empty(),
        },
    };
    let message = "HTTP ".to_owned().concat(decimal_string(status as u64).as_str()).concat(
        " ",
    ).concat(code.as_str()).concat(" ").concat(detail.as_str());
    ApiError { code, message: trim(message.as_str()) }
}

/// The string that a reply has to have under `key`, or the message that it is
/// missing.
pub open spec fn required_text(reply: Seq<char>, key: Seq<char>) -> Result<Seq<char>, Seq<char>> {
    match json::json_text(reply, key) {
        Some(s) => Ok(s),
        None => Err("unexpected response from AWS: missing "@ + key),
    }
}

/// A result of strings, as values.
pub open spec fn result_view(r: Result<String, String>) -> Result<Seq<char>, Seq<char>> {
    match r {
        Ok(s) => Ok(s@),
        Err(e) => Err(e@),
    }
}

pub fn field(reply: &str, key: &str) -> (r: Result<String, String>)
    ensures
        result_view(r) == required_text(reply@, key@),
{
    match json::text_at(reply, key) {
        Some(s) => Ok(s),
        None => Err("unexpected response from AWS: missing ".to_owned().concat(key)),
    }
}

// ---------------------------------------------------------------------------
// What happens, and what is to be done
// ---------------------------------------------------------------------------

#[derive(Debug)]
pub enum LoginEvent {
    Begin,
    /// The reply to the registration of the client.
    Registered { reply: Result<String, ApiError> },
    /// The reply to the request for a code.
    Authorized { reply: Result<String, ApiError>, now: u64 },
    /// A round of waiting begins.
    Round { now: u64, cancelled: bool },
    /// The wait goes on.
    Tick { now: u64, cancelled: bool },
    /// The reply to the request for a token.
    Answered { reply: Result<String, ApiError> },
}

/// What is to be done next. Whatever it is, what comes of it is the next
/// event.
#[derive(Debug)]
pub enum LoginAction {
    /// Post the JSON `body` to `url` to register a client.
    Register { url: String, body: String },
    /// Post the JSON `body` to `url` to get a code.
    Authorize { url: String, body: String },
    /// Show the user the code and the page on which to approve it, then begin
    /// a round of waiting.
    ShowCode { code: String, url: String },
    /// Begin a round of waiting.
    Round,
    /// Go on waiting after this many milliseconds.
    Sleep { millis: u64 },
    /// Post the JSON `body` to `url` to get a token.
    AskToken { url: String, body: String },
    /// Sign-in was approved: file the token in this reply.
    Approved { reply: String },
    /// Sign-in has failed.
    Fail { message: String },
}

/// What a `LoginAction` says, as a value.
pub enum LoginActionModel {
    Register { url: Seq<char>, body: Seq<char> },
    Authorize { url: Seq<char>, body: Seq<char> },
    ShowCode { code: Seq<char>, url: Seq<char> },
    Round,
    Sleep { millis: u64 },
    AskToken { url: Seq<char>, body: Seq<char> },
    Approved { reply: Seq<char> },
    Fail { message: Seq<char> },
}

impl View for LoginAction {
    type V = LoginActionModel;

    open spec fn view(&self) -> LoginActionModel {
        match self {
            LoginAction::Register { url, body } => LoginActionModel::Register {
                url: url@,
                body: body@,
            },
            LoginAction::Authorize { url, body } => LoginActionModel::Authorize {
                url: url@,
                body: body@,
            },
            LoginAction::ShowCode { code, url } => LoginActionModel::ShowCode {
                code: code@,
                url: url@,
            },
            LoginAction::Round => LoginActionModel::Round,
            LoginAction::Sleep { millis } => LoginActionModel::Sleep { millis: *millis },
            LoginAction::AskToken { url, body } => LoginActionModel::AskToken {
                url: url@,
                body: body@,
            },
            LoginAction::Approved { reply } => LoginActionModel::Approved { reply: reply@ },
            LoginAction::Fail { message } => LoginActionModel::Fail { message: message@ },
        }
    }
}

// ---------------------------------------------------------------------------
// What a sign-in remembers
// ---------------------------------------------------------------------------

#[derive(Debug)]
pub struct Login {
    pub profile: SsoProfile,
    pub client_id: String,
    pub client_secret: String,
    /// When the client's registration expires, in seconds after the start of
    /// 1970.
    pub registration_expires: Option<i64>,
    pub device_code: String,
    /// The time between two requests for a token, in seconds.
    pub interval_secs: u64,
    /// When the code expires.
    pub deadline: u128,
    /// When the next request for a token is due.
    pub wake: u128,
}

/// What a `Login` says, as values.
#[verifier::ext_equal]
pub struct LoginModel {
    pub profile: SsoModel,
    pub client_id: Seq<char>,
    pub client_secret: Seq<char>,
    pub registration_expires: Option<i64>,
    pub device_code: Seq<char>,
    pub interval_secs: u64,
    pub deadline: u128,
    pub wake: u128,
}

impl View for Login {
    type V = LoginModel;

    open spec fn view(&self) -> LoginModel {
        LoginModel {
            profile: self.profile@,
            client_id: self.client_id@,
            client_secret: self.client_secret@,
            registration_expires: self.registration_expires,
            device_code: self.device_code@,
            interval_secs: self.interval_secs,
            deadline: self.deadline,
            wake: self.wake,
        }
    }
}

/// The sign-in and what is to be done after one event.
#[verifier::ext_equal]
pub struct LoginOutcome {
    pub login: LoginModel,
    pub action: LoginActionModel,
}

/// The service's address for requests of one kind.
pub open spec fn endpoint(region: Seq<char>, what: Seq<char>) -> Seq<char> {
    "https://oidc."@ + region + ".amazonaws.com"@ + what
}

/// The time at which a registration expires, if it can be represented.
pub open spec fn representable(t: Option<i64>) -> Option<i64> {
    match t {
        Some(t) if clock::FIRST_SECOND <= t <= clock::LAST_SECOND => Some(t),
        _ => None,
    }
}

/// The page on which the code is to be approved.
pub open spec fn verification_url(reply: Seq<char>) -> Option<Seq<char>> {
    match json::json_text(reply, "verificationUriComplete"@) {
        Some(u) => Some(u),
        None => json::json_text(reply, "verificationUri"@),
    }
}

/// The number under `key` of a reply, or `otherwise`.
pub open spec fn number_or(reply: Seq<char>, key: Seq<char>, otherwise: u64) -> u64 {
    match json::json_unsigned(reply, key) {
        Some(n) => n,
        None => otherwise,
    }
}

pub open spec fn is_pending(code: Seq<char>) -> bool {
    code == "AuthorizationPendingException"@ || code == "authorization_pending"@
}

pub open spec fn is_slow_down(code: Seq<char>) -> bool {
    code == "SlowDownException"@ || code == "slow_down"@
}

pub open spec fn is_denied(code: Seq<char>) -> bool {
    code == "AccessDeniedException"@ || code == "access_denied"@
}

pub open spec fn is_expired(code: Seq<char>) -> bool {
    code == "ExpiredTokenException"@ || code == "expired_token"@
}

impl SsoModel {
    /// The JSON that registers a client for this profile. Refresh tokens are
    /// only issued to clients registered for them.
    pub open spec fn registration(self) -> Seq<char> {
        json::json_object(
            seq![
                ("clientName"@, config::APP_NAME@ + "-"@ + self.profile),
                ("clientType"@, "public"@),
            ],
            if self.session is Some {
                seq![
                    ("scopes"@, self.scopes),
                    ("grantTypes"@, seq![DEVICE_GRANT@, "refresh_token"@]),
                ]
            } else {
                Seq::empty()
            },
        )
    }
}

impl LoginModel {
    pub open spec fn fresh(profile: SsoModel) -> LoginModel {
        LoginModel {
            profile,
            client_id: Seq::empty(),
            client_secret: Seq::empty(),
            registration_expires: None,
            device_code: Seq::empty(),
            interval_secs: 5,
            deadline: 0,
            wake: 0,
        }
    }

    pub open spec fn doing(self, action: LoginActionModel) -> LoginOutcome {
        LoginOutcome { login: self, action }
    }

    pub open spec fn failing(self, message: Seq<char>) -> LoginOutcome {
        self.doing(LoginActionModel::Fail { message })
    }

    /// The JSON that asks for a code.
    pub open spec fn code_request(self) -> Seq<char> {
        json::json_object(
            seq![
                ("clientId"@, self.client_id),
                ("clientSecret"@, self.client_secret),
                ("startUrl"@, self.profile.start_url),
            ],
            Seq::empty(),
        )
    }

    /// The JSON that asks for a token.
    pub open spec fn token_request(self) -> Seq<char> {
        json::json_object(
            seq![
                ("clientId"@, self.client_id),
                ("clientSecret"@, self.client_secret),
                ("grantType"@, DEVICE_GRANT@),
                ("deviceCode"@, self.device_code),
            ],
            Seq::empty(),
        )
    }

    pub open spec fn on_registered(self, reply: Result<String, ApiError>) -> LoginOutcome {
        match reply {
            Err(e) => self.failing("register client: "@ + e.message@),
            Ok(text) => match (
                required_text(text@, "clientId"@),
                required_text(text@, "clientSecret"@),
            ) {
                (Err(e), _) => self.failing(e),
                (_, Err(e)) => self.failing(e),
                (Ok(client_id), Ok(client_secret)) => {
                    let s = LoginModel {
                        client_id,
                        client_secret,
                        registration_expires: representable(
                            json::json_signed(text@, "clientSecretExpiresAt"@),
                        ),
                        ..self
                    };
                    s.doing(
                        LoginActionModel::Authorize {
                            url: endpoint(self.profile.region, "/device_authorization"@),
                            body: s.code_request(),
                        },
                    )
                },
            },
        }
    }

    pub open spec fn on_authorized(self, reply: Result<String, ApiError>, now: u64) -> LoginOutcome {
        match reply {
            Err(e) => self.failing("start sign-in: "@ + e.message@),
            Ok(text) => match (
                required_text(text@, "deviceCode"@),
                required_text(text@, "userCode"@),
                verification_url(text@),
            ) {
                (Err(e), _, _) => self.failing(e),
                (_, Err(e), _) => self.failing(e),
                (_, _, None) => self.failing("start sign-in: no verification URL in response"@),
                (Ok(device_code), Ok(code), Some(url)) => {
                    let wish = number_or(text@, "interval"@, 5);
                    LoginModel {
                        device_code,
                        interval_secs: if wish == 0 {
                            1
                        } else {
                            wish
                        },
                        deadline: (now + number_or(text@, "expiresIn"@, 600) * 1_000_000_000) as u128,
                        ..self
                    }.doing(LoginActionModel::ShowCode { code, url })
                },
            },
        }
    }

    pub open spec fn on_tick(self, now: u64, cancelled: bool) -> LoginOutcome {
        if now < self.wake {
            if cancelled {
                self.failing("Sign-in cancelled"@)
            } else {
                self.doing(LoginActionModel::Sleep { millis: 200 })
            }
        } else if now > self.deadline {
            self.failing(CODE_EXPIRED@)
        } else {
            self.doing(
                LoginActionModel::AskToken {
                    url: endpoint(self.profile.region, "/token"@),
                    body: self.token_request(),
                },
            )
        }
    }

    /// The next request for a token is due after the interval.
    pub open spec fn rounding(self, now: u64) -> LoginModel {
        LoginModel { wake: (now + self.interval_secs * 1_000_000_000) as u128, ..self }
    }

    pub open spec fn slower(self) -> LoginModel {
        LoginModel {
            interval_secs: if self.interval_secs <= u64::MAX - 5 {
                (self.interval_secs + 5) as u64
            } else {
                self.interval_secs
            },
            ..self
        }
    }

    pub open spec fn on_answered(self, reply: Result<String, ApiError>) -> LoginOutcome {
        match reply {
            Ok(text) => self.doing(LoginActionModel::Approved { reply: text@ }),
            Err(e) => if is_pending(e.code@) {
                self.doing(LoginActionModel::Round)
            } else if is_slow_down(e.code@) {
                self.slower().doing(LoginActionModel::Round)
            } else if is_denied(e.code@) {
                self.failing("Sign-in was denied in the browser."@)
            } else if is_expired(e.code@) {
                self.failing(CODE_EXPIRED@)
            } else {
                self.failing("finish sign-in: "@ + e.message@)
            },
        }
    }

    /// What one event does.
    pub open spec fn step(self, event: LoginEvent) -> LoginOutcome {
        match event {
            LoginEvent::Begin => self.doing(
                LoginActionModel::Register {
                    url: endpoint(self.profile.region, "/client/register"@),
                    body: self.profile.registration(),
                },
            ),
            LoginEvent::Registered { reply } => self.on_registered(reply),
            LoginEvent::Authorized { reply, now } => self.on_authorized(reply, now),
            LoginEvent::Round { now, cancelled } => self.rounding(now).on_tick(now, cancelled),
            LoginEvent::Tick { now, cancelled } => self.on_tick(now, cancelled),
            LoginEvent::Answered { reply } => self.on_answered(reply),
        }
    }
}

fn no_pairs() -> (r: Vec<(String, String)>)
    ensures
        json::pairs(r@) == Seq::<(Seq<char>, Seq<char>)>::empty(),
        r@.len() == 0,
{
    let r: Vec<(String, String)> = Vec::new();
    assert(json::pairs(r@) =~= Seq::<(Seq<char>, Seq<char>)>::empty());
    r
}

fn no_lists() -> (r: Vec<(String, Vec<String>)>)
    ensures
        json::named_lists(r@) == Seq::<(Seq<char>, Seq<Seq<char>>)>::empty(),
        r@.len() == 0,
{
    let r: Vec<(String, Vec<String>)> = Vec::new();
    assert(json::named_lists(r@) =~= Seq::<(Seq<char>, Seq<Seq<char>>)>::empty());
    r
}

fn url_for(region: &str, what: &str) -> (r: String)
    ensures
        r@ == endpoint(region@, what@),
{
    "https://oidc.".to_owned().concat(region).concat(".amazonaws.com").concat(what)
}

fn fail(message: &str) -> (r: LoginAction)
    ensures
        r@ == (LoginActionModel::Fail { message: message@ }),
{
    LoginAction::Fail { message: message.to_owned() }
}

impl Login {
    /// Everything that a sign-in for the profile begins with.
    pub fn new(profile: &SsoProfile) -> (r: Self)
        ensures
            r@ == LoginModel::fresh(profile@),
            r@.wf(),
    {
        Login {
            profile: profile.clone(),
            client_id: empty(),
            client_secret: empty(),
            registration_expires: None,
            device_code: empty(),
            interval_secs: 5,
            deadline: 0,
            wake: 0,
        }
    }

    fn registration(&self) -> (r: String)
        ensures
            r@ == self@.profile.registration(),
    {
        let mut texts = no_pairs();
        push_pair(
            &mut texts,
            "clientName",
            config::APP_NAME.to_owned().concat("-").concat(self.profile.profile.as_str()).as_str(),
        );
        push_pair(&mut texts, "clientType", "public");
        let mut lists = no_lists();
        if self.profile.session.is_some() {
            push_list(&mut lists, "scopes", copy_strings(&self.profile.scopes));
            let mut grants: Vec<String> = Vec::new();
            assert(text::views(grants@) =~= Seq::<Seq<char>>::empty());
            push_text(&mut grants, DEVICE_GRANT);
            push_text(&mut grants, "refresh_token");
            assert(text::views(grants@) =~= seq![DEVICE_GRANT@, "refresh_token"@]);
            push_list(&mut lists, "grantTypes", grants);
            assert(json::named_lists(lists@) =~= seq![
                ("scopes"@, self@.profile.scopes),
                ("grantTypes"@, seq![DEVICE_GRANT@, "refresh_token"@]),
            ]);
        }
        assert(json::pairs(texts@) =~= seq![
            ("clientName"@, config::APP_NAME@ + "-"@ + self@.profile.profile),
            ("clientType"@, "public"@),
        ]);
        object_text(&texts, &lists)
    }

    fn code_request(&self) -> (r: String)
        ensures
            r@ == self@.code_request(),
    {
        let mut texts = no_pairs();
        push_pair(&mut texts, "clientId", self.client_id.as_str());
        push_pair(&mut texts, "clientSecret", self.client_secret.as_str());
        push_pair(&mut texts, "startUrl", self.profile.start_url.as_str());
        assert(json::pairs(texts@) =~= seq![
            ("clientId"@, self@.client_id),
            ("clientSecret"@, self@.client_secret),
            ("startUrl"@, self@.profile.start_url),
        ]);
        object_text(&texts, &no_lists())
    }

    fn token_request(&self) -> (r: String)
        ensures
            r@ == self@.token_request(),
    {
        let mut texts = no_pairs();
        push_pair(&mut texts, "clientId", self.client_id.as_str());
        push_pair(&mut texts, "clientSecret", self.client_secret.as_str());
        push_pair(&mut texts, "grantType", DEVICE_GRANT);
        push_pair(&mut texts, "deviceCode", self.device_code.as_str());
        assert(json::pairs(texts@) =~= seq![
            ("clientId"@, self@.client_id),
            ("clientSecret"@, self@.client_secret),
            ("grantType"@, DEVICE_GRANT@),
            ("deviceCode"@, self@.device_code),
        ]);
        object_text(&texts, &no_lists())
    }

    fn registered(&mut self, reply: Result<String, ApiError>) -> (r: LoginAction)
        ensures
            (LoginOutcome { login: final(self)@, action: r@ }) == old(self)@.on_registered(reply),
    {
        let text = match reply {
            Ok(text) => text,
            Err(e) => return fail(
                "register client: ".to_owned().concat(e.message.as_str()).as_str(),
            ),
        };
        let client_id = match field(text.as_str(), "clientId") {
            Ok(s) => s,
            Err(e) => return fail(e.as_str()),
        };
        let client_secret = match field(text.as_str(), "clientSecret") {
            Ok(s) => s,
            Err(e) => return fail(e.as_str()),
        };
        self.client_id = client_id;
        self.client_secret = client_secret;
        self.registration_expires = match json::signed_at(text.as_str(), "clientSecretExpiresAt") {
            Some(t) => if clock::FIRST_SECOND <= t as i128 && t as i128 <= clock::LAST_SECOND {
                Some(t)
            } else {
                None
            },
            None => None,
        };
        LoginAction::Authorize {
            url: url_for(self.profile.region.as_str(), "/device_authorization"),
            body: self.code_request(),
        }
    }

    fn authorized(&mut self, reply: Result<String, ApiError>, now: u64) -> (r: LoginAction)
        ensures
            (LoginOutcome { login: final(self)@, action: r@ }) == old(self)@.on_authorized(
                reply,
                now,
            ),
    {
        let text = match reply {
            Ok(text) => text,
            Err(e) => return fail("start sign-in: ".to_owned().concat(e.message.as_str()).as_str()),
        };
        let text = text.as_str();
        let device_code = match field(text, "deviceCode") {
            Ok(s) => s,
            Err(e) => return fail(e.as_str()),
        };
        let code = match field(text, "userCode") {
            Ok(s) => s,
            Err(e) => return fail(e.as_str()),
        };
        let url = match json::text_at(text, "verificationUriComplete") {
            Some(u) => u,
            None => match json::text_at(text, "verificationUri") {
                Some(u) => u,
                None => return fail("start sign-in: no verification URL in response"),
            },
        };
        let wish: u64 = match json::unsigned_at(text, "interval") {
            Some(n) => n,
            None => 5,
        };
        let lifetime: u64 = match json::unsigned_at(text, "expiresIn") {
            Some(n) => n,
            None => 600,
        };
        self.device_code = device_code;
        self.interval_secs = if wish == 0 {
            1
        } else {
            wish
        };
        self.deadline = now as u128 + lifetime as u128 * 1_000_000_000;
        LoginAction::ShowCode { code, url }
    }

    fn tick(&self, now: u64, cancelled: bool) -> (r: LoginAction)
        ensures
            (LoginOutcome { login: self@, action: r@ }) == self@.on_tick(now, cancelled),
    {
        if (now as u128) < self.wake {
            if cancelled {
                fail("Sign-in cancelled")
            } else {
                LoginAction::Sleep { millis: 200 }
            }
        } else if now as u128 > self.deadline {
            fail(CODE_EXPIRED)
        } else {
            LoginAction::AskToken {
                url: url_for(self.profile.region.as_str(), "/token"),
                body: self.token_request(),
            }
        }
    }

    fn answered(&mut self, reply: Result<String, ApiError>) -> (r: LoginAction)
        ensures
            (LoginOutcome { login: final(self)@, action: r@ }) == old(self)@.on_answered(reply),
    {
        match reply {
            Ok(text) => LoginAction::Approved { reply: text },
            Err(e) => {
                let code = e.code.as_str();
                if same(code, "AuthorizationPendingException") || same(
                    code,
                    "authorization_pending",
                ) {
                    LoginAction::Round
                } else if same(code, "SlowDownException") || same(code, "slow_down") {
                    if self.interval_secs <= u64::MAX - 5 {
                        self.interval_secs = self.interval_secs + 5;
                    }
                    LoginAction::Round
                } else if same(code, "AccessDeniedException") || same(code, "access_denied") {
                    fail("Sign-in was denied in the browser.")
                } else if same(code, "ExpiredTokenException") || same(code, "expired_token") {
                    fail(CODE_EXPIRED)
                } else {
                    fail("finish sign-in: ".to_owned().concat(e.message.as_str()).as_str())
                }
            },
        }
    }

    /// Takes in one event, and says what is to be done next. The sign-in ends
    /// when the user approves, the code expires, or it is cancelled.
    pub fn next(&mut self, event: LoginEvent) -> (r: LoginAction)
        ensures
            (LoginOutcome { login: final(self)@, action: r@ }) == old(self)@.step(event),
            old(self)@.wf() ==> final(self)@.wf(),
    {
        match event {
            LoginEvent::Begin => LoginAction::Register {
                url: url_for(self.profile.region.as_str(), "/client/register"),
                body: self.registration(),
            },
            LoginEvent::Registered { reply } => self.registered(reply),
            LoginEvent::Authorized { reply, now } => self.authorized(reply, now),
            LoginEvent::Round { now, cancelled } => {
                self.wake = now as u128 + self.interval_secs as u128 * 1_000_000_000;
                self.tick(now, cancelled)
            },
            LoginEvent::Tick { now, cancelled } => self.tick(now, cancelled),
            LoginEvent::Answered { reply } => self.answered(reply),
        }
    }
}

// ---------------------------------------------------------------------------
// The token
// ---------------------------------------------------------------------------

/// What a token's reply says.
#[derive(Debug)]
pub struct TokenReply {
    pub access_token: Option<String>,
    /// How long it is valid, in seconds.
    pub expires_in: u64,
    pub refresh_token: Option<String>,
}

/// What the reply with a token says.
pub fn read_token(reply: &str) -> (r: TokenReply)
    ensures
        text::opt_string(r.access_token) == json::json_text(reply@, "accessToken"@),
        r.expires_in == number_or(reply@, "expiresIn"@, 3600),
        text::opt_string(r.refresh_token) == json::json_text(reply@, "refreshToken"@),
{
    TokenReply {
        access_token: json::text_at(reply, "accessToken"),
        expires_in: match json::unsigned_at(reply, "expiresIn") {
            Some(n) => n,
            None => 3600,
        },
        refresh_token: json::text_at(reply, "refreshToken"),
    }
}

/// When a token that is valid for `expires_in` seconds from `now` on expires.
pub open spec fn expiry(now: int, expires_in: u64) -> int {
    now + expires_in * clock::SECOND
}

impl LoginModel {
    /// What is filed of a token.
    pub open spec fn token_fields(
        self,
        access_token: Seq<char>,
        expires: int,
        refresh_token: Option<Seq<char>>,
    ) -> Seq<(Seq<char>, Seq<char>)> {
        let always = seq![
            ("startUrl"@, self.profile.start_url),
            ("region"@, self.profile.region),
            ("accessToken"@, access_token),
            ("expiresAt"@, clock::written(expires)),
            ("clientId"@, self.client_id),
            ("clientSecret"@, self.client_secret),
        ];
        let registered = match self.registration_expires {
            Some(t) => always.push(
                ("registrationExpiresAt"@, clock::written(t * clock::SECOND)),
            ),
            None => always,
        };
        match refresh_token {
            Some(r) => registered.push(("refreshToken"@, r)),
            None => registered,
        }
    }

    /// The registration is that of a time that can be represented.
    pub open spec fn wf(self) -> bool {
        self.registration_expires matches Some(t) ==> clock::FIRST_SECOND <= t <= clock::LAST_SECOND
    }

    /// A token that the SDK can refresh until the registration expires.
    pub open spec fn refreshes(self, refresh_token: Option<Seq<char>>, until: int) -> bool {
        &&& refresh_token matches Some(r) && r.len() > 0
        &&& self.client_id.len() > 0
        &&& self.registration_expires matches Some(t) && clock::FIRST_WRITTEN_SECOND <= t && until
            < t * clock::SECOND
    }
}

impl LoginModel {
    /// The filed token serves until five minutes before it expires, and until
    /// the client's registration expires if it can be refreshed.
    pub open spec fn keeps_serving(
        self,
        access_token: Seq<char>,
        expires: int,
        refresh_token: Option<Seq<char>>,
        text: Seq<char>,
    ) -> bool {
        access_token.len() > 0 ==> forall|later: int|
            #![trigger sso::token_serves(Some(text), later)]
            (clock::FIRST_WRITTEN_SECOND <= clock::whole_seconds(expires) && later + 300
                * clock::SECOND < clock::whole_seconds(expires) * clock::SECOND) || self.refreshes(
                refresh_token,
                later,
            ) ==> sso::token_serves(Some(text), later)
    }
}

/// What stands under the keys of a filed token.
pub proof fn lemma_token_fields(
    s: LoginModel,
    access_token: Seq<char>,
    expires: int,
    refresh_token: Option<Seq<char>>,
)
    ensures
        ({
            let f = s.token_fields(access_token, expires, refresh_token);
            &&& json::last_under(f, "accessToken"@) == Some(access_token)
            &&& json::last_under(f, "expiresAt"@) == Some(clock::written(expires))
            &&& json::last_under(f, "clientId"@) == Some(s.client_id)
            &&& json::last_under(f, "clientSecret"@) == Some(s.client_secret)
            &&& json::last_under(f, "startUrl"@) == Some(s.profile.start_url)
            &&& json::last_under(f, "region"@) == Some(s.profile.region)
            &&& json::last_under(f, "refreshToken"@) == refresh_token
            &&& json::last_under(f, "registrationExpiresAt"@) == (match s.registration_expires {
                Some(t) => Some(clock::written(t * clock::SECOND)),
                None => None,
            })
        }),
{
    reveal_strlit("startUrl");
    reveal_strlit("region");
    reveal_strlit("accessToken");
    reveal_strlit("expiresAt");
    reveal_strlit("clientId");
    reveal_strlit("clientSecret");
    reveal_strlit("registrationExpiresAt");
    reveal_strlit("refreshToken");
    assert("startUrl"@[0] == 's' && "clientId"@[0] == 'c');
    assert("clientSecret"@[0] == 'c' && "refreshToken"@[0] == 'r');
    assert("startUrl"@.len() == 8 && "region"@.len() == 6 && "accessToken"@.len() == 11);
    assert("expiresAt"@.len() == 9 && "clientId"@.len() == 8 && "clientSecret"@.len() == 12);
    assert("registrationExpiresAt"@.len() == 21 && "refreshToken"@.len() == 12);
    lemma_under(s, access_token, expires, refresh_token, "accessToken"@);
    lemma_under(s, access_token, expires, refresh_token, "expiresAt"@);
    lemma_under(s, access_token, expires, refresh_token, "clientId"@);
    lemma_under(s, access_token, expires, refresh_token, "clientSecret"@);
    lemma_under(s, access_token, expires, refresh_token, "startUrl"@);
    lemma_under(s, access_token, expires, refresh_token, "region"@);
    lemma_under(s, access_token, expires, refresh_token, "refreshToken"@);
    lemma_under(s, access_token, expires, refresh_token, "registrationExpiresAt"@);
}

/// What stands under a key of a filed token: the fields are gone through from
/// the last to the first.
proof fn lemma_under(
    s: LoginModel,
    access_token: Seq<char>,
    expires: int,
    refresh_token: Option<Seq<char>>,
    key: Seq<char>,
)
    ensures
        json::last_under(s.token_fields(access_token, expires, refresh_token), key) == (
        if refresh_token is Some && key == "refreshToken"@ {
            refresh_token
        } else if s.registration_expires is Some && key == "registrationExpiresAt"@ {
            Some(clock::written(s.registration_expires->Some_0 * clock::SECOND))
        } else if key == "clientSecret"@ {
            Some(s.client_secret)
        } else if key == "clientId"@ {
            Some(s.client_id)
        } else if key == "expiresAt"@ {
            Some(clock::written(expires))
        } else if key == "accessToken"@ {
            Some(access_token)
        } else if key == "region"@ {
            Some(s.profile.region)
        } else if key == "startUrl"@ {
            Some(s.profile.start_url)
        } else {
            None
        }),
{
    let f0 = Seq::<(Seq<char>, Seq<char>)>::empty();
    let f1 = f0.push(("startUrl"@, s.profile.start_url));
    let f2 = f1.push(("region"@, s.profile.region));
    let f3 = f2.push(("accessToken"@, access_token));
    let f4 = f3.push(("expiresAt"@, clock::written(expires)));
    let f5 = f4.push(("clientId"@, s.client_id));
    let f6 = f5.push(("clientSecret"@, s.client_secret));
    let always = seq![
        ("startUrl"@, s.profile.start_url),
        ("region"@, s.profile.region),
        ("accessToken"@, access_token),
        ("expiresAt"@, clock::written(expires)),
        ("clientId"@, s.client_id),
        ("clientSecret"@, s.client_secret),
    ];
    assert(f6 =~= always);
    json::lemma_last_under_push(f0, "startUrl"@, s.profile.start_url, key);
    json::lemma_last_under_push(f1, "region"@, s.profile.region, key);
    json::lemma_last_under_push(f2, "accessToken"@, access_token, key);
    json::lemma_last_under_push(f3, "expiresAt"@, clock::written(expires), key);
    json::lemma_last_under_push(f4, "clientId"@, s.client_id, key);
    json::lemma_last_under_push(f5, "clientSecret"@, s.client_secret, key);
    let f7 = match s.registration_expires {
        Some(t) => {
            json::lemma_last_under_push(
                f6,
                "registrationExpiresAt"@,
                clock::written(t * clock::SECOND),
                key,
            );
            f6.push(("registrationExpiresAt"@, clock::written(t * clock::SECOND)))
        },
        None => f6,
    };
    match refresh_token {
        Some(r) => json::lemma_last_under_push(f7, "refreshToken"@, r, key),
        None => {},
    }
}

impl Login {
    /// The text of the file in which a token is kept, or why there is none. The
    /// token serves until five minutes before it expires, and until the
    /// client's registration expires if it can be refreshed.
    pub fn token_cache(&self, reply: &TokenReply, now: i128) -> (r: Result<String, String>)
        requires
            self@.wf(),
            clock::in_calendar(now as int),
            reply.access_token is Some ==> clock::in_calendar(expiry(now as int, reply.expires_in)),
        ensures
            match (reply.access_token, r) {
                (None, Err(e)) => e@ == "unexpected response from AWS: missing accessToken"@,
                (Some(access_token), Ok(text)) => {
                    let expires = expiry(now as int, reply.expires_in);
                    let refresh_token = text::opt_string(reply.refresh_token);
                    &&& text@ == json::json_object(
                        self@.token_fields(access_token@, expires, refresh_token),
                        Seq::empty(),
                    )
                    &&& self@.keeps_serving(access_token@, expires, refresh_token, text@)
                },
                _ => false,
            },
    {
        let access_token = match &reply.access_token {
            Some(t) => t,
            None => {
                return Err("unexpected response from AWS: missing accessToken".to_owned());
            },
        };
        let expires: i128 = now + reply.expires_in as i128 * clock::SECOND;
        let expires_at = format_time(expires);
        let mut texts = no_pairs();
        push_pair(&mut texts, "startUrl", self.profile.start_url.as_str());
        push_pair(&mut texts, "region", self.profile.region.as_str());
        push_pair(&mut texts, "accessToken", access_token.as_str());
        push_pair(&mut texts, "expiresAt", expires_at.as_str());
        push_pair(&mut texts, "clientId", self.client_id.as_str());
        push_pair(&mut texts, "clientSecret", self.client_secret.as_str());
        match self.registration_expires {
            Some(t) => {
                let until = format_time(t as i128 * clock::SECOND);
                push_pair(&mut texts, "registrationExpiresAt", until.as_str());
            },
            None => {},
        }
        match &reply.refresh_token {
            Some(r) => push_pair(&mut texts, "refreshToken", r.as_str()),
            None => {},
        }
        let text = object_text(&texts, &no_lists());
        proof {
            let refresh_token = text::opt_string(reply.refresh_token);
            let fields = self@.token_fields(access_token@, expires as int, refresh_token);
            assert(json::pairs(texts@) =~= fields);
            lemma_token_fields(self@, access_token@, expires as int, refresh_token);
            assert(json::json_text(text@, "accessToken"@) == json::last_under(fields, "accessToken"@));
            assert(json::json_text(text@, "expiresAt"@) == json::last_under(fields, "expiresAt"@));
            assert(json::json_text(text@, "clientId"@) == json::last_under(fields, "clientId"@));
            assert(json::json_text(text@, "refreshToken"@) == json::last_under(
                fields,
                "refreshToken"@,
            ));
            assert(json::json_text(text@, "registrationExpiresAt"@) == json::last_under(
                fields,
                "registrationExpiresAt"@,
            ));
        }
        Ok(text)
    }

    /// The text of the file in which the token in `reply` is kept, or why there
    /// is none. There is no answer for a token that expires at a time that
    /// cannot be represented.
    pub fn file_token(&self, reply: &str) -> (r: Option<Result<String, String>>)
        requires
            self@.wf(),
        ensures
            exists|now: i128| #[trigger] clock::in_calendar(now as int) && filed(self@, reply@, now, r),
    {
        self.file_token_at(reply, now_utc())
    }

    /// As `file_token`, at the time `now`.
    pub fn file_token_at(&self, reply: &str, now: i128) -> (r: Option<Result<String, String>>)
        requires
            self@.wf(),
            clock::in_calendar(now as int),
        ensures
            filed(self@, reply@, now, r),
    {
        let token = read_token(reply);
        if token.access_token.is_some() {
            let expires: i128 = now + token.expires_in as i128 * clock::SECOND;
            if expires > clock::LAST_SECOND * clock::SECOND + 999_999_999 {
                return None;
            }
        }
        Some(self.token_cache(&token, now))
    }
}

/// What is filed of the token in `reply` at the time `now`.
pub open spec fn filed(
    s: LoginModel,
    reply: Seq<char>,
    now: i128,
    r: Option<Result<String, String>>,
) -> bool {
    let expires = expiry(now as int, number_or(reply, "expiresIn"@, 3600));
    match required_text(reply, "accessToken"@) {
        Err(e) => r matches Some(Err(m)) && m@ == "unexpected response from AWS: missing accessToken"@,
        Ok(access_token) => if !clock::in_calendar(expires) {
            r is None
        } else {
            let refresh_token = json::json_text(reply, "refreshToken"@);
            r matches Some(Ok(text)) && text@ == json::json_object(
                s.token_fields(access_token, expires, refresh_token),
                Seq::empty(),
            ) && s.keeps_serving(access_token, expires, refresh_token, text@)
        },
    }
}

// ---------------------------------------------------------------------------
// What holds of every sign-in
// ---------------------------------------------------------------------------

/// Once the user was shown a code, a token is asked for no sooner than an
/// interval of at least a second after the round began, and not after the code
/// has expired; and a sign-in that is cancelled before that fails with the
/// next look.
pub proof fn lemma_polling(
    s: LoginModel,
    reply: Result<String, ApiError>,
    shown_at: u64,
    now: u64,
    later: u64,
    cancelled: bool,
)
    requires
        s.step(LoginEvent::Authorized { reply, now: shown_at }).action is ShowCode,
        now <= later,
    ensures
        ({
            let waiting = s.step(LoginEvent::Authorized { reply, now: shown_at }).login;
            let round = waiting.step(LoginEvent::Round { now, cancelled: false });
            let tick = round.login.step(LoginEvent::Tick { now: later, cancelled });
            &&& waiting.interval_secs >= 1
            &&& round.action == (LoginActionModel::Sleep { millis: 200 })
            &&& tick.action is AskToken <==> later - now >= waiting.interval_secs * 1_000_000_000
                && later <= waiting.deadline
            &&& waiting.step(LoginEvent::Round { now, cancelled: true }).action == (
            LoginActionModel::Fail { message: "Sign-in cancelled"@ })
            &&& later - now < waiting.interval_secs * 1_000_000_000 && cancelled ==> tick.action
                == (LoginActionModel::Fail { message: "Sign-in cancelled"@ })
        }),
{
}

/// While the user has not yet approved, the sign-in goes on as it was; only
/// when the service asks to slow down do the requests come less often.
pub proof fn lemma_pending(s: LoginModel, e: ApiError)
    ensures
        is_pending(e.code@) ==> s.on_answered(Err(e)) == s.doing(LoginActionModel::Round),
        is_slow_down(e.code@) && s.interval_secs <= u64::MAX - 5 ==> s.on_answered(Err(e)).action
            is Round && s.on_answered(Err(e)).login == (LoginModel {
            interval_secs: (s.interval_secs + 5) as u64,
            ..s
        }),
        !is_pending(e.code@) && !is_slow_down(e.code@) ==> s.on_answered(Err(e)).action is Fail,
{
    reveal_strlit("AuthorizationPendingException");
    reveal_strlit("authorization_pending");
    reveal_strlit("SlowDownException");
    reveal_strlit("slow_down");
    assert("AuthorizationPendingException"@.len() == 29 && "authorization_pending"@.len() == 21);
    assert("SlowDownException"@.len() == 17 && "slow_down"@.len() == 9);
}

} // verus!
