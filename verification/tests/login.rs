use bucketmount::clock::parse_time;
use bucketmount::login::{api_error, field, read_token, ApiError, Login, LoginAction, LoginEvent};
use bucketmount::sso::{needs_login_at, SsoProfile};

const SECOND: u64 = 1_000_000_000;

fn work() -> SsoProfile {
    SsoProfile {
        profile: "work".into(),
        session: Some("corp".into()),
        start_url: "https://x".into(),
        region: "us-west-2".into(),
        scopes: vec!["sso:account:access".into()],
    }
}

fn value(text: &str) -> serde_json::Value {
    serde_json::from_str(text).unwrap()
}

fn refused(code: &str) -> Result<String, ApiError> {
    Err(ApiError { code: code.to_string(), message: "m".to_string() })
}

fn failure(a: LoginAction) -> String {
    match a {
        LoginAction::Fail { message } => message,
        other => panic!("{other:?}"),
    }
}

/// A sign-in that has shown its code at the time 0.
fn waiting() -> Login {
    let mut l = Login::new(&work());
    l.next(LoginEvent::Begin);
    l.next(LoginEvent::Registered {
        reply: Ok("{\"clientId\":\"ci\",\"clientSecret\":\"cs\",\"clientSecretExpiresAt\":1800000000}".to_string()),
    });
    l.next(LoginEvent::Authorized {
        reply: Ok("{\"deviceCode\":\"dc\",\"userCode\":\"uc\",\"verificationUri\":\"https://v\",\"interval\":2,\"expiresIn\":60}".to_string()),
        now: 0,
    });
    l
}

#[test]
fn errors_of_the_service() {
    let e = api_error(400, Some("InvalidGrantException:http://x"), Some("{\"message\":\"no\"}"));
    assert_eq!(e.code, "InvalidGrantException");
    assert_eq!(e.message, "HTTP 400 InvalidGrantException no");
    let e = api_error(400, Some("X"), Some("{\"error\":\"slow_down\",\"error_description\":\"wait\",\"message\":\"n\"}"));
    assert_eq!((e.code.as_str(), e.message.as_str()), ("slow_down", "HTTP 400 slow_down wait"));
    let e = api_error(500, None, None);
    assert_eq!((e.code.as_str(), e.message.as_str()), ("", "HTTP 500"));
    let e = api_error(403, Some("A:B"), Some("{\"error\":\"\"}"));
    assert_eq!(e.code, "A");
}

#[test]
fn required_fields() {
    assert_eq!(field("{\"a\":\"b\"}", "a"), Ok("b".to_string()));
    assert_eq!(
        field("{\"a\":1}", "a"),
        Err("unexpected response from AWS: missing a".to_string())
    );
}

#[test]
fn registers_a_client() {
    let mut l = Login::new(&work());
    match l.next(LoginEvent::Begin) {
        LoginAction::Register { url, body } => {
            assert_eq!(url, "https://oidc.us-west-2.amazonaws.com/client/register");
            let v = value(&body);
            assert_eq!(v["clientName"], "BucketMount-work");
            assert_eq!(v["clientType"], "public");
            assert_eq!(v["scopes"][0], "sso:account:access");
            assert_eq!(v["grantTypes"][0], "urn:ietf:params:oauth:grant-type:device_code");
            assert_eq!(v["grantTypes"][1], "refresh_token");
        }
        other => panic!("{other:?}"),
    }
    let mut legacy = work();
    legacy.session = None;
    match Login::new(&legacy).next(LoginEvent::Begin) {
        LoginAction::Register { body, .. } => {
            assert!(value(&body)["scopes"].is_null());
            assert!(value(&body)["grantTypes"].is_null());
        }
        other => panic!("{other:?}"),
    }
}

#[test]
fn asks_for_a_code() {
    let mut l = Login::new(&work());
    let reply = "{\"clientId\":\"ci\",\"clientSecret\":\"cs\",\"clientSecretExpiresAt\":1800000000}";
    match l.next(LoginEvent::Registered { reply: Ok(reply.to_string()) }) {
        LoginAction::Authorize { url, body } => {
            assert_eq!(url, "https://oidc.us-west-2.amazonaws.com/device_authorization");
            let v = value(&body);
            assert_eq!(v["clientId"], "ci");
            assert_eq!(v["clientSecret"], "cs");
            assert_eq!(v["startUrl"], "https://x");
        }
        other => panic!("{other:?}"),
    }
    assert_eq!(l.registration_expires, Some(1_800_000_000));
    let far = "{\"clientId\":\"ci\",\"clientSecret\":\"cs\",\"clientSecretExpiresAt\":999999999999999}";
    l.next(LoginEvent::Registered { reply: Ok(far.to_string()) });
    assert_eq!(l.registration_expires, None);
    assert_eq!(failure(l.next(LoginEvent::Registered { reply: refused("x") })), "register client: m");
    assert_eq!(
        failure(l.next(LoginEvent::Registered { reply: Ok("{}".to_string()) })),
        "unexpected response from AWS: missing clientId"
    );
    assert_eq!(
        failure(l.next(LoginEvent::Registered { reply: Ok("{\"clientId\":\"a\"}".to_string()) })),
        "unexpected response from AWS: missing clientSecret"
    );
}

#[test]
fn shows_the_code() {
    let mut l = Login::new(&work());
    let reply = "{\"deviceCode\":\"dc\",\"userCode\":\"uc\",\"verificationUri\":\"https://v\",\"verificationUriComplete\":\"https://v?c\",\"interval\":0}";
    match l.next(LoginEvent::Authorized { reply: Ok(reply.to_string()), now: 7 }) {
        LoginAction::ShowCode { code, url } => {
            assert_eq!((code.as_str(), url.as_str()), ("uc", "https://v?c"));
        }
        other => panic!("{other:?}"),
    }
    assert_eq!(l.interval_secs, 1);
    assert_eq!(l.deadline, 7 + 600 * SECOND as u128);
    let mut fails = |reply: &str| {
        failure(l.next(LoginEvent::Authorized { reply: Ok(reply.to_string()), now: 0 }))
    };
    assert_eq!(fails("{}"), "unexpected response from AWS: missing deviceCode");
    assert_eq!(fails("{\"deviceCode\":\"d\"}"), "unexpected response from AWS: missing userCode");
    assert_eq!(
        fails("{\"deviceCode\":\"d\",\"userCode\":\"u\"}"),
        "start sign-in: no verification URL in response"
    );
    assert_eq!(
        failure(l.next(LoginEvent::Authorized { reply: refused("x"), now: 0 })),
        "start sign-in: m"
    );
}

#[test]
fn cancelled_after_the_code() {
    let mut l = waiting();
    assert_eq!(failure(l.next(LoginEvent::Round { now: 0, cancelled: true })), "Sign-in cancelled");
}

#[test]
fn polls_at_intervals() {
    let mut l = waiting();
    assert!(matches!(
        l.next(LoginEvent::Round { now: 0, cancelled: false }),
        LoginAction::Sleep { millis: 200 }
    ));
    assert!(matches!(
        l.next(LoginEvent::Tick { now: 2 * SECOND - 1, cancelled: false }),
        LoginAction::Sleep { millis: 200 }
    ));
    match l.next(LoginEvent::Tick { now: 2 * SECOND, cancelled: true }) {
        LoginAction::AskToken { url, body } => {
            assert_eq!(url, "https://oidc.us-west-2.amazonaws.com/token");
            let v = value(&body);
            assert_eq!(v["clientId"], "ci");
            assert_eq!(v["clientSecret"], "cs");
            assert_eq!(v["grantType"], "urn:ietf:params:oauth:grant-type:device_code");
            assert_eq!(v["deviceCode"], "dc");
        }
        other => panic!("{other:?}"),
    }
    assert_eq!(
        failure(l.next(LoginEvent::Tick { now: 60 * SECOND + 1, cancelled: false })),
        "The sign-in code expired before it was approved. Try again."
    );
}

#[test]
fn answers_to_the_token_request() {
    let mut l = waiting();
    for code in ["AuthorizationPendingException", "authorization_pending"] {
        assert!(matches!(l.next(LoginEvent::Answered { reply: refused(code) }), LoginAction::Round));
        assert_eq!(l.interval_secs, 2);
    }
    assert!(matches!(l.next(LoginEvent::Answered { reply: refused("slow_down") }), LoginAction::Round));
    assert_eq!(l.interval_secs, 7);
    l.next(LoginEvent::Answered { reply: refused("SlowDownException") });
    assert_eq!(l.interval_secs, 12);
    for code in ["AccessDeniedException", "access_denied"] {
        assert_eq!(
            failure(l.next(LoginEvent::Answered { reply: refused(code) })),
            "Sign-in was denied in the browser."
        );
    }
    for code in ["ExpiredTokenException", "expired_token"] {
        assert_eq!(
            failure(l.next(LoginEvent::Answered { reply: refused(code) })),
            "The sign-in code expired before it was approved. Try again."
        );
    }
    assert_eq!(failure(l.next(LoginEvent::Answered { reply: refused("") })), "finish sign-in: m");
    match l.next(LoginEvent::Answered { reply: Ok("{}".to_string()) }) {
        LoginAction::Approved { reply } => assert_eq!(reply, "{}"),
        other => panic!("{other:?}"),
    }
}

#[test]
fn token_is_filed() {
    let l = waiting();
    let now = parse_time("2026-09-24T06:00:00Z").unwrap();
    let reply = "{\"accessToken\":\"at\",\"expiresIn\":600,\"refreshToken\":\"rt\"}";
    let text = l.file_token_at(reply, now).unwrap().unwrap();
    let v = value(&text);
    assert_eq!(v["startUrl"], "https://x");
    assert_eq!(v["region"], "us-west-2");
    assert_eq!(v["accessToken"], "at");
    assert_eq!(v["expiresAt"], "2026-09-24T06:10:00Z");
    assert_eq!(v["clientId"], "ci");
    assert_eq!(v["clientSecret"], "cs");
    assert_eq!(v["registrationExpiresAt"], "2027-01-15T08:00:00Z");
    assert_eq!(v["refreshToken"], "rt");
    assert!(text.starts_with("{\n  \"accessToken\": \"at\",\n"));
}

#[test]
fn filed_tokens_need_no_login() {
    let mut l = waiting();
    let now = parse_time("2026-09-24T06:00:00Z").unwrap();
    l.registration_expires = None;
    let text = l.file_token_at("{\"accessToken\":\"at\"}", now).unwrap().unwrap();
    assert!(!needs_login_at(Some(&text), now));
    assert!(!needs_login_at(Some(&text), parse_time("2026-09-24T06:54:59Z").unwrap()));
    assert!(needs_login_at(Some(&text), parse_time("2026-09-24T06:55:00Z").unwrap()));
    let l = waiting();
    let reply = "{\"accessToken\":\"at\",\"expiresIn\":1,\"refreshToken\":\"rt\"}";
    let text = l.file_token_at(reply, now).unwrap().unwrap();
    assert!(!needs_login_at(Some(&text), parse_time("2027-01-15T07:59:59Z").unwrap()));
    assert!(needs_login_at(Some(&text), parse_time("2027-01-15T08:00:00Z").unwrap()));
}

#[test]
fn tokens_that_cannot_be_filed() {
    let l = waiting();
    assert_eq!(
        l.file_token("{}"),
        Some(Err("unexpected response from AWS: missing accessToken".to_string()))
    );
    assert_eq!(l.file_token("{\"accessToken\":\"a\",\"expiresIn\":9999999999999}"), None);
    assert!(l.file_token("{\"accessToken\":\"a\"}").unwrap().is_ok());
    let t = read_token("{\"accessToken\":\"a\"}");
    assert_eq!(t.expires_in, 3600);
    assert_eq!(t.refresh_token, None);
}
