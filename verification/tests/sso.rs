use bucketmount::clock::{format_time, parse_time};
use bucketmount::config::MountConfig;
use bucketmount::ini::parse_ini;
use bucketmount::sso::{
    aws_config_path_in, for_mount, is_session_error, needs_login_at, profile_name, resolve, SsoProfile,
};

#[test]
fn parses_aws_config() {
    let ini = "[default]\nregion = us-east-1\n\n[profile work]\nsso_session = corp\nsso_account_id = 1\ns3 =\n  max_concurrent_requests = 5\n\n[sso-session corp]\nsso_start_url = https://x.awsapps.com/start\nsso_region = us-west-2\nsso_registration_scopes = sso:account:access\n";
    let s = parse_ini(ini);
    assert_eq!(s.get("profile work").unwrap().get("sso_session").unwrap(), "corp");
    assert_eq!(s.get("sso-session corp").unwrap().get("sso_region").unwrap(), "us-west-2");
    assert!(s.get("profile work").unwrap().get("max_concurrent_requests").is_none());
}

#[test]
fn cache_key_matches_aws_cli() {
    // `echo -n my-sso | shasum` — the file name the AWS CLI uses.
    let sp = SsoProfile {
        profile: "work".into(),
        session: Some("my-sso".into()),
        start_url: String::new(),
        region: String::new(),
        scopes: vec![],
    };
    assert!(std::path::Path::new(&sp.cache_path())
        .ends_with("0ad374308c5a4e22f723adf10145eafad7c4031c.json"));
}

#[test]
fn times_round_trip() {
    assert!(parse_time("2026-09-24T06:27:48Z").is_some());
    assert!(parse_time("2026-09-24T06:27:48UTC").is_some());
    let t = parse_time("2026-09-24T06:27:48Z").unwrap();
    assert_eq!(format_time(t), "2026-09-24T06:27:48Z");
}

#[test]
fn recognises_session_errors() {
    assert!(is_session_error("failed to refresh cached credentials, refresh cached SSO token failed"));
    assert!(!is_session_error("dial tcp: lookup s3.amazonaws.com: no such host"));
}

#[test]
fn every_session_error_is_recognised() {
    for e in ["no SSO token", "SSO OIDC: x", "InvalidGrantException", "an UnauthorizedException."] {
        assert!(is_session_error(e));
    }
    assert!(!is_session_error("sso token"));
}

#[test]
fn times_are_read_and_written() {
    assert_eq!(parse_time("1970-01-01T00:00:01Z"), Some(1_000_000_000));
    assert_eq!(parse_time(" 1970-01-01T00:00:01.5Z "), Some(1_500_000_000));
    assert_eq!(parse_time("1970-01-01T01:00:00+01:00"), Some(0));
    assert_eq!(parse_time("1970-01-01"), None);
    assert_eq!(parse_time(""), None);
    assert_eq!(format_time(1_999_999_999), "1970-01-01T00:00:01Z");
    assert_eq!(format_time(-1), "1969-12-31T23:59:59Z");
    assert_eq!(format_time(253_402_300_799_000_000_000), "9999-12-31T23:59:59Z");
    assert_eq!(format_time(-62_167_219_200_000_000_000), "0000-01-01T00:00:00Z");
    assert_eq!(format_time(-62_167_219_201_000_000_000), "");
}

#[test]
fn ini_details() {
    let s = parse_ini("x = 1\n# c\n; c\n[  a   b ]\nk=v = w\nk2\n[c]\n[a b]\nk =  z\n");
    assert!(s.get("x").is_none());
    let ab = s.get("a b").unwrap();
    assert_eq!(ab.get("k").unwrap(), "z");
    assert!(ab.get("k2").is_none());
    assert!(s.get("c").unwrap().get("k").is_none());
    assert_eq!(s.sections.len(), 2);
}

#[test]
fn skipped_lines_make_no_difference() {
    let plain = parse_ini("[a]\nk=v\n");
    let padded = parse_ini("\n[a]\n  x = y\n# k=w\nk=v\n;\n");
    assert_eq!(plain.get("a").unwrap().get("k"), padded.get("a").unwrap().get("k"));
    assert_eq!(padded.get("a").unwrap().entries.len(), 1);
}

const CONFIG: &str = "[default]\nsso_start_url = https://d\nsso_region = r1\n[profile work]\nsso_session = corp\n[profile lost]\nsso_session = nowhere\n[sso-session corp]\nsso_start_url = https://c\nsso_region = r2\nsso_registration_scopes = a, ,b\n[sso-session bare]\nsso_start_url = https://b\nsso_region = r3\n[profile bare]\nsso_session = bare\n[profile keys]\nregion = x\n";

#[test]
fn profiles_are_resolved() {
    let d = resolve("default", Some(CONFIG)).unwrap();
    assert_eq!(d.session, None);
    assert_eq!((d.start_url.as_str(), d.region.as_str()), ("https://d", "r1"));
    assert!(d.scopes.is_empty());
    let w = resolve("work", Some(CONFIG)).unwrap();
    assert_eq!(w.profile, "work");
    assert_eq!(w.session, Some("corp".to_string()));
    assert_eq!((w.start_url.as_str(), w.region.as_str()), ("https://c", "r2"));
    assert_eq!(w.scopes, vec!["a", "b"]);
    let b = resolve("bare", Some(CONFIG)).unwrap();
    assert_eq!(b.scopes, vec!["sso:account:access"]);
    assert_eq!(resolve("lost", Some(CONFIG)), None);
    assert_eq!(resolve("keys", Some(CONFIG)), None);
    assert_eq!(resolve("none", Some(CONFIG)), None);
    assert_eq!(resolve("default", None), None);
    assert_eq!(w.clone(), w);
}

#[test]
fn profile_behind_a_mount() {
    let mut m = MountConfig::default();
    assert_eq!(profile_name(&m, None, None), Some("default".to_string()));
    assert_eq!(profile_name(&m, None, Some("")), Some("default".to_string()));
    assert_eq!(profile_name(&m, None, Some("env")), Some("env".to_string()));
    m.access_key_id = "AKIA".to_string();
    assert_eq!(profile_name(&m, None, Some("env")), None);
    assert_eq!(for_mount(&m, None, Some("work"), Some(CONFIG)), None);
    m.secret_access_key = "s".to_string();
    m.aws_profile = "work".to_string();
    assert_eq!(profile_name(&m, None, None), None);
    assert_eq!(for_mount(&m, None, None, Some(CONFIG)), None);
    m.aws_profile = String::new();
    m.rclone_remote = "r".to_string();
    let dump: &[u8] = b"{\"r\":{\"env_auth\":\"true\",\"profile\":\"work\"},\"q\":{\"env_auth\":\"true\"},\"p\":{}}";
    assert_eq!(profile_name(&m, Some(dump), None), Some("work".to_string()));
    assert_eq!(for_mount(&m, Some(dump), None, Some(CONFIG)).unwrap().region, "r2");
    assert_eq!(profile_name(&m, None, None), None);
    assert_eq!(profile_name(&m, Some(b"\xff"), None), None);
    m.rclone_remote = "q".to_string();
    assert_eq!(profile_name(&m, Some(dump), Some("env")), Some("env".to_string()));
    m.rclone_remote = "p".to_string();
    assert_eq!(profile_name(&m, Some(dump), None), None);
    m.aws_profile = " mine ".to_string();
    assert_eq!(profile_name(&m, None, None), Some("mine".to_string()));
}

#[test]
fn aws_config_file_place() {
    assert_eq!(aws_config_path_in(None, "/h"), "/h/.aws/config");
    assert_eq!(aws_config_path_in(Some("~/c"), "/h"), "/h/c");
}

#[test]
fn legacy_profiles_are_filed_by_url() {
    let sp = SsoProfile {
        profile: "p".into(),
        session: None,
        start_url: "my-sso".into(),
        region: String::new(),
        scopes: vec![],
    };
    assert_eq!(
        sp.cache_path_in("/h"),
        "/h/.aws/sso/cache/0ad374308c5a4e22f723adf10145eafad7c4031c.json"
    );
}

#[test]
fn tokens_serve_or_do_not() {
    let now = parse_time("2026-09-24T06:00:00Z").unwrap();
    let needs = |text: &str| needs_login_at(Some(text), now);
    assert!(needs_login_at(None, now));
    assert!(needs("nonsense"));
    assert!(needs("{}"));
    assert!(needs("{\"accessToken\":\"\",\"expiresAt\":\"2027-01-01T00:00:00Z\"}"));
    assert!(!needs("{\"accessToken\":\"t\",\"expiresAt\":\"2026-09-24T06:05:01Z\"}"));
    assert!(!needs("{\"accessToken\":\"t\",\"expiresAt\":\"2026-09-24T06:05:01UTC\"}"));
    assert!(needs("{\"accessToken\":\"t\",\"expiresAt\":\"2026-09-24T06:05:00Z\"}"));
    let refreshable = "{\"accessToken\":\"t\",\"expiresAt\":\"2026-01-01T00:00:00Z\",\"refreshToken\":\"r\",\"clientId\":\"c\",\"registrationExpiresAt\":\"2026-09-24T06:00:01Z\"}";
    assert!(!needs(refreshable));
    assert!(needs(&refreshable.replace("\"r\"", "\"\"")));
    assert!(needs(&refreshable.replace("\"c\"", "\"\"")));
    assert!(needs(&refreshable.replace("06:00:01", "06:00:00")));
}

#[test]
fn expired_tokens_need_a_login_now() {
    let sp = SsoProfile {
        profile: "p".into(),
        session: None,
        start_url: String::new(),
        region: String::new(),
        scopes: vec![],
    };
    assert!(sp.needs_login(None));
    assert!(sp.needs_login(Some("{\"accessToken\":\"t\",\"expiresAt\":\"2001-01-01T00:00:00Z\"}")));
    assert!(!sp.needs_login(Some("{\"accessToken\":\"t\",\"expiresAt\":\"9999-01-01T00:00:00Z\"}")));
}
