use bucketmount::app::{snapshot_in, Known, MountView};
use bucketmount::config::{Config, MountConfig};
use bucketmount::supervisor::{MountStatus, State};
use bucketmount::tray::{menu, menu_action, tooltip, truncate, worst, MenuAction, MenuEntry};

fn views(mounts: &[(&str, State, &str)]) -> Vec<MountView> {
    let cfg = Config {
        mounts: mounts
            .iter()
            .map(|m| MountConfig { name: m.0.to_string(), ..MountConfig::default() })
            .collect(),
        ..Config::default()
    };
    let known = Known {
        statuses: mounts
            .iter()
            .map(|m| (m.0.to_string(), MountStatus::new(m.1, m.2, 0)))
            .collect(),
        config_error: None,
        rclone: None,
        rclone_version: None,
        background: false,
        config_dir: None,
        version: "1".to_string(),
        now: 0,
    };
    snapshot_in(&cfg, &known, "/h").mounts
}

fn lines(m: &[MountView]) -> Vec<String> {
    menu(&views_of(m))
        .iter()
        .map(|e| match e {
            MenuEntry::Separator => "---".to_string(),
            MenuEntry::Item { id, text, enabled } => format!("{id}|{text}|{enabled}"),
        })
        .collect()
}

fn views_of(m: &[MountView]) -> Vec<MountView> {
    let all: Vec<(String, State, String)> =
        m.iter().map(|v| (v.config.name.clone(), v.state, v.detail.clone())).collect();
    let refs: Vec<(&str, State, &str)> =
        all.iter().map(|(n, s, d)| (n.as_str(), *s, d.as_str())).collect();
    views(&refs)
}

#[test]
fn badge_shows_the_worst_state() {
    let v = views(&[("a", State::Connected, ""), ("b", State::Syncing, ""), ("c", State::Disabled, "")]);
    assert_eq!(worst(&v), State::Syncing);
    let v = views(&[("a", State::Down, ""), ("b", State::Error, ""), ("c", State::Starting, "")]);
    assert_eq!(worst(&v), State::Error);
    assert_eq!(worst(&views(&[("c", State::Disabled, "")])), State::Disabled);
    assert_eq!(worst(&views(&[])), State::Disabled);
}

#[test]
fn tooltips() {
    let tip = |states: &[State]| {
        let all: Vec<(&str, State, &str)> = ["a", "b", "c"].iter().zip(states).map(|(n, s)| (*n, *s, "")).collect();
        tooltip(&views(&all))
    };
    assert_eq!(tip(&[]), "BucketMount — no active mounts");
    assert_eq!(tip(&[State::Disabled]), "BucketMount — no active mounts");
    assert_eq!(
        tip(&[State::Down, State::Connected, State::Disabled]),
        "BucketMount — 1 of 2 mount(s) need attention"
    );
    assert_eq!(tip(&[State::Syncing, State::Connected]), "BucketMount — syncing");
    assert_eq!(tip(&[State::Syncing, State::Starting]), "BucketMount — starting");
    assert_eq!(tip(&[State::Connected, State::Connected]), "BucketMount — 2 mount(s) connected");
}

#[test]
fn menu_lists_every_mount() {
    assert_eq!(
        lines(&views(&[])),
        vec![
            "none|No mounts configured|false",
            "---",
            "open|Open BucketMount|true",
            "quit|Quit BucketMount|true",
        ]
    );
    assert_eq!(
        lines(&views(&[("a", State::Connected, "Connected"), ("b", State::SignInRequired, "x")])),
        vec![
            "hdr:a|a  —  Connected|false",
            "open:a|      Open in Finder|false",
            "edit:a|      Settings…|true",
            "---",
            "hdr:b|b  —  Sign-in required|false",
            "det:b|      x|false",
            "login:b|      Sign in to AWS…|true",
            "open:b|      Open in Finder|false",
            "edit:b|      Settings…|true",
            "---",
            "open|Open BucketMount|true",
            "quit|Quit BucketMount|true",
        ]
    );
}

#[test]
fn texts_are_truncated() {
    assert_eq!(truncate("abc", 3), "abc");
    assert_eq!(truncate("abcd", 3), "ab…");
    assert_eq!(truncate("äöüß", 3), "äö…");
    assert_eq!(truncate("", 0), "");
    assert_eq!(truncate(&truncate("abcd", 3), 3), "ab…");
}

#[test]
fn entries_are_chosen() {
    assert!(matches!(menu_action("open"), MenuAction::ShowWindow));
    assert!(matches!(menu_action("quit"), MenuAction::Quit));
    assert!(matches!(menu_action("open:a:b"), MenuAction::OpenMount(n) if n == "a:b"));
    assert!(matches!(menu_action("login:x"), MenuAction::SignIn(n) if n == "x"));
    assert!(matches!(menu_action("edit:"), MenuAction::Edit(n) if n.is_empty()));
    assert!(matches!(menu_action("hdr:x"), MenuAction::Nothing));
    assert!(matches!(menu_action("det:x"), MenuAction::Nothing));
    assert!(matches!(menu_action("none"), MenuAction::Nothing));
}
