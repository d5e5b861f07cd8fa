use bucketmount::app::{
    busy, commit, delete_mount, find_mount, log_tail, save_mount, save_mount_in, set_start_at_login,
    snapshot, snapshot_in, Known,
};
use bucketmount::config::{Config, Mode, MountConfig};
use bucketmount::supervisor::{MountStatus, State};

const HOME: &str = "/Users/me";

fn mount(name: &str) -> MountConfig {
    MountConfig {
        name: name.to_string(),
        bucket: "b".to_string(),
        mount_point: format!("~/BucketMount/{name}"),
        ..MountConfig::default()
    }
}

fn config(names: &[&str]) -> Config {
    Config { mounts: names.iter().map(|n| mount(n)).collect(), ..Config::default() }
}

fn known(statuses: Vec<(String, MountStatus)>) -> Known {
    Known {
        statuses,
        config_error: None,
        rclone: Some("/Users/me/bin/rclone".to_string()),
        rclone_version: Some("rclone v1".to_string()),
        background: false,
        config_dir: None,
        version: "0.1.0".to_string(),
        now: 10_500_000_000,
    }
}

#[test]
fn snapshot_shows_everything() {
    let cfg = config(&["a", "b"]);
    let mut s = MountStatus::new(State::Connected, "Connected", 0);
    s.last_ok = Some(1_000_000_000);
    s.mounted = true;
    s.uploads_pending = 3;
    s.restarts = 2;
    s.pid = Some(9);
    let snap = snapshot_in(&cfg, &known(vec![("a".to_string(), s)]), HOME);
    let a = &snap.mounts[0];
    assert_eq!((a.state, a.state_label, a.color.as_str()), (State::Connected, "Connected", "#34c759"));
    assert_eq!((a.mounted, a.uploads_pending, a.restarts, a.pid), (true, 3, 2, Some(9)));
    assert_eq!(a.last_ok_secs, Some(9));
    assert_eq!(a.mount_path, "/Users/me/BucketMount/a");
    assert_eq!(a.mount_path_short, "~/BucketMount/a");
    let b = &snap.mounts[1];
    assert_eq!((b.state, b.detail.as_str(), b.last_ok_secs), (State::Disabled, "Not started", None));
    assert_eq!(snap.config_path, "~/.config/bucketmount/config.toml");
    assert_eq!(snap.logs_dir, "~/Library/Logs/BucketMount");
    assert_eq!(snap.rclone_path, Some("~/bin/rclone".to_string()));
    assert_eq!(snap.rclone_version, Some("rclone v1".to_string()));
    assert_eq!(snap.version, "0.1.0");
    assert_eq!(snapshot(&cfg, &known(vec![])).mounts.len(), 2);
}

#[test]
fn login_prompt_is_shown_once() {
    let mut cfg = config(&[]);
    assert!(snapshot_in(&cfg, &known(vec![]), HOME).show_login_prompt);
    let mut k = known(vec![]);
    k.background = true;
    assert!(!snapshot_in(&cfg, &k, HOME).show_login_prompt);
    let mut k = known(vec![]);
    k.config_error = Some("e".to_string());
    let snap = snapshot_in(&cfg, &k, HOME);
    assert!(!snap.show_login_prompt);
    assert_eq!(snap.config_error, Some("e".to_string()));
    set_start_at_login(&mut cfg, false);
    assert_eq!(cfg.start_at_login, Some(false));
    assert!(!snapshot_in(&cfg, &known(vec![]), HOME).show_login_prompt);
}

#[test]
fn new_mount_is_saved_clean() {
    let mut cfg = config(&["a"]);
    let m = MountConfig {
        name: " b ".to_string(),
        bucket: " x ".to_string(),
        prefix: " /p/ ".to_string(),
        mount_point: " ~/b ".to_string(),
        cache_max_size: " ".to_string(),
        region: " r ".to_string(),
        ..MountConfig::default()
    };
    assert_eq!(save_mount_in(&mut cfg, &m, None, HOME), Ok(()));
    assert_eq!(cfg.mounts.len(), 2);
    let b = &cfg.mounts[1];
    assert_eq!((b.name.as_str(), b.bucket.as_str(), b.prefix.as_str()), ("b", "x", "p"));
    assert_eq!((b.mount_point.as_str(), b.cache_max_size.as_str(), b.region.as_str()), ("~/b", "10G", "r"));
}

#[test]
fn mount_is_edited_in_place() {
    let mut cfg = config(&["a", "b"]);
    let mut m = mount("a");
    m.bucket = "other".to_string();
    assert_eq!(save_mount(&mut cfg, &m, Some("a")), Ok(()));
    assert_eq!(cfg.mounts.len(), 2);
    assert_eq!(cfg.mounts[0].bucket, "other");
    assert_eq!(save_mount_in(&mut cfg, &mount("c"), Some("b"), HOME), Ok(()));
    assert_eq!(cfg.mounts[1].name, "c");
    assert_eq!(save_mount_in(&mut cfg, &mount("d"), Some("gone"), HOME), Ok(()));
    assert_eq!(cfg.mounts.len(), 3);
}

#[test]
fn invalid_mount_is_not_saved() {
    let mut cfg = config(&["a", "b"]);
    let before = cfg.clone();
    assert_eq!(
        save_mount_in(&mut cfg, &mount("a"), None, HOME),
        Err("A mount named 'a' already exists.".to_string())
    );
    assert_eq!(
        save_mount_in(&mut cfg, &mount("b"), Some("a"), HOME),
        Err("A mount named 'b' already exists.".to_string())
    );
    let mut m = mount("c");
    m.mount_point = "/Users/me/BucketMount/b/".to_string();
    assert_eq!(
        save_mount_in(&mut cfg, &m, Some("a"), HOME),
        Err("Another mount already uses that mount point.".to_string())
    );
    assert_eq!(cfg, before);
}

#[test]
fn mounts_are_deleted() {
    let mut cfg = config(&["a", "b", "a"]);
    assert_eq!(delete_mount(&mut cfg, "a"), Ok(()));
    assert_eq!(cfg.mounts.len(), 1);
    assert_eq!(delete_mount(&mut cfg, "a"), Err("No mount named 'a'.".to_string()));
    assert_eq!(cfg.mounts[0].name, "b");
}

#[test]
fn unreadable_settings_are_not_overwritten() {
    assert_eq!(commit(None), Ok(()));
    assert_eq!(
        commit(Some("bad")),
        Err("The config file could not be read (bad). Fix or delete it before saving.".to_string())
    );
}

#[test]
fn window_shows_the_last_lines() {
    let mut s = MountStatus::new(State::Connected, "", 0);
    for i in 0..100 {
        s.log_line(&format!("{i}"));
    }
    let tail = log_tail(Some(&s));
    assert_eq!((tail.len(), tail[0].as_str(), tail[79].as_str()), (80, "20", "99"));
    assert!(log_tail(None).is_empty());
}

#[test]
fn busy_mounts() {
    let with = |state, mode, pid, uploads| {
        let mut s = MountStatus::new(state, "", 0);
        s.pid = pid;
        s.uploads_pending = uploads;
        vec![(mount("x"), MountStatus::new(State::Connected, "", 0)), (MountConfig { mode, ..mount("a") }, s)]
    };
    assert!(!busy(&with(State::Connected, Mode::Mount, Some(1), 0)));
    assert!(busy(&with(State::Connected, Mode::Sync, Some(1), 0)));
    assert!(busy(&with(State::Connected, Mode::Mount, None, 1)));
    assert!(busy(&with(State::Syncing, Mode::Mount, None, 0)));
    assert!(busy(&with(State::Starting, Mode::Mount, None, 0)));
    assert!(!busy(&with(State::Error, Mode::Sync, None, 0)));
}

#[test]
fn mounts_are_found() {
    let cfg = config(&["a", "b"]);
    assert_eq!(find_mount(&cfg, "b").unwrap().name, "b");
    assert!(find_mount(&cfg, "c").is_none());
}
