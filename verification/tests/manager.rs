use bucketmount::config::{Config, MountConfig};
use bucketmount::manager::{initial_status, is_named, runs, status, statuses, Manager, Plan};
use bucketmount::supervisor::{MountStatus, State};

fn mount(name: &str, bucket: &str) -> MountConfig {
    MountConfig { name: name.to_string(), bucket: bucket.to_string(), ..MountConfig::default() }
}

fn config(mounts: Vec<MountConfig>) -> Config {
    Config { mounts, ..Config::default() }
}

fn started(p: &Plan) -> Vec<(&str, &str)> {
    p.start.iter().map(|m| (m.name.as_str(), m.bucket.as_str())).collect()
}

fn rclone() -> Option<String> {
    Some("/usr/bin/rclone".to_string())
}

#[test]
fn settings_are_applied() {
    let mut m = Manager::new(rclone());
    assert_eq!(m.rclone(), Some("/usr/bin/rclone"));
    let p = m.apply(&config(vec![mount("a", "1"), mount("b", "1")]), rclone());
    assert!(p.stop.is_empty());
    assert_eq!(started(&p), vec![("a", "1"), ("b", "1")]);
    assert_eq!(p.health_interval_secs, 30);
    let p = m.apply(&config(vec![mount("c", "1"), mount("b", "2"), mount("a", "1")]), rclone());
    assert_eq!(p.stop, vec!["b"]);
    assert_eq!(started(&p), vec![("c", "1"), ("b", "2")]);
    let p = m.apply(&config(vec![mount("a", "1")]), rclone());
    assert_eq!(p.stop, vec!["c", "b"]);
    assert!(p.start.is_empty());
    assert_eq!(m.handles.len(), 1);
}

#[test]
fn applying_twice_changes_nothing() {
    let mut m = Manager::new(None);
    let cfg = config(vec![mount("a", "1"), mount("b", "1")]);
    m.apply(&cfg, rclone());
    let p = m.apply(&cfg, Some("/usr//bin/rclone".to_string()));
    assert!(p.stop.is_empty() && p.start.is_empty());
}

#[test]
fn another_rclone_restarts_all() {
    let mut m = Manager::new(rclone());
    let cfg = config(vec![mount("a", "1"), mount("b", "1")]);
    m.apply(&cfg, rclone());
    let p = m.apply(&cfg, Some("/other".to_string()));
    assert_eq!(p.stop, vec!["a", "b"]);
    assert_eq!(started(&p), vec![("a", "1"), ("b", "1")]);
    let p = m.apply(&cfg, None);
    assert_eq!(p.stop.len(), 2);
    assert_eq!(m.rclone(), None);
}

#[test]
fn names_that_occur_twice() {
    let mut m = Manager::new(rclone());
    let cfg = config(vec![mount("a", "1"), mount("a", "2")]);
    let p = m.apply(&cfg, rclone());
    assert_eq!(started(&p), vec![("a", "1")]);
    let p = m.apply(&cfg, rclone());
    assert_eq!(p.stop, vec!["a"]);
    assert_eq!(started(&p), vec![("a", "1")]);
}

#[test]
fn checks_come_every_five_seconds_at_most() {
    let mut m = Manager::new(rclone());
    let cfg = Config { health_check_interval_secs: 1, ..Config::default() };
    assert_eq!(m.apply(&cfg, rclone()).health_interval_secs, 5);
}

#[test]
fn mounts_are_restarted() {
    let mut m = Manager::new(rclone());
    let cfg = config(vec![mount("a", "1"), mount("b", "1")]);
    m.apply(&cfg, rclone());
    let p = m.restart("b", &cfg, rclone());
    assert_eq!(p.stop, vec!["b"]);
    assert_eq!(started(&p), vec![("b", "1")]);
    let p = m.restart("x", &cfg, rclone());
    assert!(p.stop.is_empty() && p.start.is_empty());
    assert_eq!(m.stop_all(), vec!["a", "b"]);
    assert!(m.handles.is_empty());
}

#[test]
fn statuses_follow_the_settings() {
    let cfg = config(vec![mount("b", "1"), mount("a", "1")]);
    let known = vec![("a".to_string(), MountStatus::new(State::Connected, "ok", 1))];
    let all = statuses(&cfg, &known, 9);
    assert_eq!(all[0].0.name, "b");
    assert_eq!((all[0].1.state, all[0].1.detail.as_str(), all[0].1.since), (State::Disabled, "Not started", 9));
    assert_eq!((all[1].1.state, all[1].1.detail.as_str(), all[1].1.since), (State::Connected, "ok", 1));
    assert!(status(&known, "b").is_none());
    assert!(is_named(&cfg.mounts, "a") && !is_named(&cfg.mounts, "c"));
    let s = initial_status(&mount("a", "1"), 3);
    assert_eq!((s.state, s.detail.as_str(), s.since), (State::Starting, "Starting…", 3));
    let off = MountConfig { enabled: false, ..mount("a", "1") };
    let s = initial_status(&off, 3);
    assert_eq!((s.state, s.detail.as_str()), (State::Disabled, "Disabled in settings"));
}

#[test]
fn disabled_mounts_get_no_supervisor() {
    let off = MountConfig { enabled: false, ..mount("b", "1") };
    assert!(!runs(&off) && runs(&mount("a", "1")));
    let mut m = Manager::new(rclone());
    let p = m.apply(&config(vec![mount("a", "1"), off.clone()]), rclone());
    assert_eq!(started(&p), vec![("a", "1")]);
    assert_eq!(p.idle.len(), 1);
    assert_eq!(p.idle[0].name, "b");
    let p = m.apply(&config(vec![MountConfig { enabled: false, ..mount("a", "1") }, off]), rclone());
    assert_eq!(p.stop, vec!["a"]);
    assert!(p.start.is_empty());
    assert_eq!(p.idle[0].name, "a");
    assert_eq!(p.idle.len(), 1);
}
