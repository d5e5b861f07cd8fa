use bucketmount::config::{
    cache_dir_in, collapse_tilde, collapse_tilde_in, config_dir_in, config_path, config_path_in, default_mount_point,
    expand_tilde, expand_tilde_in, file_text, home_dir, home_or_root, logs_dir, logs_dir_in,
    support_dir_in, Config, CredMode, Mode, MountConfig,
};

const HOME: &str = "/Users/me";

fn photos() -> MountConfig {
    MountConfig {
        name: "photos".to_string(),
        bucket: "my-photos-bucket".to_string(),
        mount_point: "~/BucketMount/photos".to_string(),
        region: "us-west-2".to_string(),
        access_key_id: "AKIA".to_string(),
        secret_access_key: "s".to_string(),
        ..MountConfig::default()
    }
}

fn problem(m: &MountConfig, others: &[MountConfig]) -> String {
    m.validate_in(others, HOME).unwrap_err()
}

#[test]
fn defaults() {
    let m = MountConfig::default();
    assert_eq!(m.mode, Mode::Mount);
    assert!(m.enabled);
    assert!(!m.read_only);
    assert_eq!(m.provider, "AWS");
    assert_eq!(m.write_back_secs, 5);
    assert_eq!(m.dir_cache_secs, 60);
    assert_eq!(m.cache_max_size, "10G");
    let c = Config::default();
    assert_eq!(c.start_at_login, None);
    assert_eq!(c.rclone_path, None);
    assert_eq!(c.health_check_interval_secs, 30);
    assert!(c.mounts.is_empty());
}

#[test]
fn clones_are_equal() {
    let mut m = photos();
    m.extra_args = vec!["--fast-list".to_string()];
    assert!(m.clone().same_as(&m));
    let mut other = m.clone();
    other.extra_args.push("--x".to_string());
    assert!(!other.same_as(&m));
    let c = Config { mounts: vec![m], ..Config::default() };
    assert_eq!(c.clone(), c);
}

#[test]
fn credentials_by_precedence() {
    let mut m = photos();
    assert_eq!(m.cred_mode(), CredMode::Keys);
    m.rclone_remote = "mine".to_string();
    assert_eq!(m.cred_mode(), CredMode::RcloneRemote);
    m.rclone_remote = "  ".to_string();
    m.access_key_id = "\t".to_string();
    assert_eq!(m.cred_mode(), CredMode::EnvAuth);
}

#[test]
fn bucket_path_joins_prefix() {
    let mut m = photos();
    assert_eq!(m.bucket_path(), "my-photos-bucket");
    m.prefix = " /a/b/ ".to_string();
    assert_eq!(m.bucket_path(), "my-photos-bucket/a/b");
    m.prefix = "///".to_string();
    assert_eq!(m.bucket_path(), "my-photos-bucket");
}

#[test]
fn valid_mount_is_accepted() {
    assert_eq!(photos().validate_in(&[], HOME), Ok(()));
    assert_eq!(photos().validate(&[]), Ok(()));
}

#[test]
fn invalid_mounts_are_refused() {
    let other = photos();
    let with = |f: fn(&mut MountConfig)| {
        let mut m = photos();
        m.name = "videos".to_string();
        m.mount_point = "/v".to_string();
        f(&mut m);
        m
    };
    let others = [other];
    assert_eq!(with(|_| ()).validate_in(&others, HOME), Ok(()));
    assert_eq!(problem(&with(|m| m.name = " ".to_string()), &others), "Name is required.");
    for bad in ["a/b", "a:b", ".a"] {
        let mut m = with(|_| ());
        m.name = bad.to_string();
        assert_eq!(problem(&m, &others), "Name may not contain '/' or ':' or start with '.'");
    }
    assert_eq!(
        problem(&with(|m| m.name = " photos ".to_string()), &others),
        "A mount named 'photos' already exists."
    );
    assert_eq!(problem(&with(|m| m.bucket = "\n".to_string()), &others), "Bucket is required.");
    assert_eq!(
        problem(&with(|m| m.bucket = "a/b".to_string()), &others),
        "Bucket must be just the bucket name; put sub-folders in 'Path in bucket'."
    );
    assert_eq!(
        problem(&with(|m| m.mount_point = "".to_string()), &others),
        "Mount point is required."
    );
    assert_eq!(
        problem(&with(|m| m.mount_point = "a".to_string()), &others),
        "Mount point must be an absolute path (or start with ~)."
    );
    for root in ["/", "//", "/."] {
        let mut m = with(|_| ());
        m.mount_point = root.to_string();
        assert_eq!(problem(&m, &others), "Mount point cannot be the root directory.");
    }
    assert_eq!(
        problem(&with(|m| m.mount_point = "/Users/me//BucketMount/./photos/".to_string()), &others),
        "Another mount already uses that mount point."
    );
    assert_eq!(
        problem(&with(|m| m.secret_access_key = "".to_string()), &others),
        "Secret access key is required when an access key ID is given."
    );
    assert_eq!(
        problem(&with(|m| m.write_back_secs = 0), &others),
        "Write-back delay must be at least 1 second."
    );
}

#[test]
fn default_mount_points() {
    assert_eq!(default_mount_point(" photos "), "~/BucketMount/photos");
    assert_eq!(default_mount_point(""), "~/BucketMount/");
}

#[test]
fn tilde_expands_and_collapses() {
    assert_eq!(expand_tilde_in(" ~ ", HOME), "/Users/me");
    assert_eq!(expand_tilde_in("~/a/b", HOME), "/Users/me/a/b");
    assert_eq!(expand_tilde_in("~a", HOME), "~a");
    assert_eq!(expand_tilde_in("/x", HOME), "/x");
    assert_eq!(expand_tilde_in("~//x", HOME), "/x");
    assert_eq!(collapse_tilde_in("/Users/me", HOME), "~");
    assert_eq!(collapse_tilde_in("/Users/me/a/b", HOME), "~/a/b");
    assert_eq!(collapse_tilde_in("/Users/meg/a", HOME), "/Users/meg/a");
}

#[test]
fn shown_paths_are_understood() {
    for p in ["/Users/me/a b/c", "/Users/me", "/etc/hosts", "/Users/me/./x/"] {
        let shown = collapse_tilde_in(p, HOME);
        let back = expand_tilde_in(&shown, HOME);
        assert_eq!(std::path::Path::new(&back), std::path::Path::new(p));
    }
}

#[test]
fn home_directory_is_looked_up() {
    let home = home_dir();
    assert!(!home.is_empty());
    assert_eq!(expand_tilde("~"), home);
    assert_eq!(collapse_tilde(&home), "~");
    assert_eq!(logs_dir(), logs_dir_in(&home));
    assert_eq!(home_or_root(None), "/");
    assert_eq!(home_or_root(Some("/h".to_string())), "/h");
}

#[test]
fn directories() {
    assert_eq!(config_dir_in(None, HOME), "/Users/me/.config/bucketmount");
    assert_eq!(config_dir_in(Some(""), HOME), "/Users/me/.config/bucketmount");
    assert_eq!(config_dir_in(Some("/elsewhere"), HOME), "/elsewhere");
    assert_eq!(config_path(Some("/elsewhere")), "/elsewhere/config.toml");
    assert_eq!(config_path_in(None, HOME), "/Users/me/.config/bucketmount/config.toml");
    assert_eq!(logs_dir_in(HOME), "/Users/me/Library/Logs/BucketMount");
    assert_eq!(cache_dir_in(HOME), "/Users/me/Library/Caches/BucketMount");
    assert_eq!(support_dir_in(HOME), "/Users/me/Library/Application Support/BucketMount");
}

#[test]
fn file_has_a_heading() {
    let text = file_text("start_at_login = true\n");
    assert!(text.starts_with("# BucketMount configuration."));
    assert!(text.ends_with("repository.\n\nstart_at_login = true\n"));
}
