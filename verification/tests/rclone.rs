use bucketmount::config::{Mode, MountConfig};
use bucketmount::rclone::{
    bisync_args, candidates_in, check_connectivity, connectivity_args, free_port, invocation, locate,
    mount_args, mount_args_in, rc_vfs_stats, run_with_timeout, sanitize, spawn_error, stats_args,
    summarize_error, version, wait_step, Finished, Polled, VfsStats, Wait,
};

const HOME: &str = "/Users/me";

fn photos() -> MountConfig {
    MountConfig {
        name: "my photos".to_string(),
        bucket: "b".to_string(),
        mount_point: "~/p".to_string(),
        region: " us-west-2 ".to_string(),
        access_key_id: "AKIA".to_string(),
        secret_access_key: " s ".to_string(),
        ..MountConfig::default()
    }
}

fn pair(k: &str, v: &str) -> (String, String) {
    (k.to_string(), v.to_string())
}

#[test]
fn places_are_tried_in_order() {
    let all = candidates_in(Some(" ~/r "), Some("/A/MacOS"), Some("/bin::/x/"), HOME);
    assert_eq!(
        all,
        vec![
            "/Users/me/r",
            "/A/MacOS/rclone",
            "/A/MacOS/../Resources/rclone",
            "/opt/homebrew/bin/rclone",
            "/usr/local/bin/rclone",
            "/Users/me/.local/bin/rclone",
            "/bin/rclone",
            "rclone",
            "/x/rclone",
        ]
    );
    assert_eq!(candidates_in(Some("  "), None, None, HOME).len(), 3);
    let found = vec![false, true, true];
    let places = vec!["a".to_string(), "b".to_string(), "c".to_string()];
    assert_eq!(locate(&places, &found), Some("b".to_string()));
    assert_eq!(locate(&places, &vec![false, false, false]), None);
}

#[test]
fn version_is_the_first_line() {
    assert_eq!(version("rclone v1.70.1 \n- os: darwin\n"), Some("rclone v1.70.1".to_string()));
    assert_eq!(version(""), None);
}

#[test]
fn inline_keys_define_a_remote() {
    let inv = invocation("/r", &photos());
    assert_eq!(inv.rclone, "/r");
    assert_eq!(inv.remote, "bucket:b");
    let named = MountConfig { aws_profile: "work".to_string(), ..photos() };
    assert_eq!(invocation("/r", &named).env, inv.env);
    assert_eq!(
        inv.env,
        vec![
            pair("RCLONE_CONFIG_BUCKET_TYPE", "s3"),
            pair("RCLONE_CONFIG_BUCKET_PROVIDER", "AWS"),
            pair("RCLONE_CONFIG_BUCKET_REGION", "us-west-2"),
            pair("RCLONE_CONFIG_BUCKET_ACCESS_KEY_ID", "AKIA"),
            pair("RCLONE_CONFIG_BUCKET_SECRET_ACCESS_KEY", "s"),
        ]
    );
}

#[test]
fn other_credentials() {
    let mut m = photos();
    m.access_key_id = String::new();
    m.provider = String::new();
    m.endpoint = "https://e".to_string();
    let inv = invocation("/r", &m);
    assert_eq!(
        inv.env,
        vec![
            pair("RCLONE_CONFIG_BUCKET_TYPE", "s3"),
            pair("RCLONE_CONFIG_BUCKET_REGION", "us-west-2"),
            pair("RCLONE_CONFIG_BUCKET_ENDPOINT", "https://e"),
            pair("RCLONE_CONFIG_BUCKET_ENV_AUTH", "true"),
        ]
    );
    m.aws_profile = " work ".to_string();
    let env = invocation("/r", &m).env;
    assert_eq!(env[3], pair("RCLONE_CONFIG_BUCKET_ENV_AUTH", "true"));
    assert_eq!(env[4], pair("RCLONE_CONFIG_BUCKET_PROFILE", "work"));
    assert_eq!(env.len(), 5);
    m.rclone_remote = " mine ".to_string();
    m.prefix = "x".to_string();
    let inv = invocation("/r", &m);
    assert_eq!(inv.remote, "mine:b/x");
    assert_eq!(inv.env, vec![pair("RCLONE_S3_PROFILE", "work")]);
    m.aws_profile = " ".to_string();
    assert!(invocation("/r", &m).env.is_empty());
}

#[test]
fn command_environment_has_a_path() {
    let inv = invocation("/r", &photos());
    let env = inv.command(Some("/usr/bin"));
    assert_eq!(env.len(), inv.env.len() + 1);
    assert_eq!(env[env.len() - 1], pair("PATH", "/usr/bin:/sbin:/usr/sbin:/usr/bin:/bin"));
    assert_eq!(inv.command(None)[5].1, ":/sbin:/usr/sbin:/usr/bin:/bin");
}

#[test]
fn mount_arguments_follow_settings() {
    let mut m = photos();
    m.dir_cache_secs = 0;
    m.read_only = true;
    m.extra_args = vec!["--fast-list".to_string()];
    let inv = invocation("/r", &m);
    let args = mount_args_in(&m, &inv, "/Users/me/p", 5572, HOME);
    assert_eq!(
        args,
        vec![
            "nfsmount", "bucket:b", "/Users/me/p", "--vfs-cache-mode", "full", "--vfs-write-back",
            "5s", "--vfs-cache-max-size", "10G", "--dir-cache-time", "1s", "--cache-dir",
            "/Users/me/Library/Caches/BucketMount/my_photos/vfs", "--nfs-cache-type", "disk",
            "--nfs-cache-dir", "/Users/me/Library/Caches/BucketMount/my_photos/nfs-handles",
            "--volname", "my photos", "-o", "locallocks", "--rc", "--rc-addr", "127.0.0.1:5572",
            "--rc-no-auth", "--log-level", "INFO", "--use-json-log=false", "--read-only",
            "--fast-list",
        ]
    );
    m.read_only = false;
    m.extra_args.clear();
    assert_eq!(mount_args(&m, &inv, "/Users/me/p", 1).len(), 28);
}

#[test]
fn bisync_arguments_follow_settings() {
    let mut m = photos();
    m.mode = Mode::Sync;
    m.extra_args = vec!["--force".to_string()];
    let inv = invocation("/r", &m);
    let args = bisync_args(&m, &inv, "/f", "/w", false);
    assert_eq!(&args[..6], &["bisync", "/f", "bucket:b", "--workdir", "/w", "--recover"]);
    for excluded in [".DS_Store", "._*", ".*.swp", ".*.swx"] {
        let i = args.iter().position(|a| a == excluded).unwrap();
        assert_eq!(args[i - 1], "--exclude");
    }
    assert!(!args.iter().any(|a| a == "--resync"));
    assert_eq!(args[args.len() - 1], "--force");
    let first = bisync_args(&m, &inv, "/f", "/w", true);
    assert_eq!(&first[first.len() - 4..], &["--resync", "--resync-mode", "newer", "--force"]);
    m.read_only = true;
    assert_eq!(bisync_args(&m, &inv, "/f", "/w", true), first);
}

#[test]
fn other_arguments() {
    let inv = invocation("/r", &photos());
    let args = connectivity_args(&inv);
    assert_eq!(args[0], "lsjson");
    assert_eq!(args[11], "bucket:b");
    assert_eq!(stats_args(80), vec!["rc", "--rc-addr", "127.0.0.1:80", "vfs/stats"]);
    assert_eq!(free_port(Some(7)), 7);
    assert_eq!(free_port(None), 5572);
}

#[test]
fn sanitized_names_are_plain() {
    assert_eq!(sanitize(" a b/c:d-e_f.9 "), "a_b_c_d-e_f.9");
    assert_eq!(sanitize("Ärger"), "_rger");
    assert_eq!(sanitize(&sanitize("x y/z")), "x_y_z");
}

#[test]
fn waits_for_a_command() {
    assert!(matches!(wait_step(Polled::Exited(true), 0, 5), Wait::Finish(true)));
    assert!(matches!(wait_step(Polled::Running, 5_000_000_000, 5), Wait::Again(100)));
    assert!(matches!(wait_step(Polled::Running, 5_000_000_001, 5), Wait::Kill));
    match wait_step(Polled::Failed("gone".to_string()), 0, 5) {
        Wait::Fail(m) => assert_eq!(m, "wait: gone"),
        other => panic!("{other:?}"),
    }
    assert_eq!(spawn_error("no such file"), "spawn rclone: no such file");
    let done = run_with_timeout(Some(false), "o".to_string(), "e".to_string(), 5).unwrap();
    assert_eq!((done.success, done.stdout.as_str(), done.stderr.as_str()), (false, "o", "e"));
    let late = run_with_timeout(None, String::new(), String::new(), 30);
    assert_eq!(late.unwrap_err(), "timed out after 30s");
}

#[test]
fn errors_are_summarised() {
    let stderr = "2026/09/23 09:30:26 INFO  : start\n2026/09/23 09:30:27 ERROR : 403 Forbidden\n\n2026/09/23 09:30:28 NOTICE: bye\n";
    assert_eq!(summarize_error(stderr), "403 Forbidden");
    assert_eq!(summarize_error(""), "unknown error");
    assert_eq!(summarize_error("only one line"), "only one line");
    assert_eq!(summarize_error("a b c"), "a b c");
    assert_eq!(summarize_error("a b 9 lives\r\n"), "a b 9 lives");
    assert_eq!(summarize_error("x y é: 7"), "x y é: 7");
    assert_eq!(summarize_error("first\nFailed to x y 1\nlast"), "Failed to x y 1");
    assert_eq!(summarize_error("first\nlast"), "last");
}

#[test]
fn long_errors_are_cut() {
    let long = "1".repeat(300);
    let cut = summarize_error(&long);
    assert_eq!(cut.chars().count(), 201);
    assert!(cut.ends_with('…'));
    assert_eq!(summarize_error(&"1".repeat(200)), "1".repeat(200));
    // Byte 200 falls inside a character: the cut comes before it.
    let split = format!("1{}", "é".repeat(150));
    assert_eq!(summarize_error(&split), format!("1{}…", "é".repeat(99)));
    let wide = "😀".repeat(60);
    assert_eq!(summarize_error(&wide), format!("{}…", "😀".repeat(50)));
}

#[test]
fn messages_are_kept_whole() {
    let stamp = "2026/09/23 09:30:27 ";
    let summary = |rest: &str| summarize_error(&format!("{stamp}{rest}"));
    assert_eq!(summary("ERROR : bucket 'x' not found"), "bucket 'x' not found");
    assert_eq!(summary("CRITICAL: Failed to lsjson: 403"), "Failed to lsjson: 403");
    assert_eq!(summary("INFO  : error: a b"), "error: a b");
    assert_eq!(summary("Failed to create file system: no"), "Failed to create file system: no");
    assert_eq!(summary("ERRORS : x"), "ERRORS : x");
    assert_eq!(summary("HTTP: error"), "HTTP: error");
    assert_eq!(summary("ERROR : ERROR : x"), "ERROR : x");
    assert_eq!(summary("ERROR :"), "2026/09/23 09:30:27 ERROR :");
    for level in ["EMERGENCY", "ALERT", "CRITICAL", "ERROR", "WARNING", "NOTICE", "INFO", "DEBUG"] {
        assert_eq!(summary(&format!("{level}: m")), "m");
    }
    assert_eq!(summarize_error("ERROR : x"), "ERROR : x");
    assert_eq!(summarize_error("2026-09-23 09:30:27 ERROR : x"), "2026-09-23 09:30:27 ERROR : x");
}

#[test]
fn connectivity_results() {
    let fin = |success: bool, out: &str, err: &str| {
        Ok(Finished { success, stdout: out.to_string(), stderr: err.to_string() })
    };
    assert_eq!(check_connectivity(fin(true, "[{\"Path\":\"a\"},{},3]", "")), Ok(3));
    assert_eq!(check_connectivity(fin(true, "nonsense", "")), Ok(0));
    assert_eq!(
        check_connectivity(fin(false, "", "2026/09/23 09:30:27 ERROR : 403 x")),
        Err("403 x".to_string())
    );
    assert_eq!(
        check_connectivity(fin(false, "", "refresh cached SSO token failed")),
        Err("AWS SSO session expired or invalid".to_string())
    );
    assert_eq!(
        check_connectivity(Err("timed out after 30s".to_string())),
        Err("timed out after 30s".to_string())
    );
}

#[test]
fn upload_queue_is_read() {
    let fin = |success: bool, out: &str, err: &str| {
        Ok(Finished { success, stdout: out.to_string(), stderr: err.to_string() })
    };
    let out = "{\"diskCache\":{\"uploadsQueued\":2,\"uploadsInProgress\":1,\"erroredFiles\":-4}}";
    assert_eq!(
        rc_vfs_stats(fin(true, out, "")),
        Ok(VfsStats { uploads_queued: 2, uploads_in_progress: 1, errored_files: 0 })
    );
    assert_eq!(rc_vfs_stats(fin(true, "[]", "")), Ok(VfsStats::default()));
    assert_eq!(
        rc_vfs_stats(fin(true, "", "")),
        Err("EOF while parsing a value at line 1 column 0".to_string())
    );
    assert_eq!(rc_vfs_stats(fin(false, "", "x y 5")), Err("x y 5".to_string()));
    assert_eq!(rc_vfs_stats(Err("e".to_string())), Err("e".to_string()));
}

#[test]
fn keys_stay_out_of_arguments() {
    let m = photos();
    let mut other = photos();
    other.access_key_id = "AKIB".to_string();
    other.secret_access_key = "t".to_string();
    let (a, b) = (invocation("/r", &m), invocation("/r", &other));
    assert_eq!(mount_args_in(&m, &a, "/p", 1, HOME), mount_args_in(&other, &b, "/p", 1, HOME));
    assert_eq!(bisync_args(&m, &a, "/p", "/w", true), bisync_args(&other, &b, "/p", "/w", true));
    assert_ne!(a.env, b.env);
}
