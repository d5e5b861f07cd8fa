use bucketmount::mac::{
    bootout_args, bootstrap_args, canonical, ensure_login_item, instance_lock_path_in,
    instance_lock_wait, is_mounted, kill_stale_rclone, launch_agent_path_in, launchctl,
    login_item_matches_exe, mounted_paths, notify, plist_contents, plist_contents_in, run_timeout,
    stale_note, Unmount, UnmountAction,
};
use bucketmount::config::MountConfig;
use bucketmount::rclone::{invocation, mount_args, Finished};

#[test]
fn parents_are_resolved() {
    assert_eq!(canonical("/tmp/x", Some("/private/tmp")), "/private/tmp/x");
    assert_eq!(canonical("/tmp/x", None), "/tmp/x");
    assert_eq!(canonical("/", Some("/private")), "/");
    assert_eq!(canonical("/tmp/..", Some("/private")), "/tmp/..");
}

const TABLE: &str = "/dev/disk3s1s1 on / (apfs, sealed, local)\nmap auto_home on /System/Volumes/Data/home (autofs)\nlocalhost:/x on /Users/me/my photos (old) (nfs)\nnonsense\n";

#[test]
fn mount_table_is_read() {
    assert_eq!(
        mounted_paths(TABLE),
        vec!["/", "/System/Volumes/Data/home", "/Users/me/my photos (old)"]
    );
    let mounted = mounted_paths(TABLE);
    assert!(is_mounted("/Users/me/my photos (old)", "/x", &mounted));
    assert!(is_mounted("/x", "/Users/me//my photos (old)/", &mounted));
    assert!(!is_mounted("/Users/me", "/Users/me", &mounted));
}

#[test]
fn unmounting_escalates() {
    let mut u = Unmount::new("/v");
    let run = |a: UnmountAction| match a {
        UnmountAction::Run { program, args, secs } => (program, args.join(" "), secs),
        other => panic!("{other:?}"),
    };
    let expected = [
        ("/sbin/umount", "/v", 5),
        ("/sbin/umount", "-f /v", 10),
        ("/usr/sbin/diskutil", "unmount force /v", 20),
    ];
    for (program, args, secs) in expected {
        assert_eq!(run(u.looked(true)), (program.to_string(), args.to_string(), secs));
        let result = if secs == 20 { Ok(()) } else { Err(format!("busy {secs}")) };
        assert!(matches!(u.ran(result), UnmountAction::Sleep { millis: 700 }));
        assert!(matches!(u.looked(true), UnmountAction::Look));
    }
    match u.looked(true) {
        UnmountAction::Done { result } => {
            assert_eq!(result, Err("could not unmount /v: busy 10".to_string()))
        }
        other => panic!("{other:?}"),
    }
    assert!(matches!(u.looked(false), UnmountAction::Done { result: Ok(()) }));
    assert!(matches!(Unmount::new("/v").looked(false), UnmountAction::Done { result: Ok(()) }));
}

#[test]
fn commands_succeed_or_say_why() {
    let fin = |success| Ok(Finished { success, stdout: String::new(), stderr: " no\n".to_string() });
    assert_eq!(run_timeout(fin(true)), Ok(()));
    assert_eq!(run_timeout(fin(false)), Err("no".to_string()));
    assert_eq!(run_timeout(Err("e".to_string())), Err("e".to_string()));
    assert_eq!(launchctl(true, "x"), Ok(()));
    assert_eq!(launchctl(false, " x "), Err("x".to_string()));
}

#[test]
fn leftover_processes() {
    let ps = "  101 /r/rclone nfsmount b:x /v --rc\n  102 /r/rclone nfsmount b:x /w\n 103 vi rclone nfsmount /canon/v\n 104 /r/rclone mount /v\nx /r/rclone nfsmount /v\n 105\n 106 rclone nfsmount /v\n";
    assert_eq!(kill_stale_rclone(ps, 106, "/v", "/canon/v"), vec![101, 103]);
    let ps = "  10 rclone nfsmount bucket:b /m/photos-2 --rc\n  11 rclone nfsmount bucket:a /m/photos --rc\n  12 vim /m/photos\n  13 rclone nfsmount b:c /x/m/photos\n";
    assert_eq!(kill_stale_rclone(ps, 99, "/m/photos", "/m/photos"), vec![11]);
    let ps = "  10 rclone nfsmount b:a /m/photos 2 --rc\n  11 rclone nfsmount b:a /m/photos 2\n  12 rclone nfsmount b:a /m/photos\n";
    assert_eq!(kill_stale_rclone(ps, 99, "/m/photos", "/m/photos"), vec![12]);
    assert_eq!(kill_stale_rclone(ps, 99, "/m/photos 2", "/m/photos 2"), vec![10, 11]);
    assert_eq!(kill_stale_rclone("", 1, "/v", "/v"), Vec::<i32>::new());
    assert_eq!(stale_note(101, "/v"), "killing stale rclone pid 101 for /v");
    assert_eq!(stale_note(-7, "/v"), "killing stale rclone pid -7 for /v");
}

#[test]
fn notifications_are_quoted() {
    assert_eq!(
        notify("T", "say \"hi\" \\ bye"),
        "display notification \"say \\\"hi\\\" \\\\ bye\" with title \"T\""
    );
}

#[test]
fn login_item() {
    assert_eq!(
        launch_agent_path_in("/h"),
        "/h/Library/LaunchAgents/com.bucketmount.desktop.plist"
    );
    let exe = "/Applications/BucketMount.app/Contents/MacOS/BucketMount";
    let text = plist_contents_in(exe, "/h");
    assert!(text.starts_with("<?xml version=\"1.0\" encoding=\"UTF-8\"?>\n<!DOCTYPE plist"));
    assert!(text.contains("    <string>com.bucketmount.desktop</string>\n"));
    assert!(text.contains(&format!("        <string>{exe}</string>\n        <string>--background</string>\n")));
    assert!(text.contains("<key>SuccessfulExit</key>\n        <false/>"));
    assert!(text.contains("<string>/h/Library/Logs/BucketMount/launchd.out.log</string>"));
    assert!(text.contains("<string>/h/Library/Logs/BucketMount/launchd.err.log</string>"));
    assert!(text.ends_with("</dict>\n</plist>\n"));
    assert!(login_item_matches_exe(Some(&text), Some(exe)));
    assert!(!login_item_matches_exe(Some(&text), Some("/elsewhere")));
    assert!(!login_item_matches_exe(None, Some(exe)));
    assert!(ensure_login_item(Some(&text), None));
    assert!(!ensure_login_item(Some(&text), Some(exe)));
    assert!(plist_contents(exe).contains(exe));
}

#[test]
fn login_item_is_escaped() {
    let text = plist_contents_in("/A&B/<x>", "/h");
    assert!(text.contains("<string>/A&amp;B/&lt;x&gt;</string>"));
    assert!(login_item_matches_exe(Some(&text), Some("/A&B/<x>")));
    assert!(!ensure_login_item(Some(&text), Some("/A&B/<x>")));
    assert!(!login_item_matches_exe(Some(&text), Some("/A")));
}

#[test]
fn launchctl_arguments() {
    assert_eq!(bootout_args(501), vec!["bootout", "gui/501/com.bucketmount.desktop"]);
    assert_eq!(bootstrap_args(501, "/p"), vec!["bootstrap", "gui/501", "/p"]);
}

#[test]
fn single_instance() {
    assert_eq!(
        instance_lock_path_in("/h"),
        "/h/Library/Application Support/BucketMount/instance.lock"
    );
    assert_eq!(instance_lock_wait(false, true, 29_999_999_999), Some(250));
    assert_eq!(instance_lock_wait(false, true, 30_000_000_000), None);
    assert_eq!(instance_lock_wait(true, true, 0), None);
    assert_eq!(instance_lock_wait(false, false, 0), None);
}

#[test]
fn own_processes_are_recognised() {
    let m = MountConfig { name: "x".to_string(), bucket: "b".to_string(), ..MountConfig::default() };
    let inv = invocation("/r/rclone", &m);
    let args = mount_args(&m, &inv, "/m/my photos", 1);
    let ps = format!("7 {} {}\n", inv.rclone, args.join(" "));
    assert_eq!(kill_stale_rclone(&ps, 99, "/m/my photos", "/c"), vec![7]);
    assert_eq!(kill_stale_rclone(&ps, 99, "/m/my", "/c"), Vec::<i32>::new());
}
