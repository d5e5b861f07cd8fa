use bucketmount::config::MountConfig;
use bucketmount::supervisor::{MountStatus, State};
use bucketmount::sync::{
    forget_state, has_state, prepare_folder_in, relevant, run_bisync, run_step, workdir_in, Failure,
    FolderFound, FsEvent, RunEnd, RunStep,
};

fn names(v: &[&str]) -> Vec<String> {
    v.iter().map(|s| s.to_string()).collect()
}

#[test]
fn finds_bisync_state() {
    let folder = "/Users/me/git/pete-bucket";
    let mut dir = names(&[]);
    assert!(!has_state(&dir, folder, "bucket:petes-bucket"));
    dir.push("Users_me_git_pete-bucket..bucket_petes-bucket.path1.lst-new".to_string());
    assert!(!has_state(&dir, folder, "bucket:petes-bucket"));
    dir.push("Users_me_git_pete-bucket..bucket_petes-bucket.path1.lst".to_string());
    assert!(has_state(&dir, folder, "bucket:petes-bucket"));
    assert!(!has_state(&dir, folder, "bucket:other"));
}

#[test]
fn ignores_metadata_and_swap_files() {
    let ev = |p: &str| FsEvent { access: false, paths: vec![p.to_string()] };
    assert!(relevant(&ev("/x/slides.md")));
    assert!(!relevant(&ev("/x/.DS_Store")));
    assert!(!relevant(&ev("/x/._slides.md")));
    assert!(!relevant(&ev("/x/.slides.md.swp")));
}

#[test]
fn other_changes() {
    let ev = |access: bool, p: &[&str]| FsEvent { access, paths: names(p) };
    assert!(!relevant(&ev(true, &["/x/slides.md"])));
    assert!(!relevant(&ev(false, &[])));
    assert!(!relevant(&ev(false, &["/x/.a.swx", "/x/.DS_Store"])));
    assert!(relevant(&ev(false, &["/x/.a.swx", "/x/a.swp"])));
    assert!(relevant(&ev(false, &["/x/.."])));
    assert!(relevant(&ev(false, &["/x/.hidden"])));
}

#[test]
fn other_pairs_have_no_state() {
    let dir = names(&["a_b..bucket_x.path1.lst"]);
    assert!(has_state(&dir, "/a/b", "bucket:x"));
    assert!(has_state(&dir, "::a:b", "/bucket/x"));
    assert!(!has_state(&dir, "/a/c", "bucket:x"));
    assert!(!has_state(&dir, "/a/b", "bucket:y"));
    assert!(!has_state(&dir, "/a/b", "bucket:"));
    assert!(!has_state(&dir, "/a", "b..bucket:x"));
    let dir = names(&["Users_me_git_pete-bucket..bucket_petes-bucket.path1.lst"]);
    assert!(!has_state(&dir, "/Users/me/git/pete-bucket", "bucket:petes"));
}

#[test]
fn work_directory() {
    let m = MountConfig { name: "my photos".to_string(), ..MountConfig::default() };
    let dir = workdir_in(&m, "/h");
    assert_eq!(dir, "/h/Library/Application Support/BucketMount/bisync/my_photos");
    assert_eq!(forget_state(&m, "/d"), "[my photos] clearing sync state in /d");
}

#[test]
fn folders_are_prepared() {
    let p = |found| prepare_folder_in("/h/x", found, "/h");
    assert_eq!(p(FolderFound::Folder), Ok(()));
    assert_eq!(p(FolderFound::NotAFolder), Err("~/x is not a folder".to_string()));
    assert_eq!(
        p(FolderFound::CreateFailed("e".to_string())),
        Err("Cannot create folder /h/x: e".to_string())
    );
    assert_eq!(p(FolderFound::UnmountFailed("u".to_string())), Err("u".to_string()));
}

/// What a run has come to, and the process that the status shows afterwards.
fn ended(end: RunEnd, resync: bool) -> (Result<(), Failure>, Option<u32>) {
    let mut status = MountStatus::new(State::Syncing, "", 0);
    status.pid = Some(5);
    let result = run_bisync(end, resync, &mut status);
    (result, status.pid)
}

fn result(end: RunEnd, resync: bool) -> Result<(), Failure> {
    ended(end, resync).0
}

fn other(r: Result<(), Failure>) -> String {
    match r {
        Err(Failure::Other(e)) => e,
        o => panic!("{o:?}"),
    }
}

fn exited(output: &[&str]) -> RunEnd {
    RunEnd::Exited { success: false, output: names(output) }
}

#[test]
fn runs_that_fail() {
    assert!(matches!(
        result(RunEnd::Exited { success: true, output: vec![] }, false),
        Ok(())
    ));
    assert!(matches!(
        result(exited(&["x", "SSO token expired", "y"]), false),
        Err(Failure::SignIn)
    ));
    match result(exited(&["Bisync aborted. Must run --resync to recover: 7"]), false) {
        Err(Failure::NeedsResync(e)) => {
            assert_eq!(e, "Bisync aborted. Must run --resync to recover: 7")
        }
        o => panic!("{o:?}"),
    }
    assert_eq!(
        other(result(exited(&["Bisync aborted. must run --resync to recover: 7"]), true)),
        "Bisync aborted. must run --resync to recover: 7"
    );
    assert_eq!(
        other(result(exited(&["a b too many deletes 9"]), false)),
        "Stopped: more than half the files would be deleted. Check the folder, then pass --force under Extra rclone flags for one run. (a b too many deletes 9)"
    );
    assert_eq!(other(result(exited(&["x y 4"]), false)), "x y 4");
    assert_eq!(other(result(RunEnd::Stopped, false)), "Stopped");
    assert_eq!(other(result(RunEnd::NotStarted("e".into()), false)), "Cannot start rclone: e");
    assert_eq!(other(result(RunEnd::WaitFailed("e".into()), false)), "rclone wait failed: e");
    assert_eq!(
        other(result(RunEnd::NoWorkdir { dir: "/d".into(), error: "e".into() }, false)),
        "Cannot create /d: e"
    );
}

#[test]
fn runs_are_looked_at() {
    assert_eq!(run_step(true, true), RunStep::Terminate);
    assert_eq!(run_step(true, false), RunStep::Terminate);
    assert_eq!(run_step(false, true), RunStep::Done);
    assert_eq!(run_step(false, false), RunStep::Again { millis: 200 });
}

#[test]
fn process_is_gone_after_a_run() {
    assert_eq!(ended(RunEnd::Exited { success: true, output: vec![] }, false).1, None);
    assert_eq!(ended(exited(&["x"]), true).1, None);
    assert_eq!(ended(RunEnd::Stopped, false).1, None);
    assert_eq!(ended(RunEnd::WaitFailed("e".into()), false).1, Some(5));
    assert_eq!(ended(RunEnd::NotStarted("e".into()), false).1, Some(5));
}
