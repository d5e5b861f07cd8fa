//! The application's state as the window shows it, and what its commands do to
//! the settings.

use crate::config;
use crate::config::{Config, MountConfig, MountModel, Mode};
use crate::manager;
use crate::manager::statuses;
use crate::path;
use crate::supervisor;
use crate::supervisor::{elapsed, MountStatus, State, StatusModel};
use crate::text;
use crate::text::{copy_option, is_blank, push_text, same, trim, trim_of, Class};
use vstd::prelude::*;

verus! {

// ---------------------------------------------------------------------------
// What is shown
// ---------------------------------------------------------------------------

/// One mount as the window shows it.
#[derive(Debug)]
pub struct MountView {
    pub config: MountConfig,
    pub state: State,
    pub state_label: &'static str,
    pub color: String,
    pub detail: String,
    pub mounted: bool,
    pub uploads_pending: u64,
    pub restarts: u32,
    pub pid: Option<u32>,
    pub last_ok_secs: Option<u64>,
    pub mount_path: String,
    pub mount_path_short: String,
}

/// What a `MountView` says, as values.
#[verifier::ext_equal]
pub struct ViewModel {
    pub config: MountModel,
    pub state: State,
    pub state_label: Seq<char>,
    pub color: Seq<char>,
    pub detail: Seq<char>,
    pub mounted: bool,
    pub uploads_pending: u64,
    pub restarts: u32,
    pub pid: Option<u32>,
    pub last_ok_secs: Option<int>,
    pub mount_path: Seq<char>,
    pub mount_path_short: Seq<char>,
}

impl View for MountView {
    type V = ViewModel;

    open spec fn view(&self) -> ViewModel {
        ViewModel {
            config: self.config@,
            state: self.state,
            state_label: self.state_label@,
            color: self.color@,
            detail: self.detail@,
            mounted: self.mounted,
            uploads_pending: self.uploads_pending,
            restarts: self.restarts,
            pid: self.pid,
            last_ok_secs: match self.last_ok_secs {
                Some(n) => Some(n as int),
                None => None,
            },
            mount_path: self.mount_path@,
            mount_path_short: self.mount_path_short@,
        }
    }
}

/// How a mount with this status is shown.
pub open spec fn view_of(m: MountModel, s: StatusModel, now: u64, home: Seq<char>) -> ViewModel {
    ViewModel {
        config: m,
        state: s.state,
        state_label: s.state.title(),
        color: s.state.colour_text(),
        detail: s.detail,
        mounted: s.mounted,
        uploads_pending: s.uploads_pending,
        restarts: s.restarts,
        pid: s.pid,
        last_ok_secs: match s.last_ok {
            Some(t) => Some(supervisor::since(t, now) / supervisor::SECOND as int),
            None => None,
        },
        mount_path: m.path_in(home),
        mount_path_short: config::collapsed(m.path_in(home), home),
    }
}

/// Everything the window shows.
#[derive(Debug)]
pub struct Snapshot {
    pub mounts: Vec<MountView>,
    pub start_at_login: Option<bool>,
    pub config_error: Option<String>,
    pub config_path: String,
    pub logs_dir: String,
    pub rclone_path: Option<String>,
    pub rclone_version: Option<String>,
    pub show_login_prompt: bool,
    pub version: String,
}

/// What the application knows when a snapshot is taken.
#[derive(Debug)]
pub struct Known {
    /// The status of each mount that has a supervisor, by name.
    pub statuses: Vec<(String, MountStatus)>,
    /// Why the config file could not be read.
    pub config_error: Option<String>,
    /// Where rclone is, and which version.
    pub rclone: Option<String>,
    pub rclone_version: Option<String>,
    /// The application was started in the background.
    pub background: bool,
    /// The directory that `BUCKETMOUNT_CONFIG_DIR` asks for.
    pub config_dir: Option<String>,
    pub version: String,
    pub now: u64,
}

/// A path as it is shown, if there is one.
pub open spec fn shown_path(p: Option<Seq<char>>, home: Seq<char>) -> Option<Seq<char>> {
    match p {
        Some(p) => Some(config::collapsed(p, home)),
        None => None,
    }
}

/// The snapshot shows what is known.
pub open spec fn shows(r: Snapshot, cfg: Config, known: Known, home: Seq<char>) -> bool {
    let statuses = manager::known_models(known.statuses@);
    &&& r.mounts@.len() == cfg@.mounts.len()
    &&& forall|i: int|
        0 <= i < r.mounts@.len() ==> (#[trigger] r.mounts@[i])@ == view_of(
            cfg@.mounts[i],
            manager::shown_status(statuses, cfg@.mounts[i].name, known.now),
            known.now,
            home,
        )
    &&& r.start_at_login == cfg@.start_at_login
    &&& text::opt_string(r.config_error) == text::opt_string(known.config_error)
    &&& r.config_path@ == config::collapsed(
        config::config_file_path(text::opt_string(known.config_dir), home),
        home,
    )
    &&& r.logs_dir@ == config::collapsed(config::library_path(home, "Logs"@), home)
    &&& text::opt_string(r.rclone_path) == shown_path(text::opt_string(known.rclone), home)
    &&& text::opt_string(r.rclone_version) == text::opt_string(known.rclone_version)
    &&& r.show_login_prompt == (cfg@.start_at_login is None && known.config_error is None
        && !known.background)
    &&& r.version@ == known.version@
}

fn mount_view(m: &MountConfig, s: &MountStatus, now: u64, home: &str) -> (r: MountView)
    requires
        home@.len() > 0,
    ensures
        r@ == view_of(m@, s@, now, home@),
{
    let mount_path = m.mount_path_in(home);
    let mount_path_short = config::collapse_tilde_in(mount_path.as_str(), home);
    MountView {
        config: m.clone(),
        state: s.state,
        state_label: s.state.label(),
        color: s.state.hex(),
        detail: s.detail.clone(),
        mounted: s.mounted,
        uploads_pending: s.uploads_pending,
        restarts: s.restarts,
        pid: s.pid,
        last_ok_secs: match s.last_ok {
            Some(t) => Some(elapsed(t, now) / supervisor::SECOND),
            None => None,
        },
        mount_path,
        mount_path_short,
    }
}

/// Everything the window shows.
pub fn snapshot(cfg: &Config, known: &Known) -> (r: Snapshot)
    ensures
        exists|home: Seq<char>| home.len() > 0 && #[trigger] shows(r, *cfg, *known, home),
{
    snapshot_in(cfg, known, config::home_dir().as_str())
}

pub fn snapshot_in(cfg: &Config, known: &Known, home: &str) -> (r: Snapshot)
    requires
        home@.len() > 0,
    ensures
        shows(r, *cfg, *known, home@),
{
    let all = statuses(cfg, &known.statuses, known.now);
    let mut mounts: Vec<MountView> = Vec::new();
    let mut i: usize = 0;
    while i < all.len()
        invariant
            i <= all.len(),
            mounts.len() == i,
            home@.len() > 0,
            all.len() == cfg@.mounts.len(),
            forall|j: int|
                0 <= j < all.len() ==> (#[trigger] all@[j]).0@ == cfg@.mounts[j] && all@[j].1@
                    == manager::shown_status(
                    manager::known_models(known.statuses@),
                    cfg@.mounts[j].name,
                    known.now,
                ),
            forall|j: int|
                0 <= j < i ==> (#[trigger] mounts@[j])@ == view_of(
                    cfg@.mounts[j],
                    manager::shown_status(
                        manager::known_models(known.statuses@),
                        cfg@.mounts[j].name,
                        known.now,
                    ),
                    known.now,
                    home@,
                ),
        decreases all.len() - i,
    {
        mounts.push(mount_view(&all[i].0, &all[i].1, known.now, home));
        i = i + 1;
    }
    let config_path = config::config_path_in(
        match &known.config_dir {
            Some(d) => Some(d.as_str()),
            None => None,
        },
        home,
    );
    Snapshot {
        mounts,
        start_at_login: cfg.start_at_login,
        config_error: copy_option(&known.config_error),
        config_path: config::collapse_tilde_in(config_path.as_str(), home),
        logs_dir: config::collapse_tilde_in(config::logs_dir_in(home).as_str(), home),
        rclone_path: match &known.rclone {
            Some(p) => Some(config::collapse_tilde_in(p.as_str(), home)),
            None => None,
        },
        rclone_version: copy_option(&known.rclone_version),
        show_login_prompt: cfg.start_at_login.is_none() && known.config_error.is_none()
            && !known.background,
        version: known.version.clone(),
    }
}

/// The last lines of a mount's log that the window shows.
pub fn log_tail(status: Option<&MountStatus>) -> (r: Vec<String>)
    ensures
        text::views(r@) == (match status {
            Some(s) => supervisor::last_lines(s@.log_tail, 80),
            None => Seq::empty(),
        }),
{
    let mut r: Vec<String> = Vec::new();
    assert(text::views(r@) =~= Seq::<Seq<char>>::empty());
    match status {
        Some(s) => {
            let len: usize = s.log_tail.len();
            let from: usize = if len <= 80 {
                0
            } else {
                len - 80
            };
            let ghost all = text::views(s.log_tail@);
            let mut i: usize = from;
            assert(text::views(r@) =~= all.subrange(from as int, i as int));
            while i < len
                invariant
                    from <= i <= len,
                    len == s.log_tail@.len(),
                    all == text::views(s.log_tail@),
                    text::views(r@) == all.subrange(from as int, i as int),
                decreases len - i,
            {
                push_text(&mut r, s.log_tail[i].as_str());
                assert(all.subrange(from as int, i + 1) =~= all.subrange(from as int, i as int).push(
                    all[i as int],
                ));
                i = i + 1;
            }
            assert(all.subrange(from as int, len as int) =~= supervisor::last_lines(all, 80));
        },
        None => {},
    }
    r
}

/// The mount is uploading, mounting or in the middle of a sync.
pub open spec fn busy_with(m: MountModel, s: StatusModel) -> bool {
    s.state == State::Starting || s.state == State::Syncing || s.uploads_pending > 0 || (m.mode
        == Mode::Sync && s.pid is Some)
}

/// Whether any mount is uploading, mounting or in the middle of a sync.
pub fn busy(all: &Vec<(MountConfig, MountStatus)>) -> (r: bool)
    ensures
        r == exists|i: int|
            0 <= i < all@.len() && busy_with((#[trigger] all@[i]).0@, all@[i].1@),
{
    let mut i: usize = 0;
    while i < all.len()
        invariant
            i <= all.len(),
            forall|j: int| 0 <= j < i ==> !busy_with((#[trigger] all@[j]).0@, all@[j].1@),
        decreases all.len() - i,
    {
        let s = &all[i].1;
        if s.state == State::Starting || s.state == State::Syncing || s.uploads_pending > 0 || (
        all[i].0.mode == Mode::Sync && s.pid.is_some()) {
            assert(busy_with(all@[i as int].0@, all@[i as int].1@));
            return true;
        }
        i = i + 1;
    }
    false
}

// ---------------------------------------------------------------------------
// What the commands do
// ---------------------------------------------------------------------------

/// The settings of a mount as they are saved.
pub open spec fn cleaned(m: MountModel) -> MountModel {
    MountModel {
        name: text::trimmed(m.name),
        bucket: text::trimmed(m.bucket),
        prefix: m.clean_prefix(),
        mount_point: text::trimmed(m.mount_point),
        region: text::trimmed(m.region),
        endpoint: text::trimmed(m.endpoint),
        rclone_remote: text::trimmed(m.rclone_remote),
        access_key_id: text::trimmed(m.access_key_id),
        secret_access_key: text::trimmed(m.secret_access_key),
        cache_max_size: if config::blank(m.cache_max_size) {
            "10G"@
        } else {
            m.cache_max_size
        },
        ..m
    }
}

/// `i` is the position of the first of the mounts with the name.
pub open spec fn first_named(mounts: Seq<MountModel>, name: Seq<char>, i: int) -> bool {
    0 <= i < mounts.len() && mounts[i].name == name && forall|j: int|
        0 <= j < i ==> (#[trigger] mounts[j]).name != name
}

/// The position of the mount that is edited, if it is not a new one.
pub open spec fn edited(mounts: Seq<MountModel>, original: Option<Seq<char>>) -> Option<int> {
    match original {
        Some(name) => if manager::has_name(mounts, name) {
            Some(choose|i: int| first_named(mounts, name, i))
        } else {
            None
        },
        None => None,
    }
}

/// The mounts besides the one that is edited.
pub open spec fn besides(mounts: Seq<MountModel>, edited: Option<int>) -> Seq<MountModel> {
    match edited {
        Some(i) => mounts.subrange(0, i) + mounts.subrange(i + 1, mounts.len() as int),
        None => mounts,
    }
}

/// The mounts once one has been edited or added.
pub open spec fn saved(mounts: Seq<MountModel>, edited: Option<int>, m: MountModel) -> Seq<
    MountModel,
> {
    match edited {
        Some(i) => mounts.update(i, m),
        None => mounts.push(m),
    }
}

/// The settings once a mount has been saved, or what is wrong with it.
pub open spec fn save_outcome(
    cfg: config::ConfigModel,
    m: MountModel,
    original: Option<Seq<char>>,
    home: Seq<char>,
) -> Result<config::ConfigModel, Seq<char>> {
    let at = edited(cfg.mounts, original);
    match cleaned(m).problem(besides(cfg.mounts, at), home) {
        Some(e) => Err(e),
        None => Ok(config::ConfigModel { mounts: saved(cfg.mounts, at, cleaned(m)), ..cfg }),
    }
}

fn clean(m: &MountConfig) -> (r: MountConfig)
    ensures
        r@ == cleaned(m@),
{
    let mut r = m.clone();
    r.name = trim(m.name.as_str());
    r.bucket = trim(m.bucket.as_str());
    r.prefix = trim_of(trim(m.prefix.as_str()).as_str(), Class::Only('/'));
    r.mount_point = trim(m.mount_point.as_str());
    r.region = trim(m.region.as_str());
    r.endpoint = trim(m.endpoint.as_str());
    r.rclone_remote = trim(m.rclone_remote.as_str());
    r.access_key_id = trim(m.access_key_id.as_str());
    r.secret_access_key = trim(m.secret_access_key.as_str());
    if is_blank(m.cache_max_size.as_str()) {
        r.cache_max_size = "10G".to_owned();
    }
    r
}

fn position(mounts: &Vec<MountConfig>, name: &str) -> (r: Option<usize>)
    ensures
        match r {
            Some(i) => i < mounts.len() && edited(config::models(mounts@), Some(name@)) == Some(
                i as int,
            ),
            None => edited(config::models(mounts@), Some(name@)) is None,
        },
{
    let ghost all = config::models(mounts@);
    let mut i: usize = 0;
    while i < mounts.len()
        invariant
            i <= mounts.len(),
            all == config::models(mounts@),
            forall|j: int| 0 <= j < i ==> (#[trigger] all[j]).name != name@,
        decreases mounts.len() - i,
    {
        assert(all[i as int] == mounts@[i as int]@);
        if same(mounts[i].name.as_str(), name) {
            proof {
                assert(first_named(all, name@, i as int));
                let c = choose|c: int| first_named(all, name@, c);
                assert(first_named(all, name@, c));
                assert(c == i);
            }
            return Some(i);
        }
        i = i + 1;
    }
    None
}

fn others(mounts: &Vec<MountConfig>, at: Option<usize>) -> (r: Vec<MountConfig>)
    requires
        at matches Some(i) ==> i < mounts.len(),
    ensures
        config::models(r@) == besides(
            config::models(mounts@),
            match at {
                Some(i) => Some(i as int),
                None => None,
            },
        ),
{
    let mut r = config::copy_mounts(mounts);
    match at {
        Some(i) => {
            let ghost before = r@;
            assert(config::models(mounts@).len() == mounts@.len());
            assert(config::models(before).len() == before.len());
            let _ = r.remove(i);
            assert(config::models(r@) =~= config::models(before).subrange(0, i as int)
                + config::models(before).subrange(i + 1, before.len() as int));
        },
        None => {},
    }
    r
}

/// Saves a mount: a new one, or the one that had the name `original`. Nothing
/// is changed where the mount is not valid beside the others.
pub fn save_mount(cfg: &mut Config, mount: &MountConfig, original: Option<&str>) -> (r: Result<
    (),
    String,
>)
    ensures
        exists|home: Seq<char>|
            home.len() > 0 && match (
                r,
                #[trigger] save_outcome(old(cfg)@, mount@, text::opt_str(original), home),
            ) {
                (Ok(_), Ok(after)) => final(cfg)@ == after,
                (Err(e), Err(m)) => e@ == m && final(cfg)@ == old(cfg)@,
                _ => false,
            },
{
    save_mount_in(cfg, mount, original, config::home_dir().as_str())
}

pub fn save_mount_in(
    cfg: &mut Config,
    mount: &MountConfig,
    original: Option<&str>,
    home: &str,
) -> (r: Result<(), String>)
    ensures
        match (r, save_outcome(old(cfg)@, mount@, text::opt_str(original), home@)) {
            (Ok(_), Ok(after)) => final(cfg)@ == after,
            (Err(e), Err(m)) => e@ == m && final(cfg)@ == old(cfg)@,
            _ => false,
        },
{
    let m = clean(mount);
    let at: Option<usize> = match original {
        Some(name) => position(&cfg.mounts, name),
        None => None,
    };
    let beside = others(&cfg.mounts, at);
    match m.validate_in(beside.as_slice(), home) {
        Err(e) => return Err(e),
        Ok(_) => {},
    }
    let ghost before = cfg.mounts@;
    match at {
        Some(i) => {
            cfg.mounts.set(i, m);
            assert(config::models(cfg.mounts@) =~= config::models(before).update(i as int, m@));
        },
        None => {
            cfg.mounts.push(m);
            assert(config::models(cfg.mounts@) =~= config::models(before).push(m@));
        },
    }
    Ok(())
}

/// Deletes the mounts of that name.
pub fn delete_mount(cfg: &mut Config, name: &str) -> (r: Result<(), String>)
    ensures
        match r {
            Ok(_) => manager::has_name(old(cfg)@.mounts, name@),
            Err(e) => !manager::has_name(old(cfg)@.mounts, name@) && e@ == "No mount named '"@
                + name@ + "'."@,
        },
        final(cfg)@ == (config::ConfigModel {
            mounts: manager::others_than(old(cfg)@.mounts, name@),
            ..old(cfg)@
        }),
{
    let found = manager::is_named(&cfg.mounts, name);
    let ghost all = cfg@.mounts;
    let mut rest: Vec<MountConfig> = Vec::new();
    let mut i: usize = 0;
    assert(config::models(rest@) =~= manager::others_than(all.take(0), name@));
    while i < cfg.mounts.len()
        invariant
            i <= cfg.mounts.len(),
            all == config::models(cfg.mounts@),
            config::models(rest@) == manager::others_than(all.take(i as int), name@),
        decreases cfg.mounts.len() - i,
    {
        assert(all.take(i + 1).drop_last() =~= all.take(i as int));
        assert(all.take(i + 1).last() == cfg.mounts@[i as int]@);
        if !same(cfg.mounts[i].name.as_str(), name) {
            let ghost before = rest@;
            let m = cfg.mounts[i].clone();
            rest.push(m);
            assert(config::models(rest@) =~= config::models(before).push(m@));
        }
        i = i + 1;
    }
    assert(all.take(all.len() as int) =~= all);
    cfg.mounts = rest;
    if found {
        Ok(())
    } else {
        Err("No mount named '".to_owned().concat(name).concat("'."))
    }
}

/// Whether the settings may be written; `config_error` says why the config
/// file could not be read.
pub fn commit(config_error: Option<&str>) -> (r: Result<(), String>)
    ensures
        match (config_error, r) {
            (None, Ok(_)) => true,
            (Some(e), Err(m)) => m@ == "The config file could not be read ("@ + e@
                + "). Fix or delete it before saving."@,
            _ => false,
        },
{
    match config_error {
        Some(e) => Err(
            "The config file could not be read (".to_owned().concat(e).concat(
                "). Fix or delete it before saving.",
            ),
        ),
        None => Ok(()),
    }
}

/// Notes that the user wants the application to start at login, or not to.
pub fn set_start_at_login(cfg: &mut Config, enabled: bool)
    ensures
        final(cfg)@ == (config::ConfigModel { start_at_login: Some(enabled), ..old(cfg)@ }),
{
    cfg.start_at_login = Some(enabled);
}

/// The first of the mounts with that name.
pub fn find_mount<'a>(cfg: &'a Config, name: &str) -> (r: Option<&'a MountConfig>)
    ensures
        match (r, edited(cfg@.mounts, Some(name@))) {
            (Some(m), Some(i)) => 0 <= i < cfg@.mounts.len() && m@ == cfg@.mounts[i],
            (None, None) => true,
            _ => false,
        },
{
    match position(&cfg.mounts, name) {
        Some(i) => Some(&cfg.mounts[i]),
        None => None,
    }
}

// ---------------------------------------------------------------------------
// What holds of all settings
// ---------------------------------------------------------------------------

/// No two mounts have the same name or the same mount point.
pub open spec fn distinct(mounts: Seq<MountModel>, home: Seq<char>) -> bool {
    forall|i: int, j: int|
        0 <= i < mounts.len() && 0 <= j < mounts.len() && i != j ==> text::trimmed(
            (#[trigger] mounts[i]).name,
        ) != text::trimmed((#[trigger] mounts[j]).name) && !path::equal_paths(
            mounts[i].path_in(home),
            mounts[j].path_in(home),
        )
}

proof fn lemma_no_problem(m: MountModel, others: Seq<MountModel>, home: Seq<char>, i: int)
    requires
        m.problem(others, home) is None,
        0 <= i < others.len(),
    ensures
        text::trimmed(others[i].name) != text::trimmed(m.name),
        !path::equal_paths(others[i].path_in(home), m.path_in(home)),
{
    assert(!m.name_taken(others));
    assert(!m.path_taken(others, home));
}

/// Saving a mount keeps names and mount points distinct, and leaves the other
/// mounts as they were; what was saved is valid beside them.
pub proof fn lemma_saved_distinct(
    cfg: config::ConfigModel,
    m: MountModel,
    original: Option<Seq<char>>,
    home: Seq<char>,
)
    requires
        distinct(cfg.mounts, home),
        save_outcome(cfg, m, original, home) is Ok,
    ensures
        distinct(save_outcome(cfg, m, original, home)->Ok_0.mounts, home),
        save_outcome(cfg, m, original, home)->Ok_0.mounts.contains(cleaned(m)),
        forall|i: int|
            #![trigger cfg.mounts[i]]
            0 <= i < cfg.mounts.len() && Some(i) != edited(cfg.mounts, original)
                ==> save_outcome(cfg, m, original, home)->Ok_0.mounts[i] == cfg.mounts[i],
{
    let mounts = cfg.mounts;
    let at = edited(mounts, original);
    let new = cleaned(m);
    let rest = besides(mounts, at);
    let after = saved(mounts, at, new);
    match at {
        Some(k) => {
            let name = original->Some_0;
            lemma_edited(mounts, name);
            assert forall|i: int, j: int|
                0 <= i < after.len() && 0 <= j < after.len() && i != j implies text::trimmed(
                (#[trigger] after[i]).name,
            ) != text::trimmed((#[trigger] after[j]).name) && !path::equal_paths(
                after[i].path_in(home),
                after[j].path_in(home),
            ) by {
                if i == k {
                    let at_rest = if j < k { j } else { j - 1 };
                    assert(rest[at_rest] == mounts[j]);
                    lemma_no_problem(new, rest, home, at_rest);
                } else if j == k {
                    let at_rest = if i < k { i } else { i - 1 };
                    assert(rest[at_rest] == mounts[i]);
                    lemma_no_problem(new, rest, home, at_rest);
                }
            }
            assert(after[k] == new);
        },
        None => {
            assert forall|i: int, j: int|
                0 <= i < after.len() && 0 <= j < after.len() && i != j implies text::trimmed(
                (#[trigger] after[i]).name,
            ) != text::trimmed((#[trigger] after[j]).name) && !path::equal_paths(
                after[i].path_in(home),
                after[j].path_in(home),
            ) by {
                if i == mounts.len() {
                    lemma_no_problem(new, rest, home, j);
                } else if j == mounts.len() {
                    lemma_no_problem(new, rest, home, i);
                }
            }
            assert(after[mounts.len() as int] == new);
        },
    }
}

/// The mount that is edited is the first with its name.
pub proof fn lemma_edited(mounts: Seq<MountModel>, name: Seq<char>)
    requires
        manager::has_name(mounts, name),
    ensures
        edited(mounts, Some(name)) matches Some(k) && first_named(mounts, name, k),
{
    let i = choose|i: int| 0 <= i < mounts.len() && (#[trigger] mounts[i]).name == name;
    lemma_first_exists(mounts, name, i);
}

proof fn lemma_first_exists(mounts: Seq<MountModel>, name: Seq<char>, i: int)
    requires
        0 <= i < mounts.len(),
        mounts[i].name == name,
    ensures
        exists|k: int| first_named(mounts, name, k),
    decreases i,
{
    if forall|j: int| 0 <= j < i ==> (#[trigger] mounts[j]).name != name {
        assert(first_named(mounts, name, i));
    } else {
        let j = choose|j: int| 0 <= j < i && (#[trigger] mounts[j]).name == name;
        lemma_first_exists(mounts, name, j);
    }
}

/// Deleting a mount keeps names and mount points distinct, and no mount of that
/// name is left.
pub proof fn lemma_deleted_distinct(mounts: Seq<MountModel>, name: Seq<char>, home: Seq<char>)
    requires
        distinct(mounts, home),
    ensures
        distinct(manager::others_than(mounts, name), home),
        !manager::has_name(manager::others_than(mounts, name), name),
        forall|m: MountModel|
            #![trigger manager::others_than(mounts, name).contains(m)]
            manager::others_than(mounts, name).contains(m) <==> mounts.contains(m) && m.name != name,
    decreases mounts.len(),
{
    manager::lemma_others_than(mounts, name);
    let rest = manager::others_than(mounts, name);
    if mounts.len() > 0 {
        let before = mounts.drop_last();
        assert(distinct(before, home)) by {
            assert forall|i: int, j: int|
                0 <= i < before.len() && 0 <= j < before.len() && i != j implies text::trimmed(
                (#[trigger] before[i]).name,
            ) != text::trimmed((#[trigger] before[j]).name) && !path::equal_paths(
                before[i].path_in(home),
                before[j].path_in(home),
            ) by {
                assert(before[i] == mounts[i] && before[j] == mounts[j]);
            }
        }
        lemma_deleted_distinct(before, name, home);
        manager::lemma_others_than(before, name);
        let shorter = manager::others_than(before, name);
        let last = mounts.last();
        if last.name != name {
            assert forall|i: int, j: int|
                0 <= i < rest.len() && 0 <= j < rest.len() && i != j implies text::trimmed(
                (#[trigger] rest[i]).name,
            ) != text::trimmed((#[trigger] rest[j]).name) && !path::equal_paths(
                rest[i].path_in(home),
                rest[j].path_in(home),
            ) by {
                if i < shorter.len() && j < shorter.len() {
                    assert(rest[i] == shorter[i] && rest[j] == shorter[j]);
                } else {
                    let k = if i < shorter.len() { i } else { j };
                    assert(rest[k] == shorter[k]);
                    assert(shorter.contains(shorter[k]));
                    assert(before.contains(shorter[k]));
                    let p = choose|p: int| 0 <= p < before.len() && before[p] == shorter[k];
                    assert(mounts[p] == shorter[k]);
                    assert(mounts[mounts.len() - 1] == last);
                }
            }
        }
    }
    if manager::has_name(rest, name) {
        let i = choose|i: int| 0 <= i < rest.len() && (#[trigger] rest[i]).name == name;
        assert(rest.contains(rest[i]));
    }
}

} // verus!
