//! Which supervisors run: one for each configured mount. When the settings
//! change, new and changed mounts are started, removed and changed ones
//! stopped, and unchanged ones left alone.

use crate::config;
use crate::config::{Config, MountConfig, MountModel};
use crate::path;
use crate::path::same_path;
use crate::supervisor::{MountStatus, State, StatusModel};
use crate::text;
use crate::text::{push_all, push_text, same};
use vstd::prelude::*;

verus! {

/// The bucket is checked at most this often, in seconds.
pub const MIN_HEALTH_INTERVAL: u64 = 5;

// ---------------------------------------------------------------------------
// Lists of mounts
// ---------------------------------------------------------------------------

/// One of the mounts has the name.
pub open spec fn has_name(mounts: Seq<MountModel>, name: Seq<char>) -> bool {
    exists|i: int| 0 <= i < mounts.len() && (#[trigger] mounts[i]).name == name
}

/// The last of the mounts with the name.
pub open spec fn last_named(mounts: Seq<MountModel>, name: Seq<char>) -> Option<MountModel>
    decreases mounts.len(),
{
    if mounts.len() == 0 {
        None
    } else if mounts.last().name == name {
        Some(mounts.last())
    } else {
        last_named(mounts.drop_last(), name)
    }
}

/// No two of the mounts have the same name.
pub open spec fn unique_names(mounts: Seq<MountModel>) -> bool {
    forall|i: int, j: int|
        0 <= i < j < mounts.len() ==> (#[trigger] mounts[i]).name != (#[trigger] mounts[j]).name
}

/// The position of the last of the mounts with the name.
fn find_last(mounts: &Vec<MountConfig>, name: &str) -> (r: Option<usize>)
    ensures
        match r {
            Some(i) => i < mounts.len() && last_named(config::models(mounts@), name@) == Some(
                mounts@[i as int]@,
            ),
            None => last_named(config::models(mounts@), name@) is None,
        },
{
    let ghost all = config::models(mounts@);
    let mut i: usize = mounts.len();
    assert(all.take(i as int) =~= all);
    while i > 0
        invariant
            i <= mounts.len(),
            all == config::models(mounts@),
            last_named(all, name@) == last_named(all.take(i as int), name@),
        decreases i,
    {
        assert(all.take(i as int).last() == mounts@[i - 1]@);
        if same(mounts[i - 1].name.as_str(), name) {
            return Some(i - 1);
        }
        assert(all.take(i as int).drop_last() =~= all.take(i - 1));
        i = i - 1;
    }
    None
}

/// Whether one of the mounts has the name.
pub fn is_named(mounts: &Vec<MountConfig>, name: &str) -> (r: bool)
    ensures
        r == has_name(config::models(mounts@), name@),
{
    let mut i: usize = 0;
    while i < mounts.len()
        invariant
            i <= mounts.len(),
            forall|j: int| 0 <= j < i ==> (#[trigger] config::models(mounts@)[j]).name != name@,
        decreases mounts.len() - i,
    {
        assert(config::models(mounts@)[i as int] == mounts@[i as int]@);
        if same(mounts[i].name.as_str(), name) {
            return true;
        }
        i = i + 1;
    }
    false
}

fn push_mount(mounts: &mut Vec<MountConfig>, m: &MountConfig)
    ensures
        config::models(final(mounts)@) == config::models(old(mounts)@).push(m@),
{
    mounts.push(m.clone());
    assert(config::models(mounts@) =~= config::models(old(mounts)@).push(m@));
}

// ---------------------------------------------------------------------------
// The manager
// ---------------------------------------------------------------------------

/// The mounts that are looked after, each with the settings it was added with,
/// and the rclone they run. Those that are enabled have a supervisor.
#[derive(Debug)]
pub struct Manager {
    pub handles: Vec<MountConfig>,
    pub rclone: Option<String>,
}

/// What is to be done about supervisors: all that are named in `stop` are
/// stopped, then one is started for each of `start`. The mounts of `idle` are
/// disabled: they get a status, but no supervisor.
#[derive(Debug)]
pub struct Plan {
    pub stop: Vec<String>,
    pub start: Vec<MountConfig>,
    pub idle: Vec<MountConfig>,
    /// How often the started ones check their bucket, in seconds.
    pub health_interval_secs: u64,
}

/// What a `Manager` says, as values.
#[verifier::ext_equal]
pub struct ManagerModel {
    pub handles: Seq<MountModel>,
    pub rclone: Option<Seq<char>>,
}

impl View for Manager {
    type V = ManagerModel;

    open spec fn view(&self) -> ManagerModel {
        ManagerModel {
            handles: config::models(self.handles@),
            rclone: text::opt_string(self.rclone),
        }
    }
}

/// Two places for rclone are the same.
pub open spec fn same_place(a: Option<Seq<char>>, b: Option<Seq<char>>) -> bool {
    match (a, b) {
        (Some(p), Some(q)) => path::equal_paths(p, q),
        (None, None) => true,
        _ => false,
    }
}

fn is_same_place(a: &Option<String>, b: &Option<String>) -> (r: bool)
    ensures
        r == same_place(text::opt_string(*a), text::opt_string(*b)),
{
    match (a, b) {
        (Some(p), Some(q)) => same_path(p.as_str(), q.as_str()),
        (None, None) => true,
        _ => false,
    }
}

/// A running mount is left alone: its settings are those now wanted, and
/// rclone is the same.
pub open spec fn left_alone(handle: MountModel, mounts: Seq<MountModel>, rclone_same: bool) -> bool {
    rclone_same && last_named(mounts, handle.name) == Some(handle)
}

/// Those of the running mounts that are left alone.
pub open spec fn survivors(
    handles: Seq<MountModel>,
    mounts: Seq<MountModel>,
    rclone_same: bool,
) -> Seq<MountModel>
    decreases handles.len(),
{
    if handles.len() == 0 {
        handles
    } else {
        let rest = survivors(handles.drop_last(), mounts, rclone_same);
        if left_alone(handles.last(), mounts, rclone_same) {
            rest.push(handles.last())
        } else {
            rest
        }
    }
}

/// The names of those of the running mounts that are stopped.
pub open spec fn casualties(
    handles: Seq<MountModel>,
    mounts: Seq<MountModel>,
    rclone_same: bool,
) -> Seq<Seq<char>>
    decreases handles.len(),
{
    if handles.len() == 0 {
        Seq::empty()
    } else {
        let rest = casualties(handles.drop_last(), mounts, rclone_same);
        if left_alone(handles.last(), mounts, rclone_same) {
            rest
        } else {
            rest.push(handles.last().name)
        }
    }
}

/// `handles` and, in their order, those of the mounts whose name was missing.
pub open spec fn filled(handles: Seq<MountModel>, mounts: Seq<MountModel>) -> Seq<MountModel>
    decreases mounts.len(),
{
    if mounts.len() == 0 {
        handles
    } else {
        let rest = filled(handles, mounts.drop_last());
        if has_name(rest, mounts.last().name) {
            rest
        } else {
            rest.push(mounts.last())
        }
    }
}

impl ManagerModel {
    /// No mount is looked after twice.
    pub open spec fn wf(self) -> bool {
        unique_names(self.handles)
    }

    pub open spec fn kept(self, mounts: Seq<MountModel>, rclone: Option<Seq<char>>) -> Seq<
        MountModel,
    > {
        survivors(self.handles, mounts, same_place(self.rclone, rclone))
    }

    pub open spec fn stopped(self, mounts: Seq<MountModel>, rclone: Option<Seq<char>>) -> Seq<
        Seq<char>,
    > {
        casualties(self.handles, mounts, same_place(self.rclone, rclone))
    }

    /// The manager once the settings have been applied.
    pub open spec fn applied(
        self,
        mounts: Seq<MountModel>,
        rclone: Option<Seq<char>>,
    ) -> ManagerModel {
        ManagerModel { handles: filled(self.kept(mounts, rclone), mounts), rclone }
    }

    /// The mounts that are new or have changed.
    pub open spec fn added(self, mounts: Seq<MountModel>, rclone: Option<Seq<char>>) -> Seq<
        MountModel,
    > {
        let all = self.applied(mounts, rclone).handles;
        all.subrange(self.kept(mounts, rclone).len() as int, all.len() as int)
    }

    /// The mounts that get a supervisor.
    pub open spec fn started(self, mounts: Seq<MountModel>, rclone: Option<Seq<char>>) -> Seq<
        MountModel,
    > {
        chosen(self.added(mounts, rclone), true)
    }

    /// The mounts that get a status, but no supervisor.
    pub open spec fn idle(self, mounts: Seq<MountModel>, rclone: Option<Seq<char>>) -> Seq<
        MountModel,
    > {
        chosen(self.added(mounts, rclone), false)
    }

    /// The manager without the mount of that name.
    pub open spec fn without(self, name: Seq<char>) -> ManagerModel {
        ManagerModel { handles: others_than(self.handles, name), rclone: self.rclone }
    }
}

/// The mounts that are enabled, or those that are not.
pub open spec fn chosen(mounts: Seq<MountModel>, enabled: bool) -> Seq<MountModel>
    decreases mounts.len(),
{
    if mounts.len() == 0 {
        mounts
    } else {
        let rest = chosen(mounts.drop_last(), enabled);
        if mounts.last().enabled == enabled {
            rest.push(mounts.last())
        } else {
            rest
        }
    }
}

/// The mounts with other names.
pub open spec fn others_than(mounts: Seq<MountModel>, name: Seq<char>) -> Seq<MountModel>
    decreases mounts.len(),
{
    if mounts.len() == 0 {
        mounts
    } else {
        let rest = others_than(mounts.drop_last(), name);
        if mounts.last().name == name {
            rest
        } else {
            rest.push(mounts.last())
        }
    }
}

/// How often the bucket is checked, in seconds.
pub open spec fn health_interval(wish: u64) -> u64 {
    if wish < MIN_HEALTH_INTERVAL {
        MIN_HEALTH_INTERVAL
    } else {
        wish
    }
}

proof fn lemma_filled_extends(handles: Seq<MountModel>, mounts: Seq<MountModel>)
    ensures
        filled(handles, mounts).len() >= handles.len(),
        filled(handles, mounts).take(handles.len() as int) == handles,
        unique_names(handles) ==> unique_names(filled(handles, mounts)),
    decreases mounts.len(),
{
    if mounts.len() > 0 {
        lemma_filled_extends(handles, mounts.drop_last());
        let rest = filled(handles, mounts.drop_last());
        if !has_name(rest, mounts.last().name) {
            let all = filled(handles, mounts);
            assert(all.take(handles.len() as int) =~= rest.take(handles.len() as int));
        }
    } else {
        assert(handles.take(handles.len() as int) =~= handles);
    }
}

proof fn lemma_survivors(handles: Seq<MountModel>, mounts: Seq<MountModel>, rclone_same: bool)
    ensures
        forall|h: MountModel|
            #![trigger survivors(handles, mounts, rclone_same).contains(h)]
            #![trigger handles.contains(h)]
            survivors(handles, mounts, rclone_same).contains(h) <==> handles.contains(h)
                && left_alone(h, mounts, rclone_same),
        unique_names(handles) ==> unique_names(survivors(handles, mounts, rclone_same)),
    decreases handles.len(),
{
    if handles.len() > 0 {
        let rest = survivors(handles.drop_last(), mounts, rclone_same);
        lemma_survivors(handles.drop_last(), mounts, rclone_same);
        let all = survivors(handles, mounts, rclone_same);
        let last = handles.last();
        assert forall|h: MountModel| all.contains(h) <==> handles.contains(h) && left_alone(
            h,
            mounts,
            rclone_same,
        ) by {
            assert(handles =~= handles.drop_last().push(last));
            if left_alone(last, mounts, rclone_same) {
                assert(all =~= rest.push(last));
                if rest.contains(h) {
                    let i = rest.index_of(h);
                    assert(all[i] == h);
                }
                assert(all[all.len() - 1] == last);
            }
            if handles.contains(h) && h != last {
                let i = handles.index_of(h);
                assert(handles.drop_last()[i] == h);
            }
            if handles.drop_last().contains(h) {
                let i = handles.drop_last().index_of(h);
                assert(handles[i] == h);
            }
        }
        if unique_names(handles) && left_alone(last, mounts, rclone_same) {
            assert(unique_names(handles.drop_last()));
            assert forall|i: int, j: int| 0 <= i < j < all.len() implies (#[trigger] all[i]).name
                != (#[trigger] all[j]).name by {
                if j == all.len() - 1 {
                    assert(rest.contains(rest[i]));
                    assert(handles.drop_last().contains(rest[i]));
                    let k = choose|k: int|
                        0 <= k < handles.drop_last().len() && handles.drop_last()[k] == rest[i];
                    assert(handles[k] == rest[i]);
                    assert(all[i] == rest[i]);
                }
            }
        }
    }
}

impl Manager {
    pub fn new(rclone: Option<String>) -> (r: Self)
        ensures
            r@ == (ManagerModel { handles: Seq::empty(), rclone: text::opt_string(rclone) }),
            r@.wf(),
    {
        let handles: Vec<MountConfig> = Vec::new();
        assert(config::models(handles@) =~= Seq::<MountModel>::empty());
        Manager { handles, rclone }
    }

    pub fn rclone(&self) -> (r: Option<&str>)
        ensures
            text::opt_str(r) == self@.rclone,
    {
        match &self.rclone {
            Some(p) => Some(p.as_str()),
            None => None,
        }
    }

    /// Bring the running supervisors in line with `cfg`: start new/changed
    /// mounts, stop removed/disabled ones, leave unchanged ones alone. `rclone`
    /// is where rclone is now.
    pub fn apply(&mut self, cfg: &Config, rclone: Option<String>) -> (r: Plan)
        ensures
            final(self)@ == old(self)@.applied(cfg@.mounts, text::opt_string(rclone)),
            old(self)@.wf() ==> final(self)@.wf(),
            text::views(r.stop@) == old(self)@.stopped(cfg@.mounts, text::opt_string(rclone)),
            config::models(r.start@) == old(self)@.started(cfg@.mounts, text::opt_string(rclone)),
            config::models(r.idle@) == old(self)@.idle(cfg@.mounts, text::opt_string(rclone)),
            r.health_interval_secs == health_interval(cfg@.health_check_interval_secs),
    {
        let rclone_same = is_same_place(&self.rclone, &rclone);
        let ghost handles = self@.handles;
        let ghost mounts = cfg@.mounts;

        // Stop what is gone or changed.
        let mut stop: Vec<String> = Vec::new();
        let mut kept: Vec<MountConfig> = Vec::new();
        let mut i: usize = 0;
        assert(text::views(stop@) =~= casualties(handles.take(0), mounts, rclone_same));
        assert(config::models(kept@) =~= survivors(handles.take(0), mounts, rclone_same));
        while i < self.handles.len()
            invariant
                i <= self.handles.len(),
                handles == config::models(self.handles@),
                mounts == config::models(cfg.mounts@),
                text::views(stop@) == casualties(handles.take(i as int), mounts, rclone_same),
                config::models(kept@) == survivors(handles.take(i as int), mounts, rclone_same),
            decreases self.handles.len() - i,
        {
            assert(handles.take(i + 1).drop_last() =~= handles.take(i as int));
            assert(handles.take(i + 1).last() == self.handles@[i as int]@);
            let h = &self.handles[i];
            let alone = match find_last(&cfg.mounts, h.name.as_str()) {
                Some(k) => rclone_same && cfg.mounts[k].same_as(h),
                None => false,
            };
            assert(alone == left_alone(h@, mounts, rclone_same));
            if alone {
                push_mount(&mut kept, h);
            } else {
                push_text(&mut stop, h.name.as_str());
            }
            i = i + 1;
        }
        assert(handles.take(handles.len() as int) =~= handles);

        // Start what is missing.
        let ghost kept_model = config::models(kept@);
        let kept_len: usize = kept.len();
        let ghost mut added = Seq::<MountModel>::empty();
        let mut start: Vec<MountConfig> = Vec::new();
        let mut idle: Vec<MountConfig> = Vec::new();
        let mut i: usize = 0;
        assert(added =~= kept_model.skip(kept_len as int));
        assert(config::models(start@) =~= chosen(added, true));
        assert(config::models(idle@) =~= chosen(added, false));
        assert(filled(kept_model, mounts.take(0)) =~= kept_model);
        while i < cfg.mounts.len()
            invariant
                i <= cfg.mounts.len(),
                mounts == config::models(cfg.mounts@),
                config::models(kept@) == filled(kept_model, mounts.take(i as int)),
                kept_len == kept_model.len(),
                config::models(kept@).len() >= kept_len,
                added == config::models(kept@).subrange(
                    kept_len as int,
                    config::models(kept@).len() as int,
                ),
                config::models(start@) == chosen(added, true),
                config::models(idle@) == chosen(added, false),
            decreases cfg.mounts.len() - i,
        {
            assert(mounts.take(i + 1).drop_last() =~= mounts.take(i as int));
            assert(mounts.take(i + 1).last() == cfg.mounts@[i as int]@);
            let m = &cfg.mounts[i];
            if !is_named(&kept, m.name.as_str()) {
                push_mount(&mut kept, m);
                if runs(m) {
                    push_mount(&mut start, m);
                } else {
                    push_mount(&mut idle, m);
                }
                proof {
                    assert(added.push(m@).drop_last() =~= added);
                    added = added.push(m@);
                }
                assert(added =~= config::models(kept@).subrange(
                    kept_len as int,
                    config::models(kept@).len() as int,
                ));
            }
            i = i + 1;
        }
        assert(mounts.take(mounts.len() as int) =~= mounts);
        proof {
            lemma_survivors(handles, mounts, rclone_same);
            lemma_filled_extends(kept_model, mounts);
        }
        self.handles = kept;
        self.rclone = rclone;
        let wish: u64 = cfg.health_check_interval_secs;
        Plan {
            stop,
            start,
            idle,
            health_interval_secs: if wish < MIN_HEALTH_INTERVAL {
                MIN_HEALTH_INTERVAL
            } else {
                wish
            },
        }
    }

    /// Forgets the mount of that name; whether there was one.
    fn remove(&mut self, name: &str) -> (r: bool)
        ensures
            final(self)@ == old(self)@.without(name@),
            r == has_name(old(self)@.handles, name@),
    {
        let found = is_named(&self.handles, name);
        let ghost handles = self@.handles;
        let mut rest: Vec<MountConfig> = Vec::new();
        let mut i: usize = 0;
        assert(config::models(rest@) =~= others_than(handles.take(0), name@));
        while i < self.handles.len()
            invariant
                i <= self.handles.len(),
                handles == config::models(self.handles@),
                config::models(rest@) == others_than(handles.take(i as int), name@),
            decreases self.handles.len() - i,
        {
            assert(handles.take(i + 1).drop_last() =~= handles.take(i as int));
            assert(handles.take(i + 1).last() == self.handles@[i as int]@);
            if !same(self.handles[i].name.as_str(), name) {
                push_mount(&mut rest, &self.handles[i]);
            }
            i = i + 1;
        }
        assert(handles.take(handles.len() as int) =~= handles);
        self.handles = rest;
        found
    }

    /// Stop and immediately start again (user-requested).
    pub fn restart(&mut self, name: &str, cfg: &Config, rclone: Option<String>) -> (r: Plan)
        ensures
            final(self)@ == old(self)@.without(name@).applied(
                cfg@.mounts,
                text::opt_string(rclone),
            ),
            old(self)@.wf() ==> final(self)@.wf(),
            text::views(r.stop@) == (if has_name(old(self)@.handles, name@) {
                seq![name@]
            } else {
                Seq::empty()
            }) + old(self)@.without(name@).stopped(cfg@.mounts, text::opt_string(rclone)),
            config::models(r.start@) == old(self)@.without(name@).started(
                cfg@.mounts,
                text::opt_string(rclone),
            ),
            config::models(r.idle@) == old(self)@.without(name@).idle(
                cfg@.mounts,
                text::opt_string(rclone),
            ),
            r.health_interval_secs == health_interval(cfg@.health_check_interval_secs),
    {
        proof {
            lemma_others_than(self@.handles, name@);
        }
        let mut stop: Vec<String> = Vec::new();
        assert(text::views(stop@) =~= Seq::<Seq<char>>::empty());
        if self.remove(name) {
            push_text(&mut stop, name);
        }
        let plan = self.apply(cfg, rclone);
        push_all(&mut stop, &plan.stop);
        Plan {
            stop,
            start: plan.start,
            idle: plan.idle,
            health_interval_secs: plan.health_interval_secs,
        }
    }

    /// Forgets all mounts: the names of those whose supervisors have to be
    /// stopped.
    pub fn stop_all(&mut self) -> (r: Vec<String>)
        ensures
            final(self)@ == (ManagerModel { handles: Seq::empty(), rclone: old(self)@.rclone }),
            text::views(r@) == old(self)@.handles.map_values(|h: MountModel| h.name),
    {
        let ghost names = self@.handles.map_values(|h: MountModel| h.name);
        let mut r: Vec<String> = Vec::new();
        let mut i: usize = 0;
        assert(text::views(r@) =~= names.take(0));
        while i < self.handles.len()
            invariant
                i <= self.handles.len(),
                names == config::models(self.handles@).map_values(|h: MountModel| h.name),
                text::views(r@) == names.take(i as int),
            decreases self.handles.len() - i,
        {
            push_text(&mut r, self.handles[i].name.as_str());
            assert(names.take(i + 1) =~= names.take(i as int).push(names[i as int]));
            i = i + 1;
        }
        assert(names.take(names.len() as int) =~= names);
        self.handles = Vec::new();
        assert(config::models(self.handles@) =~= Seq::<MountModel>::empty());
        r
    }
}

/// What is left without the mounts of a name.
pub proof fn lemma_others_than(mounts: Seq<MountModel>, name: Seq<char>)
    ensures
        forall|m: MountModel|
            #![trigger others_than(mounts, name).contains(m)]
            #![trigger mounts.contains(m)]
            others_than(mounts, name).contains(m) <==> mounts.contains(m) && m.name != name,
        unique_names(mounts) ==> unique_names(others_than(mounts, name)),
    decreases mounts.len(),
{
    if mounts.len() > 0 {
        let last = mounts.last();
        let before = mounts.drop_last();
        let rest = others_than(before, name);
        let all = others_than(mounts, name);
        lemma_others_than(before, name);
        assert(mounts =~= before.push(last));
        assert forall|m: MountModel| all.contains(m) <==> mounts.contains(m) && m.name != name by {
            if mounts.contains(m) && m != last {
                let i = choose|i: int| 0 <= i < mounts.len() && mounts[i] == m;
                assert(before[i] == m);
            }
            if before.contains(m) {
                let i = choose|i: int| 0 <= i < before.len() && before[i] == m;
                assert(mounts[i] == m);
            }
            if last.name != name {
                assert(all =~= rest.push(last));
                assert(all[all.len() - 1] == last);
                if rest.contains(m) {
                    let i = choose|i: int| 0 <= i < rest.len() && rest[i] == m;
                    assert(all[i] == m);
                }
            }
        }
        if unique_names(mounts) && last.name != name {
            assert(unique_names(before));
            assert forall|i: int, j: int| 0 <= i < j < all.len() implies (#[trigger] all[i]).name
                != (#[trigger] all[j]).name by {
                if j == all.len() - 1 {
                    assert(rest.contains(rest[i]));
                    assert(before.contains(rest[i]));
                    let k = choose|k: int| 0 <= k < before.len() && before[k] == rest[i];
                    assert(mounts[k] == rest[i]);
                    assert(all[i] == rest[i]);
                }
            }
        }
    }
}

// ---------------------------------------------------------------------------
// Statuses
// ---------------------------------------------------------------------------

/// Whether a mount has a supervisor at all.
pub fn runs(m: &MountConfig) -> (r: bool)
    ensures
        r == m@.enabled,
{
    m.enabled
}

/// The status of a mount whose supervisor is about to be started, or that is
/// disabled and gets none.
pub fn initial_status(m: &MountConfig, now: u64) -> (r: MountStatus)
    ensures
        r@ == (if m@.enabled {
            StatusModel::fresh(State::Starting, "Starting…"@, now)
        } else {
            StatusModel::fresh(State::Disabled, "Disabled in settings"@, now)
        }),
{
    if m.enabled {
        MountStatus::new(State::Starting, "Starting…", now)
    } else {
        MountStatus::new(State::Disabled, "Disabled in settings", now)
    }
}

/// The statuses that are known, by name, as values.
pub open spec fn known_models(known: Seq<(String, MountStatus)>) -> Seq<(Seq<char>, StatusModel)> {
    Seq::new(known.len(), |i: int| (known[i].0@, known[i].1@))
}

/// The status of the mount of that name.
pub open spec fn status_of(known: Seq<(Seq<char>, StatusModel)>, name: Seq<char>) -> Option<
    StatusModel,
>
    decreases known.len(),
{
    if known.len() == 0 {
        None
    } else if known[0].0 == name {
        Some(known[0].1)
    } else {
        status_of(known.skip(1), name)
    }
}

/// The status that is shown for the mount of that name.
pub open spec fn shown_status(
    known: Seq<(Seq<char>, StatusModel)>,
    name: Seq<char>,
    now: u64,
) -> StatusModel {
    match status_of(known, name) {
        Some(s) => s,
        None => StatusModel::fresh(State::Disabled, "Not started"@, now),
    }
}

/// The status of the mount of that name.
pub fn status(known: &Vec<(String, MountStatus)>, name: &str) -> (r: Option<MountStatus>)
    ensures
        match r {
            Some(s) => status_of(known_models(known@), name@) == Some(s@),
            None => status_of(known_models(known@), name@) is None,
        },
{
    let ghost all = known_models(known@);
    let mut i: usize = 0;
    assert(all.skip(0) =~= all);
    while i < known.len()
        invariant
            i <= known.len(),
            all == known_models(known@),
            status_of(all, name@) == status_of(all.skip(i as int), name@),
        decreases known.len() - i,
    {
        assert(all.skip(i as int)[0] == all[i as int]);
        assert(all.skip(i as int).skip(1) =~= all.skip(i + 1));
        if same(known[i].0.as_str(), name) {
            return Some(known[i].1.clone());
        }
        i = i + 1;
    }
    None
}

/// Statuses in the order of the config's mount list.
pub fn statuses(cfg: &Config, known: &Vec<(String, MountStatus)>, now: u64) -> (r: Vec<
    (MountConfig, MountStatus),
>)
    ensures
        r.len() == cfg.mounts.len(),
        forall|i: int|
            0 <= i < r.len() ==> (#[trigger] r@[i]).0@ == cfg@.mounts[i] && r@[i].1@
                == shown_status(known_models(known@), cfg@.mounts[i].name, now),
{
    let mut r: Vec<(MountConfig, MountStatus)> = Vec::new();
    let mut i: usize = 0;
    while i < cfg.mounts.len()
        invariant
            i <= cfg.mounts.len(),
            r.len() == i,
            forall|j: int|
                0 <= j < i ==> (#[trigger] r@[j]).0@ == cfg@.mounts[j] && r@[j].1@ == shown_status(
                    known_models(known@),
                    cfg@.mounts[j].name,
                    now,
                ),
        decreases cfg.mounts.len() - i,
    {
        let m = &cfg.mounts[i];
        let s = match status(known, m.name.as_str()) {
            Some(s) => s,
            None => MountStatus::new(State::Disabled, "Not started", now),
        };
        r.push((m.clone(), s));
        i = i + 1;
    }
    r
}

// ---------------------------------------------------------------------------
// What holds of every manager
// ---------------------------------------------------------------------------

proof fn lemma_last_named(mounts: Seq<MountModel>, name: Seq<char>)
    ensures
        last_named(mounts, name) is Some <==> has_name(mounts, name),
        last_named(mounts, name) matches Some(m) ==> m.name == name && mounts.contains(m),
        unique_names(mounts) ==> forall|i: int|
            0 <= i < mounts.len() && (#[trigger] mounts[i]).name == name ==> last_named(mounts, name)
                == Some(mounts[i]),
    decreases mounts.len(),
{
    if mounts.len() > 0 {
        let before = mounts.drop_last();
        lemma_last_named(before, name);
        assert(mounts[mounts.len() - 1] == mounts.last());
        if has_name(before, name) {
            let i = choose|i: int| 0 <= i < before.len() && (#[trigger] before[i]).name == name;
            assert(mounts[i].name == name);
        }
        if has_name(mounts, name) && mounts.last().name != name {
            let i = choose|i: int| 0 <= i < mounts.len() && (#[trigger] mounts[i]).name == name;
            assert(before[i].name == name);
        }
        if last_named(mounts, name) is Some && mounts.last().name != name {
            let m = last_named(mounts, name)->Some_0;
            let i = choose|i: int| 0 <= i < before.len() && before[i] == m;
            assert(mounts[i] == m);
        }
        if unique_names(mounts) {
            assert(unique_names(before));
            assert forall|i: int|
                0 <= i < mounts.len() && (#[trigger] mounts[i]).name == name implies last_named(
                mounts,
                name,
            ) == Some(mounts[i]) by {
                if i < mounts.len() - 1 {
                    assert(before[i] == mounts[i]);
                }
            }
        }
    }
}

proof fn lemma_filled_names(handles: Seq<MountModel>, mounts: Seq<MountModel>, name: Seq<char>)
    ensures
        has_name(filled(handles, mounts), name) <==> has_name(handles, name) || has_name(
            mounts,
            name,
        ),
        forall|m: MountModel| #[trigger]
            filled(handles, mounts).contains(m) ==> handles.contains(m) || mounts.contains(m),
    decreases mounts.len(),
{
    if mounts.len() > 0 {
        let before = mounts.drop_last();
        let last = mounts.last();
        let rest = filled(handles, before);
        let all = filled(handles, mounts);
        lemma_filled_names(handles, before, name);
        assert(mounts =~= before.push(last));
        assert(has_name(mounts, name) <==> has_name(before, name) || last.name == name) by {
            if has_name(before, name) {
                let i = choose|i: int| 0 <= i < before.len() && (#[trigger] before[i]).name == name;
                assert(mounts[i].name == name);
            }
            if has_name(mounts, name) && last.name != name {
                let i = choose|i: int| 0 <= i < mounts.len() && (#[trigger] mounts[i]).name == name;
                assert(before[i].name == name);
            }
            assert(mounts[mounts.len() - 1] == last);
        }
        if !has_name(rest, last.name) {
            assert(has_name(all, name) <==> has_name(rest, name) || last.name == name) by {
                if has_name(rest, name) {
                    let i = choose|i: int| 0 <= i < rest.len() && (#[trigger] rest[i]).name == name;
                    assert(all[i].name == name);
                }
                if has_name(all, name) && last.name != name {
                    let i = choose|i: int| 0 <= i < all.len() && (#[trigger] all[i]).name == name;
                    assert(rest[i].name == name);
                }
                assert(all[all.len() - 1] == last);
            }
        }
        assert forall|m: MountModel| all.contains(m) implies handles.contains(m) || mounts.contains(
            m,
        ) by {
            let i = choose|i: int| 0 <= i < all.len() && all[i] == m;
            if i < rest.len() {
                assert(rest[i] == m);
                assert(rest.contains(m));
                if before.contains(m) {
                    let j = choose|j: int| 0 <= j < before.len() && before[j] == m;
                    assert(mounts[j] == m);
                }
            } else {
                assert(mounts[mounts.len() - 1] == last);
            }
        }
    }
}

/// Once the settings have been applied one mount is looked after for each name
/// in them and for no other, and the settings of each are among them.
pub proof fn lemma_applied_covers(
    m: ManagerModel,
    mounts: Seq<MountModel>,
    rclone: Option<Seq<char>>,
)
    requires
        m.wf(),
    ensures
        m.applied(mounts, rclone).wf(),
        forall|name: Seq<char>|
            #![trigger has_name(m.applied(mounts, rclone).handles, name)]
            #![trigger has_name(mounts, name)]
            has_name(m.applied(mounts, rclone).handles, name) <==> has_name(mounts, name),
        forall|h: MountModel| #[trigger]
            m.applied(mounts, rclone).handles.contains(h) ==> mounts.contains(h),
{
    let rclone_same = same_place(m.rclone, rclone);
    let kept = m.kept(mounts, rclone);
    lemma_survivors(m.handles, mounts, rclone_same);
    lemma_filled_extends(kept, mounts);
    assert forall|name: Seq<char>|
        has_name(m.applied(mounts, rclone).handles, name) <==> has_name(mounts, name) by {
        lemma_filled_names(kept, mounts, name);
        if has_name(kept, name) {
            let i = choose|i: int| 0 <= i < kept.len() && (#[trigger] kept[i]).name == name;
            assert(kept.contains(kept[i]));
            lemma_last_named(mounts, name);
        }
    }
    assert forall|h: MountModel|
        m.applied(mounts, rclone).handles.contains(h) implies mounts.contains(h) by {
        lemma_filled_names(kept, mounts, h.name);
        lemma_last_named(mounts, h.name);
    }
}

proof fn lemma_casualties(handles: Seq<MountModel>, mounts: Seq<MountModel>, rclone_same: bool)
    ensures
        forall|name: Seq<char>| #[trigger]
            casualties(handles, mounts, rclone_same).contains(name) ==> exists|i: int|
                0 <= i < handles.len() && (#[trigger] handles[i]).name == name && !left_alone(
                    handles[i],
                    mounts,
                    rclone_same,
                ),
    decreases handles.len(),
{
    if handles.len() > 0 {
        let before = handles.drop_last();
        lemma_casualties(before, mounts, rclone_same);
        let rest = casualties(before, mounts, rclone_same);
        let all = casualties(handles, mounts, rclone_same);
        assert forall|name: Seq<char>| all.contains(name) implies exists|i: int|
            0 <= i < handles.len() && (#[trigger] handles[i]).name == name && !left_alone(
                handles[i],
                mounts,
                rclone_same,
            ) by {
            let k = choose|k: int| 0 <= k < all.len() && all[k] == name;
            if k < rest.len() {
                assert(rest[k] == name);
                assert(rest.contains(name));
                let i = choose|i: int|
                    0 <= i < before.len() && (#[trigger] before[i]).name == name && !left_alone(
                        before[i],
                        mounts,
                        rclone_same,
                    );
                assert(handles[i] == before[i]);
            } else {
                assert(handles[handles.len() - 1] == handles.last());
            }
        }
    }
}

/// A mount whose settings have not changed is left as it is, as long as
/// rclone is the same: it is neither stopped nor added again.
pub proof fn lemma_unchanged_left_alone(
    m: ManagerModel,
    mounts: Seq<MountModel>,
    rclone: Option<Seq<char>>,
    h: MountModel,
)
    requires
        m.wf(),
        m.handles.contains(h),
        same_place(m.rclone, rclone),
        last_named(mounts, h.name) == Some(h),
    ensures
        m.applied(mounts, rclone).handles.contains(h),
        !m.stopped(mounts, rclone).contains(h.name),
        !has_name(m.added(mounts, rclone), h.name),
{
    let kept = m.kept(mounts, rclone);
    let all = m.applied(mounts, rclone).handles;
    lemma_survivors(m.handles, mounts, true);
    lemma_filled_extends(kept, mounts);
    lemma_casualties(m.handles, mounts, true);
    assert(kept.contains(h));
    let i = choose|i: int| 0 <= i < kept.len() && kept[i] == h;
    assert(all.take(kept.len() as int)[i] == all[i]);
    assert(all[i] == h);
    let p = choose|p: int| 0 <= p < m.handles.len() && m.handles[p] == h;
    if m.stopped(mounts, rclone).contains(h.name) {
        let q = choose|q: int|
            0 <= q < m.handles.len() && (#[trigger] m.handles[q]).name == h.name && !left_alone(
                m.handles[q],
                mounts,
                true,
            );
        assert(p == q);
    }
    let added = m.added(mounts, rclone);
    if has_name(added, h.name) {
        let j = choose|j: int| 0 <= j < added.len() && (#[trigger] added[j]).name == h.name;
        assert(all[j + kept.len()] == added[j]);
    }
}

proof fn lemma_all_casualties(
    handles: Seq<MountModel>,
    mounts: Seq<MountModel>,
    rclone_same: bool,
    i: int,
)
    requires
        0 <= i < handles.len(),
        !left_alone(handles[i], mounts, rclone_same),
    ensures
        casualties(handles, mounts, rclone_same).contains(handles[i].name),
    decreases handles.len(),
{
    let before = handles.drop_last();
    let rest = casualties(before, mounts, rclone_same);
    let all = casualties(handles, mounts, rclone_same);
    if i < before.len() {
        assert(before[i] == handles[i]);
        lemma_all_casualties(before, mounts, rclone_same, i);
        let k = choose|k: int| 0 <= k < rest.len() && rest[k] == handles[i].name;
        assert(all[k] == rest[k]);
    } else {
        assert(all[all.len() - 1] == handles[i].name);
    }
}

/// A mount that was removed, whose settings have changed, or that ran with
/// another rclone loses its supervisor; if it is still configured, it is added
/// again.
pub proof fn lemma_changed_is_stopped(
    m: ManagerModel,
    mounts: Seq<MountModel>,
    rclone: Option<Seq<char>>,
    h: MountModel,
)
    requires
        m.wf(),
        m.handles.contains(h),
        !same_place(m.rclone, rclone) || last_named(mounts, h.name) != Some(h),
    ensures
        m.stopped(mounts, rclone).contains(h.name),
        has_name(m.added(mounts, rclone), h.name) <==> has_name(mounts, h.name),
{
    let rclone_same = same_place(m.rclone, rclone);
    let kept = m.kept(mounts, rclone);
    let all = m.applied(mounts, rclone).handles;
    let added = m.added(mounts, rclone);
    let p = choose|p: int| 0 <= p < m.handles.len() && m.handles[p] == h;
    lemma_all_casualties(m.handles, mounts, rclone_same, p);
    lemma_survivors(m.handles, mounts, rclone_same);
    lemma_filled_extends(kept, mounts);
    lemma_applied_covers(m, mounts, rclone);
    if has_name(added, h.name) {
        let j = choose|j: int| 0 <= j < added.len() && (#[trigger] added[j]).name == h.name;
        assert(all[j + kept.len()] == added[j]);
        assert(has_name(all, h.name));
    }
    if has_name(mounts, h.name) {
        assert(has_name(all, h.name));
        let i = choose|i: int| 0 <= i < all.len() && (#[trigger] all[i]).name == h.name;
        if i < kept.len() {
            assert(all.take(kept.len() as int)[i] == all[i]);
            assert(kept.contains(kept[i]));
            assert(m.handles.contains(kept[i]));
            let q = choose|q: int| 0 <= q < m.handles.len() && m.handles[q] == kept[i];
            assert(m.handles[q].name == m.handles[p].name);
            assert(q == p);
        } else {
            assert(added[i - kept.len()] == all[i]);
        }
    }
}

proof fn lemma_all_survive(handles: Seq<MountModel>, mounts: Seq<MountModel>)
    requires
        forall|i: int|
            0 <= i < handles.len() ==> left_alone(#[trigger] handles[i], mounts, true),
    ensures
        survivors(handles, mounts, true) == handles,
        casualties(handles, mounts, true) == Seq::<Seq<char>>::empty(),
    decreases handles.len(),
{
    if handles.len() > 0 {
        let before = handles.drop_last();
        assert forall|i: int| 0 <= i < before.len() implies left_alone(
            #[trigger] before[i],
            mounts,
            true,
        ) by {
            assert(before[i] == handles[i]);
        }
        lemma_all_survive(before, mounts);
        assert(left_alone(handles[handles.len() - 1], mounts, true));
        assert(before.push(handles.last()) =~= handles);
    }
}

proof fn lemma_nothing_to_fill(handles: Seq<MountModel>, mounts: Seq<MountModel>)
    requires
        forall|i: int| 0 <= i < mounts.len() ==> has_name(handles, (#[trigger] mounts[i]).name),
    ensures
        filled(handles, mounts) == handles,
    decreases mounts.len(),
{
    if mounts.len() > 0 {
        let before = mounts.drop_last();
        assert forall|i: int| 0 <= i < before.len() implies has_name(
            handles,
            (#[trigger] before[i]).name,
        ) by {
            assert(before[i] == mounts[i]);
        }
        lemma_nothing_to_fill(handles, before);
        assert(has_name(handles, mounts[mounts.len() - 1].name));
    }
}

/// Applying the same settings a second time stops and starts nothing, as long
/// as no two mounts in them have the same name.
pub proof fn lemma_applied_twice(
    m: ManagerModel,
    mounts: Seq<MountModel>,
    rclone: Option<Seq<char>>,
)
    requires
        m.wf(),
        unique_names(mounts),
    ensures
        m.applied(mounts, rclone).applied(mounts, rclone) == m.applied(mounts, rclone),
        m.applied(mounts, rclone).stopped(mounts, rclone).len() == 0,
        m.applied(mounts, rclone).started(mounts, rclone).len() == 0,
        m.applied(mounts, rclone).idle(mounts, rclone).len() == 0,
{
    let a = m.applied(mounts, rclone);
    lemma_applied_covers(m, mounts, rclone);
    assert(same_place(a.rclone, rclone));
    assert forall|i: int| 0 <= i < a.handles.len() implies left_alone(
        #[trigger] a.handles[i],
        mounts,
        true,
    ) by {
        let h = a.handles[i];
        assert(a.handles.contains(h));
        let k = choose|k: int| 0 <= k < mounts.len() && mounts[k] == h;
        lemma_last_named(mounts, h.name);
        assert(mounts[k].name == h.name);
    }
    lemma_all_survive(a.handles, mounts);
    assert forall|i: int| 0 <= i < mounts.len() implies has_name(
        a.handles,
        (#[trigger] mounts[i]).name,
    ) by {
        assert(has_name(mounts, mounts[i].name));
    }
    lemma_nothing_to_fill(a.handles, mounts);
}

proof fn lemma_chosen(mounts: Seq<MountModel>, enabled: bool, m: MountModel)
    ensures
        chosen(mounts, enabled).contains(m) <==> mounts.contains(m) && m.enabled == enabled,
    decreases mounts.len(),
{
    if mounts.len() > 0 {
        let before = mounts.drop_last();
        let last = mounts.last();
        let rest = chosen(before, enabled);
        let all = chosen(mounts, enabled);
        lemma_chosen(before, enabled, m);
        if mounts.contains(m) && m != last {
            let i = choose|i: int| 0 <= i < mounts.len() && mounts[i] == m;
            assert(before[i] == m);
        }
        if before.contains(m) {
            let i = choose|i: int| 0 <= i < before.len() && before[i] == m;
            assert(mounts[i] == m);
        }
        if last.enabled == enabled {
            assert(all[all.len() - 1] == last);
            assert(mounts[mounts.len() - 1] == last);
            if rest.contains(m) {
                let i = choose|i: int| 0 <= i < rest.len() && rest[i] == m;
                assert(all[i] == m);
            }
            if all.contains(m) && m != last {
                let i = choose|i: int| 0 <= i < all.len() && all[i] == m;
                assert(rest[i] == m);
            }
        }
    }
}

/// Every enabled mount comes up, and no other gets a supervisor: a mount that is
/// not left alone is started if it is enabled and only shown if it is not.
pub proof fn lemma_enabled_comes_up(
    m: ManagerModel,
    mounts: Seq<MountModel>,
    rclone: Option<Seq<char>>,
    mount: MountModel,
)
    requires
        m.wf(),
        unique_names(mounts),
        mounts.contains(mount),
    ensures
        m.applied(mounts, rclone).handles.contains(mount),
        m.started(mounts, rclone).contains(mount) <==> mount.enabled && !m.kept(
            mounts,
            rclone,
        ).contains(mount),
        m.idle(mounts, rclone).contains(mount) <==> !mount.enabled && !m.kept(
            mounts,
            rclone,
        ).contains(mount),
        forall|s: MountModel| #[trigger] m.started(mounts, rclone).contains(s) ==> s.enabled,
{
    let kept = m.kept(mounts, rclone);
    let all = m.applied(mounts, rclone).handles;
    let added = m.added(mounts, rclone);
    lemma_applied_covers(m, mounts, rclone);
    lemma_survivors(m.handles, mounts, same_place(m.rclone, rclone));
    lemma_filled_extends(kept, mounts);
    let p = choose|p: int| 0 <= p < mounts.len() && mounts[p] == mount;
    assert(has_name(mounts, mount.name));
    let i = choose|i: int| 0 <= i < all.len() && (#[trigger] all[i]).name == mount.name;
    assert(all.contains(all[i]));
    let q = choose|q: int| 0 <= q < mounts.len() && mounts[q] == all[i];
    assert(mounts[q].name == mounts[p].name);
    assert(p == q && all[i] == mount);
    if i < kept.len() {
        assert(all.take(kept.len() as int)[i] == all[i]);
        assert(kept.contains(mount));
    } else {
        assert(added[i - kept.len()] == mount);
        assert(added.contains(mount));
    }
    if kept.contains(mount) && added.contains(mount) {
        let a = choose|a: int| 0 <= a < kept.len() && kept[a] == mount;
        let b = choose|b: int| 0 <= b < added.len() && added[b] == mount;
        assert(all.take(kept.len() as int)[a] == all[a]);
        assert(all[b + kept.len()] == added[b]);
    }
    lemma_chosen(added, true, mount);
    lemma_chosen(added, false, mount);
    assert forall|s: MountModel| #[trigger] m.started(mounts, rclone).contains(s) implies s.enabled by {
        lemma_chosen(added, true, s);
    }
}

/// A restart stops the mount and adds it again, if it is still configured.
pub proof fn lemma_restarted(
    m: ManagerModel,
    mounts: Seq<MountModel>,
    rclone: Option<Seq<char>>,
    name: Seq<char>,
)
    requires
        m.wf(),
        has_name(mounts, name),
    ensures
        has_name(m.without(name).added(mounts, rclone), name),
{
    let w = m.without(name);
    lemma_others_than(m.handles, name);
    lemma_applied_covers(w, mounts, rclone);
    let kept = w.kept(mounts, rclone);
    let all = w.applied(mounts, rclone).handles;
    lemma_survivors(w.handles, mounts, same_place(w.rclone, rclone));
    lemma_filled_extends(kept, mounts);
    let i = choose|i: int| 0 <= i < all.len() && (#[trigger] all[i]).name == name;
    if i < kept.len() {
        assert(all.take(kept.len() as int)[i] == all[i]);
        assert(kept.contains(kept[i]));
        assert(w.handles.contains(kept[i]));
    }
    assert(w.added(mounts, rclone)[i - kept.len()] == all[i]);
}

} // verus!
