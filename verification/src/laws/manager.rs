//! The manager: which supervisors run, and what is shown of each mount.

use crate::config::MountModel;
use crate::manager;
use crate::manager::ManagerModel;
use crate::path;
use crate::supervisor::{State, StatusModel};
use vstd::prelude::*;

verus! {

/// Of the settings for a name the last ones count.
pub proof fn lemma_last_settings_count(mounts: Seq<MountModel>, m: MountModel, name: Seq<char>)
    ensures
        manager::last_named(Seq::empty(), name) is None,
        manager::last_named(mounts.push(m), m.name) == Some(m),
        m.name != name ==> manager::last_named(mounts.push(m), name) == manager::last_named(
            mounts,
            name,
        ),
{
    assert(mounts.push(m).drop_last() =~= mounts);
}

/// rclone is the same if it was and is missing, or is found at the same path;
/// one that appears, disappears or moves is another.
pub proof fn lemma_where_rclone_is(p: Seq<char>, q: Seq<char>)
    ensures
        manager::same_place(None, None),
        manager::same_place(Some(p), Some(p)),
        !manager::same_place(Some(p), None),
        !manager::same_place(None, Some(p)),
        manager::same_place(Some(p), Some(q)) <==> path::equal_paths(p, q),
{
}

/// The running mounts are told apart one by one, in their order: one whose
/// settings are the last ones for its name is kept as long as rclone is the
/// same, any other is stopped.
pub proof fn lemma_each_is_kept_or_stopped(
    m: ManagerModel,
    h: MountModel,
    mounts: Seq<MountModel>,
    rclone: Option<Seq<char>>,
)
    ensures
        ({
            let more = ManagerModel { handles: m.handles.push(h), ..m };
            let none = ManagerModel { handles: Seq::empty(), ..m };
            let stays = manager::same_place(m.rclone, rclone) && manager::last_named(mounts, h.name)
                == Some(h);
            &&& none.kept(mounts, rclone).len() == 0
            &&& none.stopped(mounts, rclone).len() == 0
            &&& stays ==> more.kept(mounts, rclone) == m.kept(mounts, rclone).push(h)
            &&& stays ==> more.stopped(mounts, rclone) == m.stopped(mounts, rclone)
            &&& !stays ==> more.kept(mounts, rclone) == m.kept(mounts, rclone)
            &&& !stays ==> more.stopped(mounts, rclone) == m.stopped(mounts, rclone).push(h.name)
        }),
{
    assert(m.handles.push(h).drop_last() =~= m.handles);
}

proof fn lemma_filled_from_nothing(mounts: Seq<MountModel>)
    requires
        manager::unique_names(mounts),
    ensures
        manager::filled(Seq::empty(), mounts) == mounts,
    decreases mounts.len(),
{
    if mounts.len() > 0 {
        let before = mounts.drop_last();
        assert forall|i: int, j: int| 0 <= i < j < before.len() implies (
        #[trigger] before[i]).name != (#[trigger] before[j]).name by {
            assert(before[i] == mounts[i]);
            assert(before[j] == mounts[j]);
        }
        lemma_filled_from_nothing(before);
        if manager::has_name(before, mounts.last().name) {
            let i = choose|i: int|
                0 <= i < before.len() && (#[trigger] before[i]).name == mounts.last().name;
            assert(mounts[i] == before[i]);
            assert(mounts[mounts.len() - 1] == mounts.last());
        }
        assert(before.push(mounts.last()) =~= mounts);
    } else {
        assert(mounts =~= Seq::<MountModel>::empty());
    }
}

proof fn lemma_none_survive(handles: Seq<MountModel>, mounts: Seq<MountModel>)
    ensures
        manager::survivors(handles, mounts, false).len() == 0,
        manager::casualties(handles, mounts, false).len() == handles.len(),
        forall|i: int|
            0 <= i < handles.len() ==> (#[trigger] manager::casualties(handles, mounts, false)[i])
                == handles[i].name,
    decreases handles.len(),
{
    if handles.len() > 0 {
        lemma_none_survive(handles.drop_last(), mounts);
    }
}

/// A manager that looks after nothing takes up all mounts in their order. It
/// stops nothing.
pub proof fn lemma_first_start(
    m: ManagerModel,
    mounts: Seq<MountModel>,
    rclone: Option<Seq<char>>,
)
    requires
        m.handles.len() == 0,
        manager::unique_names(mounts),
    ensures
        m.applied(mounts, rclone).handles == mounts,
        m.applied(mounts, rclone).rclone == rclone,
        m.added(mounts, rclone) == mounts,
        m.stopped(mounts, rclone).len() == 0,
{
    assert(m.handles =~= Seq::<MountModel>::empty());
    lemma_filled_from_nothing(mounts);
    assert(m.kept(mounts, rclone) =~= Seq::<MountModel>::empty());
    assert(m.added(mounts, rclone) =~= mounts);
}

/// When rclone has moved every mount is stopped and all that are configured are
/// added anew, in their order.
pub proof fn lemma_another_rclone(
    m: ManagerModel,
    mounts: Seq<MountModel>,
    was: Option<Seq<char>>,
    is: Option<Seq<char>>,
)
    requires
        m.rclone == was,
        match (was, is) {
            (Some(p), Some(q)) => !path::equal_paths(p, q),
            (None, None) => false,
            _ => true,
        },
        manager::unique_names(mounts),
    ensures
        m.stopped(mounts, is).len() == m.handles.len(),
        forall|i: int|
            0 <= i < m.handles.len() ==> (#[trigger] m.stopped(mounts, is)[i]) == m.handles[i].name,
        m.added(mounts, is) == mounts,
        m.applied(mounts, is).handles == mounts,
{
    lemma_none_survive(m.handles, mounts);
    lemma_filled_from_nothing(mounts);
    assert(m.kept(mounts, is) =~= Seq::<MountModel>::empty());
    assert(m.added(mounts, is) =~= mounts);
}

/// Of what is added each mount that is enabled is started, the others are only
/// shown, in their order.
pub proof fn lemma_enabled_one_by_one(mounts: Seq<MountModel>, m: MountModel)
    ensures
        manager::chosen(Seq::empty(), true).len() == 0,
        manager::chosen(Seq::empty(), false).len() == 0,
        m.enabled ==> manager::chosen(mounts.push(m), true) == manager::chosen(mounts, true).push(m),
        m.enabled ==> manager::chosen(mounts.push(m), false) == manager::chosen(mounts, false),
        !m.enabled ==> manager::chosen(mounts.push(m), true) == manager::chosen(mounts, true),
        !m.enabled ==> manager::chosen(mounts.push(m), false) == manager::chosen(
            mounts,
            false,
        ).push(m),
{
    assert(mounts.push(m).drop_last() =~= mounts);
}

/// A restart takes out the mounts of that name and no others.
pub proof fn lemma_taken_out(m: ManagerModel, h: MountModel, name: Seq<char>)
    ensures
        ({
            let more = ManagerModel { handles: m.handles.push(h), ..m };
            &&& more.without(name).rclone == m.rclone
            &&& h.name == name ==> more.without(name).handles == m.without(name).handles
            &&& h.name != name ==> more.without(name).handles == m.without(name).handles.push(h)
        }),
{
    assert(m.handles.push(h).drop_last() =~= m.handles);
}

/// The bucket is checked as often as asked for, but at most every five seconds.
pub proof fn lemma_health_interval(wish: u64)
    ensures
        wish >= 5 ==> manager::health_interval(wish) == wish,
        wish < 5 ==> manager::health_interval(wish) == 5,
{
}

/// A mount is shown with the status that is known for its name, the first one if
/// there are several; one that nothing is known of as not started.
pub proof fn lemma_known_status(
    known: Seq<(Seq<char>, StatusModel)>,
    name: Seq<char>,
    other: Seq<char>,
    s: StatusModel,
    now: u64,
)
    requires
        other != name,
    ensures
        manager::shown_status(seq![(name, s)] + known, name, now) == s,
        manager::shown_status(seq![(other, s)] + known, name, now) == manager::shown_status(
            known,
            name,
            now,
        ),
        manager::shown_status(Seq::empty(), name, now) == (StatusModel {
            state: State::Disabled,
            detail: "Not started"@,
            mounted: false,
            uploads_pending: 0,
            errored_files: 0,
            restarts: 0,
            pid: None,
            since: now,
            last_ok: None,
            last_error: None,
            log_tail: Seq::empty(),
            sso_profile: None,
            needs_resync: false,
        }),
{
    assert((seq![(name, s)] + known)[0] == (name, s));
    assert((seq![(other, s)] + known)[0] == (other, s));
    assert((seq![(other, s)] + known).skip(1) =~= known);
}

} // verus!
