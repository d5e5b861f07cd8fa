//! The menu bar item: what it shows of all mounts.

use crate::app::ViewModel;
use crate::laws;
use crate::number;
use crate::supervisor::State;
use crate::tray;
use crate::tray::{ChoiceModel, EntryModel};
use vstd::prelude::*;

verus! {

/// The tooltip counts the mounts that are not disabled and, if any is in
/// trouble, how many of them are; if none is, it says whether one is still
/// mounting or syncing.
pub proof fn lemma_tooltip(states: Seq<State>)
    ensures
        ({
            let all = number::decimal(states.len());
            let bad = tray::problems(states);
            &&& states.len() == 0 ==> tray::tip(states) == "BucketMount — no active mounts"@
            &&& states.len() > 0 && bad > 0 ==> tray::tip(states) == "BucketMount — "@
                + number::decimal(bad) + " of "@ + all + " mount(s) need attention"@
            &&& states.len() > 0 && bad == 0 && (exists|i: int|
                0 <= i < states.len() && #[trigger] states[i] == State::Starting) ==> tray::tip(
                states,
            ) == "BucketMount — starting"@
            &&& states.len() > 0 && bad == 0 && (forall|i: int|
                0 <= i < states.len() ==> #[trigger] states[i] != State::Starting) && (exists|
                i: int,
            |
                0 <= i < states.len() && #[trigger] states[i] == State::Syncing) ==> tray::tip(
                states,
            ) == "BucketMount — syncing"@
            &&& states.len() > 0 && (forall|i: int|
                0 <= i < states.len() ==> #[trigger] states[i] == State::Connected) ==> tray::tip(
                states,
            ) == "BucketMount — "@ + all + " mount(s) connected"@
        }),
{
    lemma_worst_of(states);
    lemma_problems(states);
}

proof fn lemma_worst_of(states: Seq<State>)
    ensures
        forall|i: int|
            0 <= i < states.len() ==> (#[trigger] states[i]).weight() <= tray::worst_of(
                states,
            ).weight(),
        states.len() > 0 ==> states.contains(tray::worst_of(states)),
    decreases states.len(),
{
    if states.len() > 0 {
        let before = states.drop_last();
        lemma_worst_of(before);
        assert(states[states.len() - 1] == states.last());
        assert forall|i: int| 0 <= i < states.len() implies (#[trigger] states[i]).weight()
            <= tray::worst_of(states).weight() by {
            if i < before.len() {
                assert(before[i] == states[i]);
            }
        }
        if tray::worst_of(states) != states.last() && before.len() > 0 {
            let w = tray::worst_of(before);
            let i = choose|i: int| 0 <= i < before.len() && before[i] == w;
            assert(states[i] == w);
        }
    }
}

/// The mounts in trouble are counted one by one.
proof fn lemma_problems(states: Seq<State>)
    ensures
        tray::problems(states) <= states.len(),
        tray::problems(states) == 0 <==> forall|i: int|
            0 <= i < states.len() ==> !laws::supervisor::wrong(#[trigger] states[i]),
    decreases states.len(),
{
    if states.len() > 0 {
        let before = states.drop_last();
        lemma_problems(before);
        assert(states[states.len() - 1] == states.last());
        if tray::problems(states) == 0 {
            assert forall|i: int| 0 <= i < states.len() implies !laws::supervisor::wrong(
                #[trigger] states[i],
            ) by {
                if i < before.len() {
                    assert(before[i] == states[i]);
                }
            }
        }
        if forall|i: int| 0 <= i < states.len() ==> !laws::supervisor::wrong(#[trigger] states[i]) {
            assert forall|i: int| 0 <= i < before.len() implies !laws::supervisor::wrong(
                #[trigger] before[i],
            ) by {
                assert(before[i] == states[i]);
            }
        }
    }
}

/// One more mount in trouble is one more that is counted, and one more that is
/// not disabled one more that is active.
pub proof fn lemma_counted_one_by_one(mounts: Seq<ViewModel>, m: ViewModel, states: Seq<State>, s: State)
    ensures
        tray::problems(states.push(s)) == tray::problems(states) + (if laws::supervisor::wrong(s) {
            1int
        } else {
            0int
        }),
        m.state == State::Disabled ==> tray::active(mounts.push(m)) == tray::active(mounts),
        m.state != State::Disabled ==> tray::active(mounts.push(m)) == tray::active(mounts).push(
            m.state,
        ),
{
    assert(states.push(s).drop_last() =~= states);
    assert(mounts.push(m).drop_last() =~= mounts);
}

/// The menu says of each mount, in their order, its name and state, its detail
/// where that says more, and offers to sign in where that is called for, to open
/// a volume that is mounted, and its settings.
pub proof fn lemma_menu_of_a_mount(mounts: Seq<ViewModel>, m: ViewModel)
    ensures
        tray::all_entries(mounts.push(m)) == tray::all_entries(mounts) + tray::mount_entries(m),
        ({
            let e = tray::mount_entries(m);
            let name = m.config.name;
            let shown = m.detail.len() > 0 && m.detail != m.state_label;
            let asks = m.state == State::SignInRequired;
            let n = (if shown {
                1int
            } else {
                0int
            }) + (if asks {
                1int
            } else {
                0int
            });
            &&& e.len() == 4 + n
            &&& e[0] == (EntryModel::Item {
                id: "hdr:"@ + name,
                text: name + "  —  "@ + m.state_label,
                enabled: false,
            })
            &&& shown ==> e[1] == (EntryModel::Item {
                id: "det:"@ + name,
                text: "      "@ + tray::truncated(m.detail, 70),
                enabled: false,
            })
            &&& asks ==> e[n] == (EntryModel::Item {
                id: "login:"@ + name,
                text: "      Sign in to AWS…"@,
                enabled: true,
            })
            &&& e[n + 1] == (EntryModel::Item {
                id: "open:"@ + name,
                text: "      Open in Finder"@,
                enabled: m.mounted,
            })
            &&& e[n + 2] == (EntryModel::Item {
                id: "edit:"@ + name,
                text: "      Settings…"@,
                enabled: true,
            })
            &&& e[n + 3] == EntryModel::Separator
        }),
{
    assert(mounts.push(m).drop_last() =~= mounts);
}

/// The menu ends with the window and the way out, whatever comes before; without
/// mounts it says so.
pub proof fn lemma_menu_ends(mounts: Seq<ViewModel>)
    ensures
        ({
            let all = tray::menu_of(mounts);
            let n = all.len() as int;
            &&& n >= 2
            &&& all[n - 2] == (EntryModel::Item {
                id: "open"@,
                text: "Open BucketMount"@,
                enabled: true,
            })
            &&& all[n - 1] == (EntryModel::Item {
                id: "quit"@,
                text: "Quit BucketMount"@,
                enabled: true,
            })
            &&& mounts.len() > 0 ==> all.take(n - 2) == tray::all_entries(mounts)
            &&& mounts.len() == 0 ==> n == 4 && all[0] == (EntryModel::Item {
                id: "none"@,
                text: "No mounts configured"@,
                enabled: false,
            })
        }),
{
    let all = tray::menu_of(mounts);
    if mounts.len() > 0 {
        assert(all.take(all.len() - 2) =~= tray::all_entries(mounts));
    }
}

/// A text that is short enough is shown whole; of a longer one as much of its
/// beginning as leaves room for the ellipsis.
pub proof fn lemma_truncation(s: Seq<char>, max: nat)
    requires
        max > 0,
    ensures
        s.len() <= max ==> tray::truncated(s, max) == s,
        s.len() > max ==> tray::truncated(s, max).len() == max && tray::truncated(s, max).last()
            == '…' && tray::truncated(s, max).drop_last() == s.take(max - 1),
{
    if s.len() > max {
        assert(tray::truncated(s, max).drop_last() =~= s.take(max - 1));
    }
}

/// Only the entry that says so ends the application, only its own shows the
/// window, and only those of a mount do something to that mount.
pub proof fn lemma_what_is_chosen(id: Seq<char>)
    ensures
        tray::choice(id) is Quit <==> id == "quit"@,
        tray::choice(id) is ShowWindow <==> id == "open"@,
        tray::choice(id) matches ChoiceModel::OpenMount(n) ==> id == "open:"@ + n,
        tray::choice(id) matches ChoiceModel::SignIn(n) ==> id == "login:"@ + n,
        tray::choice(id) matches ChoiceModel::Edit(n) ==> id == "edit:"@ + n,
{
    reveal_strlit("open");
    reveal_strlit("quit");
    assert("open"@[0] != "quit"@[0]);
    if "open:"@.is_prefix_of(id) {
        let n = id.subrange("open:"@.len() as int, id.len() as int);
        assert("open:"@ + n =~= id);
    }
    if "login:"@.is_prefix_of(id) {
        let n = id.subrange("login:"@.len() as int, id.len() as int);
        assert("login:"@ + n =~= id);
    }
    if "edit:"@.is_prefix_of(id) {
        let n = id.subrange("edit:"@.len() as int, id.len() as int);
        assert("edit:"@ + n =~= id);
    }
}

} // verus!
