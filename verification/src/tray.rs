//! Menu bar status item: which state colours the badge, what the tooltip says,
//! the menu listing every mount, and what choosing an entry means.

use crate::app::{MountView, ViewModel};
use crate::number;
use crate::number::decimal_string;
use crate::split;
use crate::split::strip_prefix;
use crate::supervisor::State;
use crate::text;
use crate::text::{chars_of, same, string_of};
use vstd::prelude::*;

verus! {

pub const TRAY_ID: &'static str = "main";

/// How many characters of a detail the menu shows.
pub const DETAIL_CHARS: usize = 70;

/// The mounts that are shown, as values.
pub open spec fn views_of(mounts: Seq<MountView>) -> Seq<ViewModel> {
    Seq::new(mounts.len(), |i: int| mounts[i]@)
}

// ---------------------------------------------------------------------------
// The badge and the tooltip
// ---------------------------------------------------------------------------

/// The states of the mounts that are not disabled.
pub open spec fn active(mounts: Seq<ViewModel>) -> Seq<State>
    decreases mounts.len(),
{
    if mounts.len() == 0 {
        Seq::empty()
    } else {
        let before = active(mounts.drop_last());
        if mounts.last().state == State::Disabled {
            before
        } else {
            before.push(mounts.last().state)
        }
    }
}

/// The worst of the states; of equally bad ones the last.
pub open spec fn worst_of(states: Seq<State>) -> State
    decreases states.len(),
{
    if states.len() == 0 {
        State::Disabled
    } else {
        let before = worst_of(states.drop_last());
        if states.last().weight() >= before.weight() {
            states.last()
        } else {
            before
        }
    }
}

/// How many of the states are problems.
pub open spec fn problems(states: Seq<State>) -> nat
    decreases states.len(),
{
    if states.len() == 0 {
        0
    } else {
        problems(states.drop_last()) + if states.last().problem() {
            1nat
        } else {
            0nat
        }
    }
}

pub open spec fn tip(states: Seq<State>) -> Seq<char> {
    if states.len() == 0 {
        "BucketMount — no active mounts"@
    } else if problems(states) > 0 {
        "BucketMount — "@ + number::decimal(problems(states)) + " of "@ + number::decimal(
            states.len(),
        ) + " mount(s) need attention"@
    } else {
        match worst_of(states) {
            State::Syncing => "BucketMount — syncing"@,
            State::Starting => "BucketMount — starting"@,
            _ => "BucketMount — "@ + number::decimal(states.len()) + " mount(s) connected"@,
        }
    }
}

fn active_states(mounts: &Vec<MountView>) -> (r: Vec<State>)
    ensures
        r@ == active(views_of(mounts@)),
{
    let ghost all = views_of(mounts@);
    let mut r: Vec<State> = Vec::new();
    let mut i: usize = 0;
    assert(r@ =~= active(all.take(0)));
    while i < mounts.len()
        invariant
            i <= mounts.len(),
            all == views_of(mounts@),
            r@ == active(all.take(i as int)),
        decreases mounts.len() - i,
    {
        assert(all.take(i + 1).drop_last() =~= all.take(i as int));
        assert(all.take(i + 1).last() == mounts@[i as int]@);
        if mounts[i].state != State::Disabled {
            r.push(mounts[i].state);
        }
        i = i + 1;
    }
    assert(all.take(all.len() as int) =~= all);
    r
}

fn worst_state(states: &Vec<State>) -> (r: State)
    ensures
        r == worst_of(states@),
{
    let mut worst = State::Disabled;
    let mut i: usize = 0;
    assert(worst == worst_of(states@.take(0)));
    while i < states.len()
        invariant
            i <= states.len(),
            worst == worst_of(states@.take(i as int)),
        decreases states.len() - i,
    {
        assert(states@.take(i + 1).drop_last() =~= states@.take(i as int));
        if states[i].severity() >= worst.severity() {
            worst = states[i];
        }
        i = i + 1;
    }
    assert(states@.take(states@.len() as int) =~= states@);
    worst
}

/// The state that colours the badge: the worst of all mounts.
pub fn worst(mounts: &Vec<MountView>) -> (r: State)
    ensures
        r == worst_of(active(views_of(mounts@))),
{
    worst_state(&active_states(mounts))
}

fn count_problems(states: &Vec<State>) -> (r: u64)
    ensures
        r == problems(states@),
{
    let mut n: u64 = 0;
    let mut i: usize = 0;
    while i < states.len()
        invariant
            i <= states.len(),
            n <= i,
            n == problems(states@.take(i as int)),
        decreases states.len() - i,
    {
        assert(states@.take(i + 1).drop_last() =~= states@.take(i as int));
        if states[i].is_problem() {
            n = n + 1;
        }
        i = i + 1;
    }
    assert(states@.take(states@.len() as int) =~= states@);
    n
}

pub fn tooltip(mounts: &Vec<MountView>) -> (r: String)
    ensures
        r@ == tip(active(views_of(mounts@))),
{
    let states = active_states(mounts);
    if states.len() == 0 {
        return "BucketMount — no active mounts".to_owned();
    }
    let problems: u64 = count_problems(&states);
    let all = decimal_string(states.len() as u64);
    if problems > 0 {
        return "BucketMount — ".to_owned().concat(decimal_string(problems).as_str()).concat(
            " of ",
        ).concat(all.as_str()).concat(" mount(s) need attention");
    }
    match worst_state(&states) {
        State::Syncing => "BucketMount — syncing".to_owned(),
        State::Starting => "BucketMount — starting".to_owned(),
        _ => "BucketMount — ".to_owned().concat(all.as_str()).concat(" mount(s) connected"),
    }
}

/// The badge shows a state that some mount is in, and no mount is in a worse
/// one; it is grey only when every mount is disabled.
pub proof fn lemma_worst(mounts: Seq<ViewModel>)
    ensures
        forall|i: int|
            0 <= i < mounts.len() ==> (#[trigger] mounts[i]).state.weight() <= worst_of(
                active(mounts),
            ).weight(),
        worst_of(active(mounts)) != State::Disabled ==> exists|i: int|
            0 <= i < mounts.len() && (#[trigger] mounts[i]).state == worst_of(active(mounts)),
        worst_of(active(mounts)) == State::Disabled <==> forall|i: int|
            0 <= i < mounts.len() ==> (#[trigger] mounts[i]).state == State::Disabled,
    decreases mounts.len(),
{
    if mounts.len() > 0 {
        let before = mounts.drop_last();
        lemma_worst(before);
        let last = mounts.last();
        if last.state != State::Disabled {
            assert(active(mounts).drop_last() =~= active(before));
        }
        assert forall|i: int| 0 <= i < mounts.len() implies (#[trigger] mounts[i]).state.weight()
            <= worst_of(active(mounts)).weight() by {
            if i < before.len() {
                assert(before[i] == mounts[i]);
            }
        }
        if worst_of(active(mounts)) != State::Disabled {
            if last.state != State::Disabled && last.state.weight() >= worst_of(
                active(before),
            ).weight() {
                assert(mounts[mounts.len() - 1].state == worst_of(active(mounts)));
            } else {
                let i = choose|i: int|
                    0 <= i < before.len() && (#[trigger] before[i]).state == worst_of(
                        active(before),
                    );
                assert(mounts[i] == before[i]);
            }
        } else {
            assert forall|i: int| 0 <= i < mounts.len() implies (#[trigger] mounts[i]).state
                == State::Disabled by {
                assert(mounts[i].state.weight() <= State::Disabled.weight());
            }
        }
        if forall|i: int| 0 <= i < mounts.len() ==> (#[trigger] mounts[i]).state == State::Disabled {
            assert(mounts[mounts.len() - 1].state == State::Disabled);
            assert forall|i: int| 0 <= i < before.len() implies (#[trigger] before[i]).state
                == State::Disabled by {
                assert(before[i] == mounts[i]);
            }
        }
    }
}

// ---------------------------------------------------------------------------
// The menu
// ---------------------------------------------------------------------------

#[derive(Debug)]
pub enum MenuEntry {
    Separator,
    Item { id: String, text: String, enabled: bool },
}

/// What a `MenuEntry` says, as a value.
pub enum EntryModel {
    Separator,
    Item { id: Seq<char>, text: Seq<char>, enabled: bool },
}

impl View for MenuEntry {
    type V = EntryModel;

    open spec fn view(&self) -> EntryModel {
        match self {
            MenuEntry::Separator => EntryModel::Separator,
            MenuEntry::Item { id, text, enabled } => EntryModel::Item {
                id: id@,
                text: text@,
                enabled: *enabled,
            },
        }
    }
}

/// The entries of a menu, as values.
pub open spec fn entries(v: Seq<MenuEntry>) -> Seq<EntryModel> {
    Seq::new(v.len(), |i: int| v[i]@)
}

/// `s` cut to `max` characters, the last of them an ellipsis if something was
/// cut off.
pub open spec fn truncated(s: Seq<char>, max: nat) -> Seq<char> {
    if s.len() <= max {
        s
    } else {
        s.subrange(0, max - 1).push('…')
    }
}

pub fn truncate(s: &str, max: usize) -> (r: String)
    requires
        max > 0 || s@.len() == 0,
    ensures
        r@ == truncated(s@, max as nat),
{
    let v = chars_of(s);
    if v.len() <= max {
        s.to_owned()
    } else {
        let mut t = string_of(&v, 0, max - 1);
        t.push('…');
        t
    }
}

/// However long the text, what is shown of it has at most `max` characters.
pub proof fn lemma_truncated(s: Seq<char>, max: nat)
    requires
        max > 0,
    ensures
        truncated(s, max).len() <= max,
        truncated(truncated(s, max), max) == truncated(s, max),
{
}

pub open spec fn item(id: Seq<char>, text: Seq<char>, enabled: bool) -> EntryModel {
    EntryModel::Item { id, text, enabled }
}

/// What the menu says of one mount.
pub open spec fn mount_entries(m: ViewModel) -> Seq<EntryModel> {
    let name = m.config.name;
    let header = seq![item("hdr:"@ + name, name + "  —  "@ + m.state_label, false)];
    let detail = if m.detail.len() > 0 && m.detail != m.state_label {
        seq![
            item(
                "det:"@ + name,
                "      "@ + truncated(m.detail, DETAIL_CHARS as nat),
                false,
            ),
        ]
    } else {
        Seq::empty()
    };
    let login = if m.state == State::SignInRequired {
        seq![item("login:"@ + name, "      Sign in to AWS…"@, true)]
    } else {
        Seq::empty()
    };
    header + detail + login + seq![
        item("open:"@ + name, "      Open in Finder"@, m.mounted),
        item("edit:"@ + name, "      Settings…"@, true),
        EntryModel::Separator,
    ]
}

/// What the menu says of all mounts.
pub open spec fn all_entries(mounts: Seq<ViewModel>) -> Seq<EntryModel>
    decreases mounts.len(),
{
    if mounts.len() == 0 {
        Seq::empty()
    } else {
        all_entries(mounts.drop_last()) + mount_entries(mounts.last())
    }
}

/// The whole menu.
pub open spec fn menu_of(mounts: Seq<ViewModel>) -> Seq<EntryModel> {
    (if mounts.len() == 0 {
        seq![item("none"@, "No mounts configured"@, false), EntryModel::Separator]
    } else {
        all_entries(mounts)
    }) + seq![
        item("open"@, "Open BucketMount"@, true),
        item("quit"@, "Quit BucketMount"@, true),
    ]
}

fn push_item(v: &mut Vec<MenuEntry>, kind: &str, name: &str, text: &str, enabled: bool)
    ensures
        entries(final(v)@) == entries(old(v)@).push(item(kind@ + name@, text@, enabled)),
{
    v.push(
        MenuEntry::Item { id: kind.to_owned().concat(name), text: text.to_owned(), enabled },
    );
    assert(entries(v@) =~= entries(old(v)@).push(item(kind@ + name@, text@, enabled)));
}

fn push_separator(v: &mut Vec<MenuEntry>)
    ensures
        entries(final(v)@) == entries(old(v)@).push(EntryModel::Separator),
{
    v.push(MenuEntry::Separator);
    assert(entries(v@) =~= entries(old(v)@).push(EntryModel::Separator));
}

fn push_mount(v: &mut Vec<MenuEntry>, m: &MountView)
    ensures
        entries(final(v)@) == entries(old(v)@) + mount_entries(m@),
{
    let name = m.config.name.as_str();
    let header = name.to_owned().concat("  —  ").concat(m.state_label);
    push_item(v, "hdr:", name, header.as_str(), false);
    if !m.detail.as_str().is_empty() && !same(m.detail.as_str(), m.state_label) {
        let detail = "      ".to_owned().concat(truncate(m.detail.as_str(), DETAIL_CHARS).as_str());
        push_item(v, "det:", name, detail.as_str(), false);
    }
    if m.state == State::SignInRequired {
        push_item(v, "login:", name, "      Sign in to AWS…", true);
    }
    push_item(v, "open:", name, "      Open in Finder", m.mounted);
    push_item(v, "edit:", name, "      Settings…", true);
    push_separator(v);
    assert(entries(v@) =~= entries(old(v)@) + mount_entries(m@));
}

/// The menu, from top to bottom.
pub fn menu(mounts: &Vec<MountView>) -> (r: Vec<MenuEntry>)
    ensures
        entries(r@) == menu_of(views_of(mounts@)),
{
    let ghost all = views_of(mounts@);
    let mut r: Vec<MenuEntry> = Vec::new();
    assert(entries(r@) =~= Seq::<EntryModel>::empty());
    if mounts.len() == 0 {
        push_item(&mut r, "none", "", "No mounts configured", false);
        proof {
            reveal_strlit("");
        }
        assert("none"@ + ""@ =~= "none"@);
        push_separator(&mut r);
    }
    let ghost first = entries(r@);
    let mut i: usize = 0;
    assert(first + all_entries(all.take(0)) =~= first);
    while i < mounts.len()
        invariant
            i <= mounts.len(),
            all == views_of(mounts@),
            entries(r@) == first + all_entries(all.take(i as int)),
        decreases mounts.len() - i,
    {
        assert(all.take(i + 1).drop_last() =~= all.take(i as int));
        assert(all.take(i + 1).last() == mounts@[i as int]@);
        push_mount(&mut r, &mounts[i]);
        assert(entries(r@) =~= first + all_entries(all.take(i + 1)));
        i = i + 1;
    }
    assert(all.take(all.len() as int) =~= all);
    proof {
        reveal_strlit("");
    }
    push_item(&mut r, "open", "", "Open BucketMount", true);
    assert("open"@ + ""@ =~= "open"@);
    push_item(&mut r, "quit", "", "Quit BucketMount", true);
    assert("quit"@ + ""@ =~= "quit"@);
    assert(entries(r@) =~= menu_of(all));
    r
}

// ---------------------------------------------------------------------------
// Choosing an entry
// ---------------------------------------------------------------------------

/// What choosing an entry means.
#[derive(Debug)]
pub enum MenuAction {
    ShowWindow,
    Quit,
    /// Open the mount of that name in Finder.
    OpenMount(String),
    /// Sign in for the mount of that name.
    SignIn(String),
    /// Edit the settings of the mount of that name.
    Edit(String),
    Nothing,
}

/// What a `MenuAction` says, as a value.
pub enum ChoiceModel {
    ShowWindow,
    Quit,
    OpenMount(Seq<char>),
    SignIn(Seq<char>),
    Edit(Seq<char>),
    Nothing,
}

impl View for MenuAction {
    type V = ChoiceModel;

    open spec fn view(&self) -> ChoiceModel {
        match self {
            MenuAction::ShowWindow => ChoiceModel::ShowWindow,
            MenuAction::Quit => ChoiceModel::Quit,
            MenuAction::OpenMount(n) => ChoiceModel::OpenMount(n@),
            MenuAction::SignIn(n) => ChoiceModel::SignIn(n@),
            MenuAction::Edit(n) => ChoiceModel::Edit(n@),
            MenuAction::Nothing => ChoiceModel::Nothing,
        }
    }
}

/// What choosing the entry with that id means.
pub open spec fn choice(id: Seq<char>) -> ChoiceModel {
    if id == "open"@ {
        ChoiceModel::ShowWindow
    } else if id == "quit"@ {
        ChoiceModel::Quit
    } else if let Some(name) = split::without_prefix(id, "open:"@) {
        ChoiceModel::OpenMount(name)
    } else if let Some(name) = split::without_prefix(id, "login:"@) {
        ChoiceModel::SignIn(name)
    } else if let Some(name) = split::without_prefix(id, "edit:"@) {
        ChoiceModel::Edit(name)
    } else {
        ChoiceModel::Nothing
    }
}

pub fn menu_action(id: &str) -> (r: MenuAction)
    ensures
        r@ == choice(id@),
{
    if same(id, "open") {
        return MenuAction::ShowWindow;
    }
    if same(id, "quit") {
        return MenuAction::Quit;
    }
    match strip_prefix(id, "open:") {
        Some(name) => return MenuAction::OpenMount(name),
        None => {},
    }
    match strip_prefix(id, "login:") {
        Some(name) => return MenuAction::SignIn(name),
        None => {},
    }
    match strip_prefix(id, "edit:") {
        Some(name) => MenuAction::Edit(name),
        None => MenuAction::Nothing,
    }
}

/// Whatever a mount is called, the entries of the menu that can be chosen do
/// what they say, to that mount, and those that only inform do nothing.
pub proof fn lemma_choices(name: Seq<char>)
    ensures
        choice("open:"@ + name) == ChoiceModel::OpenMount(name),
        choice("login:"@ + name) == ChoiceModel::SignIn(name),
        choice("edit:"@ + name) == ChoiceModel::Edit(name),
        choice("hdr:"@ + name) == ChoiceModel::Nothing,
        choice("det:"@ + name) == ChoiceModel::Nothing,
        choice("none"@) == ChoiceModel::Nothing,
{
    reveal_strlit("open");
    reveal_strlit("quit");
    reveal_strlit("none");
    reveal_strlit("open:");
    reveal_strlit("login:");
    reveal_strlit("edit:");
    reveal_strlit("hdr:");
    reveal_strlit("det:");
    let o = "open:"@ + name;
    let l = "login:"@ + name;
    let e = "edit:"@ + name;
    let h = "hdr:"@ + name;
    let d = "det:"@ + name;
    assert(o[0] == 'o' && o[4] == ':' && l[0] == 'l' && e[0] == 'e' && h[0] == 'h' && d[0] == 'd');
    assert("none"@[0] == 'n' && "open"@[0] == 'o' && "quit"@[0] == 'q');
    assert("open:"@[0] == 'o' && "login:"@[0] == 'l' && "edit:"@[0] == 'e');
    assert(o.subrange(0, 5) =~= "open:"@);
    assert(o.subrange(5, o.len() as int) =~= name);
    assert(l.subrange(0, 6) =~= "login:"@);
    assert(l.subrange(6, l.len() as int) =~= name);
    assert(e.subrange(0, 5) =~= "edit:"@);
    assert(e.subrange(5, e.len() as int) =~= name);
}

} // verus!
