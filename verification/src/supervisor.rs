//! The state of a mount, how it changes, and what the user is told of it;
//! which mounts have to be started and stopped when the settings change.
//!
//! Times are nanoseconds on a clock that never goes back.

use crate::config;
use crate::number;
use crate::number::hex_byte_string;
use crate::path;
use crate::path::join_path;
use crate::rclone;
use crate::rclone::summarize_error;
use crate::split;
use crate::split::contains;
use crate::sso::{SsoModel, SsoProfile};
use crate::text;
use crate::text::{copy_option, same};
use std::collections::VecDeque;
use vstd::prelude::*;

verus! {

pub const SECOND: u64 = 1_000_000_000;

pub const NOTIFY_THROTTLE: u64 = 60_000_000_000;

pub const LOG_TAIL_LINES: usize = 200;

/// The time from `t` to `now`; none if `t` is still to come.
pub open spec fn since(t: u64, now: u64) -> int {
    if now >= t {
        now - t
    } else {
        0
    }
}

pub fn elapsed(t: u64, now: u64) -> (r: u64)
    ensures
        r == since(t, now),
{
    if now >= t {
        now - t
    } else {
        0
    }
}

// ---------------------------------------------------------------------------
// States
// ---------------------------------------------------------------------------

#[derive(Debug, Clone, Copy, PartialEq, Eq, Structural)]
pub enum State {
    Disabled,
    Starting,
    Connected,
    Syncing,
    /// Mounted, but the bucket cannot be reached right now.
    Disconnected,
    /// The AWS SSO session has expired; the user has to sign in again.
    SignInRequired,
    /// The rclone process is not running; a restart is pending.
    Down,
    /// A configuration / environment problem that a restart will not fix.
    Error,
}

impl State {
    pub open spec fn title(self) -> Seq<char> {
        match self {
            State::Disabled => "Disabled"@,
            State::Starting => "Mounting"@,
            State::Connected => "Connected"@,
            State::Syncing => "Syncing"@,
            State::Disconnected => "Connection lost"@,
            State::SignInRequired => "Sign-in required"@,
            State::Down => "Mount down"@,
            State::Error => "Error"@,
        }
    }

    pub open spec fn problem(self) -> bool {
        self == State::Disconnected || self == State::SignInRequired || self == State::Down || self
            == State::Error
    }

    pub open spec fn healthy(self) -> bool {
        self == State::Connected || self == State::Syncing
    }

    pub open spec fn weight(self) -> u8 {
        match self {
            State::Disabled => 0,
            State::Connected => 1,
            State::Syncing => 2,
            State::Starting => 3,
            _ => 4,
        }
    }

    /// Green connected, blue syncing, orange mounting, red disconnected or
    /// down, grey disabled.
    pub open spec fn colour(self) -> (u8, u8, u8) {
        match self {
            State::Disabled => (142, 142, 147),
            State::Connected => (52, 199, 89),
            State::Syncing => (10, 132, 255),
            State::Starting => (255, 159, 10),
            _ => (255, 69, 58),
        }
    }

    pub open spec fn colour_text(self) -> Seq<char> {
        let c = self.colour();
        "#"@ + number::hex_byte(c.0) + number::hex_byte(c.1) + number::hex_byte(c.2)
    }

    pub fn label(self) -> (r: &'static str)
        ensures
            r@ == self.title(),
    {
        match self {
            State::Disabled => "Disabled",
            State::Starting => "Mounting",
            State::Connected => "Connected",
            State::Syncing => "Syncing",
            State::Disconnected => "Connection lost",
            State::SignInRequired => "Sign-in required",
            State::Down => "Mount down",
            State::Error => "Error",
        }
    }

    pub fn is_problem(self) -> (r: bool)
        ensures
            r == self.problem(),
    {
        matches!(self, State::Disconnected | State::SignInRequired | State::Down | State::Error)
    }

    pub fn is_healthy(self) -> (r: bool)
        ensures
            r == self.healthy(),
    {
        matches!(self, State::Connected | State::Syncing)
    }

    /// Higher = worse; used to pick the menu bar icon colour.
    pub fn severity(self) -> (r: u8)
        ensures
            r == self.weight(),
    {
        match self {
            State::Disabled => 0,
            State::Connected => 1,
            State::Syncing => 2,
            State::Starting => 3,
            State::Disconnected | State::SignInRequired | State::Down | State::Error => 4,
        }
    }

    pub fn hex(self) -> (r: String)
        ensures
            r@ == self.colour_text(),
    {
        let (r, g, b) = self.rgb();
        "#".to_owned().concat(hex_byte_string(r).as_str()).concat(hex_byte_string(g).as_str()).concat(
            hex_byte_string(b).as_str(),
        )
    }

    pub fn rgb(self) -> (r: (u8, u8, u8))
        ensures
            r == self.colour(),
    {
        match self {
            State::Disabled => (142, 142, 147),
            State::Connected => (52, 199, 89),
            State::Syncing => (10, 132, 255),
            State::Starting => (255, 159, 10),
            State::Disconnected | State::SignInRequired | State::Down | State::Error => (255, 69, 58),
        }
    }
}

/// The problems are the states of the highest severity, all states of one
/// severity are shown in one colour, and no others are; a healthy mount is no
/// problem and not disabled.
pub proof fn lemma_states(a: State, b: State)
    ensures
        a.problem() <==> a.weight() == 4,
        a.weight() <= 4,
        a.weight() == b.weight() <==> a.colour() == b.colour(),
        a.healthy() ==> !a.problem() && a != State::Disabled,
        a.title() == b.title() ==> a == b,
{
    reveal_strlit("Disabled");
    reveal_strlit("Mounting");
    reveal_strlit("Connected");
    reveal_strlit("Syncing");
    reveal_strlit("Connection lost");
    reveal_strlit("Sign-in required");
    reveal_strlit("Mount down");
    reveal_strlit("Error");
    let x = a.title();
    let y = b.title();
    if x == y {
        assert(x[0] == y[0]);
        assert(x.len() == y.len());
    }
}

// ---------------------------------------------------------------------------
// The status of one mount
// ---------------------------------------------------------------------------

#[derive(Debug)]
pub struct MountStatus {
    pub state: State,
    pub detail: String,
    pub mounted: bool,
    pub uploads_pending: u64,
    pub errored_files: u64,
    pub restarts: u32,
    pub pid: Option<u32>,
    pub since: u64,
    pub last_ok: Option<u64>,
    pub last_error: Option<String>,
    pub log_tail: VecDeque<String>,
    /// The AWS SSO profile behind this mount, if its credentials come from one.
    pub sso_profile: Option<String>,
    /// A synced folder has lost its state; the user has to approve a resync.
    pub needs_resync: bool,
}

/// What a `MountStatus` says, as values.
#[verifier::ext_equal]
pub struct StatusModel {
    pub state: State,
    pub detail: Seq<char>,
    pub mounted: bool,
    pub uploads_pending: u64,
    pub errored_files: u64,
    pub restarts: u32,
    pub pid: Option<u32>,
    pub since: u64,
    pub last_ok: Option<u64>,
    pub last_error: Option<Seq<char>>,
    pub log_tail: Seq<Seq<char>>,
    pub sso_profile: Option<Seq<char>>,
    pub needs_resync: bool,
}

impl View for MountStatus {
    type V = StatusModel;

    open spec fn view(&self) -> StatusModel {
        StatusModel {
            state: self.state,
            detail: self.detail@,
            mounted: self.mounted,
            uploads_pending: self.uploads_pending,
            errored_files: self.errored_files,
            restarts: self.restarts,
            pid: self.pid,
            since: self.since,
            last_ok: self.last_ok,
            last_error: text::opt_string(self.last_error),
            log_tail: text::views(self.log_tail@),
            sso_profile: text::opt_string(self.sso_profile),
            needs_resync: self.needs_resync,
        }
    }
}

impl StatusModel {
    pub open spec fn fresh(state: State, detail: Seq<char>, now: u64) -> StatusModel {
        StatusModel {
            state,
            detail,
            mounted: false,
            uploads_pending: 0,
            errored_files: 0,
            restarts: 0,
            pid: None,
            since: now,
            last_ok: None,
            last_error: None,
            log_tail: Seq::empty(),
            sso_profile: None,
            needs_resync: false,
        }
    }
}

impl MountStatus {
    pub fn new(state: State, detail: &str, now: u64) -> (r: Self)
        ensures
            r@ == StatusModel::fresh(state, detail@, now),
    {
        let log_tail: VecDeque<String> = VecDeque::new();
        assert(text::views(log_tail@) =~= Seq::<Seq<char>>::empty());
        MountStatus {
            state,
            detail: detail.to_owned(),
            mounted: false,
            uploads_pending: 0,
            errored_files: 0,
            restarts: 0,
            pid: None,
            since: now,
            last_ok: None,
            last_error: None,
            log_tail,
            sso_profile: None,
            needs_resync: false,
        }
    }
}

/// A copy of the lines of a log.
fn copy_lines(v: &VecDeque<String>) -> (r: VecDeque<String>)
    ensures
        text::views(r@) == text::views(v@),
{
    let mut r: VecDeque<String> = VecDeque::new();
    let mut i: usize = 0;
    while i < v.len()
        invariant
            i <= v.len(),
            r@.len() == i,
            forall|j: int| 0 <= j < i ==> (#[trigger] r@[j])@ == v@[j]@,
        decreases v.len() - i,
    {
        r.push_back(v[i].clone());
        i = i + 1;
    }
    assert(text::views(r@) =~= text::views(v@));
    r
}

impl Clone for MountStatus {
    fn clone(&self) -> (r: Self)
        ensures
            r@ == self@,
    {
        MountStatus {
            state: self.state,
            detail: self.detail.clone(),
            mounted: self.mounted,
            uploads_pending: self.uploads_pending,
            errored_files: self.errored_files,
            restarts: self.restarts,
            pid: self.pid,
            since: self.since,
            last_ok: self.last_ok,
            last_error: copy_option(&self.last_error),
            log_tail: copy_lines(&self.log_tail),
            sso_profile: copy_option(&self.sso_profile),
            needs_resync: self.needs_resync,
        }
    }
}

// ---------------------------------------------------------------------------
// Signing in
// ---------------------------------------------------------------------------

/// What is shown of a mount that waits for a sign-in.
pub open spec fn expired_text(profile: Option<SsoModel>) -> Seq<char> {
    match profile {
        Some(p) => "AWS SSO session for profile '"@ + p.profile + "' has expired"@,
        None => "AWS SSO session has expired"@,
    }
}

pub fn signin_detail(profile: Option<&SsoProfile>) -> (r: String)
    ensures
        r@ == expired_text(
            match profile {
                Some(p) => Some(p@),
                None => None,
            },
        ),
{
    match profile {
        Some(p) => "AWS SSO session for profile '".to_owned().concat(p.profile.as_str()).concat(
            "' has expired",
        ),
        None => "AWS SSO session has expired".to_owned(),
    }
}

// ---------------------------------------------------------------------------
// Changing the state, and telling the user
// ---------------------------------------------------------------------------

/// What one supervisor remembers of what it told the user.
#[derive(Debug)]
pub struct Ctx {
    pub name: String,
    pub last_notify: Option<u64>,
    pub ever_healthy: bool,
}

/// What a `Ctx` says, as values.
#[verifier::ext_equal]
pub struct CtxModel {
    pub name: Seq<char>,
    pub last_notify: Option<u64>,
    pub ever_healthy: bool,
}

impl View for Ctx {
    type V = CtxModel;

    open spec fn view(&self) -> CtxModel {
        CtxModel {
            name: self.name@,
            last_notify: self.last_notify,
            ever_healthy: self.ever_healthy,
        }
    }
}

/// What is to be done after a state was set.
#[derive(Debug)]
pub struct Effects {
    /// The window and the menu have to be drawn again.
    pub refresh: bool,
    /// A line for the application's log.
    pub log: Option<String>,
    /// A notification for the user.
    pub notice: Option<String>,
}

/// What `Effects` say, as values.
#[verifier::ext_equal]
pub struct EffectsModel {
    pub refresh: bool,
    pub log: Option<Seq<char>>,
    pub notice: Option<Seq<char>>,
}

impl View for Effects {
    type V = EffectsModel;

    open spec fn view(&self) -> EffectsModel {
        EffectsModel {
            refresh: self.refresh,
            log: text::opt_string(self.log),
            notice: text::opt_string(self.notice),
        }
    }
}

impl EffectsModel {
    /// Nothing is to be drawn, logged or told.
    pub open spec fn none() -> EffectsModel {
        EffectsModel { refresh: false, log: None, notice: None }
    }
}

impl Effects {
    pub fn none() -> (r: Self)
        ensures
            r@ == EffectsModel::none(),
    {
        Effects { refresh: false, log: None, notice: None }
    }
}

impl StatusModel {
    pub open spec fn shows(self, state: State, detail: Seq<char>) -> bool {
        self.state == state && self.detail == detail
    }

    /// The status in which `state` and `detail` are shown from `now` on.
    pub open spec fn showing(self, state: State, detail: Seq<char>, now: u64) -> StatusModel {
        if self.shows(state, detail) {
            self
        } else {
            StatusModel {
                state,
                detail,
                since: if self.state == state {
                    self.since
                } else {
                    now
                },
                last_ok: if state.healthy() {
                    Some(now)
                } else {
                    self.last_ok
                },
                ..self
            }
        }
    }
}

/// What is said of a mount that has got into the state.
pub open spec fn trouble(state: State) -> Seq<char> {
    match state {
        State::Disconnected => "connection to the bucket lost"@,
        State::SignInRequired => "AWS sign-in required. Open BucketMount and click Sign in"@,
        State::Down => "mount stopped, restarting"@,
        _ => "needs attention"@,
    }
}

impl CtxModel {
    /// The user was told of a problem a short while ago.
    pub open spec fn throttled(self, now: u64) -> bool {
        self.last_notify matches Some(t) && since(t, now) < NOTIFY_THROTTLE
    }

    /// The user is told of a problem: the mount gets into one from a state
    /// that was none.
    pub open spec fn warns(self, s: StatusModel, state: State, now: u64) -> bool {
        state.problem() && !s.state.problem() && !self.throttled(now)
    }

    /// The user is told that all is well again.
    pub open spec fn reassures(self, s: StatusModel, state: State) -> bool {
        state.healthy() && s.state.problem() && self.ever_healthy
    }

    /// What is remembered once `state` has been set.
    pub open spec fn after(
        self,
        s: StatusModel,
        state: State,
        detail: Seq<char>,
        now: u64,
    ) -> CtxModel {
        if s.shows(state, detail) {
            self
        } else {
            CtxModel {
                name: self.name,
                last_notify: if self.warns(s, state, now) {
                    Some(now)
                } else {
                    self.last_notify
                },
                ever_healthy: self.ever_healthy || state.healthy(),
            }
        }
    }

    pub open spec fn notice(
        self,
        s: StatusModel,
        state: State,
        detail: Seq<char>,
        now: u64,
    ) -> Option<Seq<char>> {
        if s.shows(state, detail) {
            None
        } else if self.reassures(s, state) {
            Some(self.name + ": connection restored"@)
        } else if self.warns(s, state, now) {
            Some(self.name + ": "@ + trouble(state) + ". "@ + detail)
        } else {
            None
        }
    }

    pub open spec fn effects(
        self,
        s: StatusModel,
        state: State,
        detail: Seq<char>,
        now: u64,
    ) -> EffectsModel {
        EffectsModel {
            refresh: !s.shows(state, detail),
            log: if s.state == state {
                None
            } else {
                Some(
                    "["@ + self.name + "] "@ + s.state.title() + " -> "@ + state.title() + ": "@
                        + detail,
                )
            },
            notice: self.notice(s, state, detail, now),
        }
    }
}

impl Ctx {
    pub fn new(name: &str) -> (r: Self)
        ensures
            r@ == (CtxModel { name: name@, last_notify: None, ever_healthy: false }),
    {
        Ctx { name: name.to_owned(), last_notify: None, ever_healthy: false }
    }

    /// The supervisor has to tear down: this mount was told to stop, or the
    /// whole application was.
    pub fn stopping(stop: bool, terminate: bool) -> (r: bool)
        ensures
            r == (stop || terminate),
    {
        stop || terminate
    }

    /// Shows `state` and `detail` from `now` on, and says what else has to be
    /// done. Notifications come on meaningful transitions only.
    pub fn set(&mut self, status: &mut MountStatus, state: State, detail: &str, now: u64) -> (r:
        Effects)
        ensures
            final(status)@ == old(status)@.showing(state, detail@, now),
            final(self)@ == old(self)@.after(old(status)@, state, detail@, now),
            r@ == old(self)@.effects(old(status)@, state, detail@, now),
    {
        if status.state == state && same(status.detail.as_str(), detail) {
            return Effects::none();
        }
        let prev = status.state;
        let log = if prev != state {
            status.since = now;
            Some(
                "[".to_owned().concat(self.name.as_str()).concat("] ").concat(prev.label()).concat(
                    " -> ",
                ).concat(state.label()).concat(": ").concat(detail),
            )
        } else {
            None
        };
        status.state = state;
        status.detail = detail.to_owned();
        if state.is_healthy() {
            status.last_ok = Some(now);
        }
        let mut notice: Option<String> = None;
        if state.is_healthy() {
            if prev.is_problem() && self.ever_healthy {
                notice = Some(self.name.clone().concat(": connection restored"));
            }
            self.ever_healthy = true;
        } else if state.is_problem() && !prev.is_problem() {
            let throttled = match self.last_notify {
                Some(t) => elapsed(t, now) < NOTIFY_THROTTLE,
                None => false,
            };
            if !throttled {
                self.last_notify = Some(now);
                let what = match state {
                    State::Disconnected => "connection to the bucket lost",
                    State::SignInRequired =>
                    "AWS sign-in required. Open BucketMount and click Sign in",
                    State::Down => "mount stopped, restarting",
                    _ => "needs attention",
                };
                notice = Some(
                    self.name.clone().concat(": ").concat(what).concat(". ").concat(detail),
                );
            }
        }
        Effects { refresh: true, log, notice }
    }
}

/// One call of `Ctx::set`.
pub struct SetCall {
    pub state: State,
    pub detail: Seq<char>,
    pub now: u64,
}

/// What is remembered and shown after the first `k` of the calls.
pub open spec fn after_calls(c: CtxModel, s: StatusModel, calls: Seq<SetCall>, k: int) -> (
    CtxModel,
    StatusModel,
)
    decreases k,
{
    if k <= 0 {
        (c, s)
    } else {
        let (c1, s1) = after_calls(c, s, calls, k - 1);
        let call = calls[k - 1];
        (
            c1.after(s1, call.state, call.detail, call.now),
            s1.showing(call.state, call.detail, call.now),
        )
    }
}

/// Call `k` tells the user of a problem.
pub open spec fn warned_at(c: CtxModel, s: StatusModel, calls: Seq<SetCall>, k: int) -> bool {
    let (c1, s1) = after_calls(c, s, calls, k);
    calls[k].state.problem() && c1.notice(s1, calls[k].state, calls[k].detail, calls[k].now) is Some
}

/// Call `k` tells the user that all is well again.
pub open spec fn reassured_at(c: CtxModel, s: StatusModel, calls: Seq<SetCall>, k: int) -> bool {
    let (c1, s1) = after_calls(c, s, calls, k);
    calls[k].state.healthy() && c1.notice(s1, calls[k].state, calls[k].detail, calls[k].now) is Some
}

pub open spec fn in_order(calls: Seq<SetCall>) -> bool {
    forall|a: int, b: int|
        0 <= a <= b < calls.len() ==> (#[trigger] calls[a]).now <= (#[trigger] calls[b]).now
}

proof fn lemma_warning_remembered(
    c: CtxModel,
    s: StatusModel,
    calls: Seq<SetCall>,
    i: int,
    k: int,
)
    requires
        in_order(calls),
        0 <= i < k <= calls.len(),
        warned_at(c, s, calls, i),
    ensures
        after_calls(c, s, calls, k).0.last_notify matches Some(t) && calls[i].now <= t,
    decreases k,
{
    if i + 1 < k {
        lemma_warning_remembered(c, s, calls, i, k - 1);
        assert(calls[i].now <= calls[k - 1].now);
    }
}

/// However often the state changes, two warnings are at least a minute apart.
pub proof fn lemma_warnings_apart(
    c: CtxModel,
    s: StatusModel,
    calls: Seq<SetCall>,
    i: int,
    j: int,
)
    requires
        in_order(calls),
        0 <= i < j < calls.len(),
        warned_at(c, s, calls, i),
        warned_at(c, s, calls, j),
    ensures
        calls[j].now - calls[i].now >= NOTIFY_THROTTLE,
{
    lemma_warning_remembered(c, s, calls, i, j);
}

/// A mount that was never healthy since its supervisor started is not said to
/// be restored; and whoever is told so, it was in trouble right before.
pub proof fn lemma_restored_only_after_health(
    c: CtxModel,
    s: StatusModel,
    calls: Seq<SetCall>,
    k: int,
)
    requires
        0 <= k < calls.len(),
        !c.ever_healthy,
        reassured_at(c, s, calls, k),
    ensures
        after_calls(c, s, calls, k).1.state.problem(),
        exists|h: int| 0 <= h < k && (#[trigger] calls[h]).state.healthy(),
{
    lemma_health_remembered(c, s, calls, k);
}

proof fn lemma_health_remembered(c: CtxModel, s: StatusModel, calls: Seq<SetCall>, k: int)
    requires
        0 <= k <= calls.len(),
        !c.ever_healthy,
        after_calls(c, s, calls, k).0.ever_healthy,
    ensures
        exists|h: int| 0 <= h < k && (#[trigger] calls[h]).state.healthy(),
    decreases k,
{
    if k > 0 {
        if after_calls(c, s, calls, k - 1).0.ever_healthy {
            lemma_health_remembered(c, s, calls, k - 1);
        } else {
            assert(calls[k - 1].state.healthy());
        }
    }
}

/// Setting what is shown already changes nothing and tells nobody; and what
/// was set is what is shown.
pub proof fn lemma_set_twice(c: CtxModel, s: StatusModel, state: State, detail: Seq<char>, now: u64, later: u64)
    ensures
        s.showing(state, detail, now).shows(state, detail),
        s.showing(state, detail, now).showing(state, detail, later) == s.showing(state, detail, now),
        c.effects(s.showing(state, detail, now), state, detail, later) == EffectsModel::none(),
{
}

// ---------------------------------------------------------------------------
// The tail of the log
// ---------------------------------------------------------------------------

/// The last `n` of the lines.
pub open spec fn last_lines(lines: Seq<Seq<char>>, n: nat) -> Seq<Seq<char>> {
    if lines.len() <= n {
        lines
    } else {
        lines.subrange(lines.len() - n, lines.len() as int)
    }
}

/// The line tells why something went wrong.
pub open spec fn alarming(line: Seq<char>) -> bool {
    split::has(line, " ERROR "@) || split::has(line, "Failed to"@) || split::has(line, "CRITICAL"@)
}

/// The tail of a log to which one more line is added. It makes room for the
/// line by dropping its first one when it is full.
pub open spec fn tail_with(tail: Seq<Seq<char>>, line: Seq<char>) -> Seq<Seq<char>> {
    if tail.len() >= LOG_TAIL_LINES {
        tail.subrange(1, tail.len() as int).push(line)
    } else {
        tail.push(line)
    }
}

impl MountStatus {
    /// Takes in one line that rclone printed: it joins the tail of the log,
    /// and an alarming one becomes the last error.
    pub fn log_line(&mut self, line: &str)
        ensures
            final(self)@ == (StatusModel {
                last_error: if alarming(line@) {
                    Some(rclone::summary(line@))
                } else {
                    old(self)@.last_error
                },
                log_tail: tail_with(old(self)@.log_tail, line@),
                ..old(self)@
            }),
    {
        if contains(line, " ERROR ") || contains(line, "Failed to") || contains(line, "CRITICAL") {
            self.last_error = Some(summarize_error(line));
        }
        let ghost tail = self.log_tail@;
        if self.log_tail.len() >= LOG_TAIL_LINES {
            let _ = self.log_tail.pop_front();
            assert(text::views(self.log_tail@) =~= text::views(tail).subrange(
                1,
                tail.len() as int,
            ));
        }
        let ghost tail = self.log_tail@;
        self.log_tail.push_back(line.to_owned());
        assert(text::views(self.log_tail@) =~= text::views(tail).push(line@));
    }
}

/// The tail after all of `lines` have been added to an empty one.
pub open spec fn tail_of(lines: Seq<Seq<char>>) -> Seq<Seq<char>>
    decreases lines.len(),
{
    if lines.len() == 0 {
        Seq::empty()
    } else {
        tail_with(tail_of(lines.drop_last()), lines.last())
    }
}

/// The tail of a log is its last 200 lines.
pub proof fn lemma_tail_is_last_lines(lines: Seq<Seq<char>>)
    ensures
        tail_of(lines) == last_lines(lines, LOG_TAIL_LINES as nat),
    decreases lines.len(),
{
    if lines.len() > 0 {
        lemma_tail_is_last_lines(lines.drop_last());
        assert(tail_of(lines) =~= last_lines(lines, LOG_TAIL_LINES as nat));
    }
}

// ---------------------------------------------------------------------------
// Waiting
// ---------------------------------------------------------------------------

impl Ctx {
    /// A wait of `secs` seconds that began at `started` goes on, for so many
    /// milliseconds before the next look: small steps, so that stop requests
    /// are honoured quickly.
    pub fn wait(started: u64, secs: u64, now: u64, stopping: bool) -> (r: Option<u64>)
        ensures
            r == (if now < started + secs * SECOND && !stopping {
                Some(200u64)
            } else {
                None
            }),
    {
        if (now as u128) < started as u128 + secs as u128 * 1_000_000_000 && !stopping {
            Some(200)
        } else {
            None
        }
    }
}

/// What to do about a process that was asked to end.
#[derive(Debug, Clone, Copy, PartialEq, Eq, Structural)]
pub enum Terminating {
    /// It has ended.
    Gone,
    /// Look again after this many milliseconds.
    Again { millis: u64 },
    /// It had its time: kill it.
    Kill,
}

/// The next step with a process that was asked to end `waited` nanoseconds
/// ago: it has ten seconds to comply.
pub fn terminate(waited: u64, exited: bool) -> (r: Terminating)
    ensures
        r == (if waited >= 10 * SECOND {
            Terminating::Kill
        } else if exited {
            Terminating::Gone
        } else {
            Terminating::Again { millis: 100 }
        }),
{
    if waited >= 10 * SECOND {
        Terminating::Kill
    } else if exited {
        Terminating::Gone
    } else {
        Terminating::Again { millis: 100 }
    }
}

// ---------------------------------------------------------------------------
// The mount point
// ---------------------------------------------------------------------------

/// How far the preparation of a mount point got.
#[derive(Debug)]
pub enum Preparation {
    /// What was mounted there could not be unmounted.
    UnmountFailed(String),
    /// The folder could not be created.
    CreateFailed(String),
    /// It could not be listed.
    ReadFailed(String),
    /// The names in it; none for an entry that could not be read.
    Entries(Vec<Option<String>>),
}

/// The entry may stay where a volume is to be mounted.
pub open spec fn trivial(entry: Option<String>) -> bool {
    entry matches Some(n) && (n@ == ".DS_Store"@ || n@ == ".localized"@)
}

fn are_trivial(entries: &Vec<Option<String>>) -> (r: bool)
    ensures
        r == forall|i: int| 0 <= i < entries@.len() ==> trivial(#[trigger] entries@[i]),
{
    let mut i: usize = 0;
    while i < entries.len()
        invariant
            i <= entries.len(),
            forall|j: int| 0 <= j < i ==> trivial(#[trigger] entries@[j]),
        decreases entries.len() - i,
    {
        let fine = match &entries[i] {
            Some(n) => same(n.as_str(), ".DS_Store") || same(n.as_str(), ".localized"),
            None => false,
        };
        if !fine {
            assert(!trivial(entries@[i as int]));
            return false;
        }
        i = i + 1;
    }
    true
}

/// What keeps a volume from being mounted.
pub open spec fn obstacle(mount_point: Seq<char>, found: Preparation, home: Seq<char>) -> Option<
    Seq<char>,
> {
    match found {
        Preparation::UnmountFailed(e) => Some(e@),
        Preparation::CreateFailed(e) => Some(
            "Cannot create mount point "@ + mount_point + ": "@ + e@,
        ),
        Preparation::ReadFailed(e) => Some("Cannot read mount point "@ + mount_point + ": "@ + e@),
        Preparation::Entries(entries) => if forall|i: int|
            0 <= i < entries@.len() ==> trivial(#[trigger] entries@[i]) {
            None
        } else {
            Some(
                "Mount point "@ + config::collapsed(mount_point, home)
                    + " is not empty. Choose an empty folder."@,
            )
        },
    }
}

/// Create the mount point, clean up leftovers from a previous run and make
/// sure nothing else lives there: whether that has worked out.
pub fn prepare_mount_point(mount_point: &str, found: Preparation) -> (r: Result<(), String>)
    ensures
        exists|home: Seq<char>|
            home.len() > 0 && match r {
                Ok(_) => (#[trigger] obstacle(mount_point@, found, home)) is None,
                Err(e) => obstacle(mount_point@, found, home) == Some(e@),
            },
{
    prepare_mount_point_in(mount_point, found, config::home_dir().as_str())
}

pub fn prepare_mount_point_in(mount_point: &str, found: Preparation, home: &str) -> (r: Result<
    (),
    String,
>)
    requires
        home@.len() > 0,
    ensures
        match r {
            Ok(_) => obstacle(mount_point@, found, home@) is None,
            Err(e) => obstacle(mount_point@, found, home@) == Some(e@),
        },
{
    match found {
        Preparation::UnmountFailed(e) => Err(e),
        Preparation::CreateFailed(e) => Err(
            "Cannot create mount point ".to_owned().concat(mount_point).concat(": ").concat(
                e.as_str(),
            ),
        ),
        Preparation::ReadFailed(e) => Err(
            "Cannot read mount point ".to_owned().concat(mount_point).concat(": ").concat(e.as_str()),
        ),
        Preparation::Entries(entries) => {
            if are_trivial(&entries) {
                Ok(())
            } else {
                Err(
                    "Mount point ".to_owned().concat(
                        config::collapse_tilde_in(mount_point, home).as_str(),
                    ).concat(" is not empty. Choose an empty folder."),
                )
            }
        },
    }
}

// ---------------------------------------------------------------------------
// Log files
// ---------------------------------------------------------------------------

/// A log file is rotated when it has got longer than this many bytes.
pub const LOG_FILE_LIMIT: u64 = 10_485_760;

/// The log file of a mount.
pub open spec fn log_file(name: Seq<char>, home: Seq<char>) -> Seq<char> {
    path::joined_path(config::library_path(home, "Logs"@), rclone::sanitized(name) + ".log"@)
}

/// The log file of a mount before the last rotation.
pub open spec fn old_log_file(name: Seq<char>, home: Seq<char>) -> Seq<char> {
    path::joined_path(config::library_path(home, "Logs"@), rclone::sanitized(name) + ".log.1"@)
}

pub fn log_path(name: &str) -> (r: String)
    ensures
        exists|home: Seq<char>| home.len() > 0 && r@ == #[trigger] log_file(name@, home),
{
    log_path_in(name, config::home_dir().as_str())
}

pub fn log_path_in(name: &str, home: &str) -> (r: String)
    ensures
        r@ == log_file(name@, home@),
{
    join_path(
        config::logs_dir_in(home).as_str(),
        rclone::sanitize(name).concat(".log").as_str(),
    )
}

/// Where the log of a mount goes when it is rotated.
pub fn old_log_path(name: &str) -> (r: String)
    ensures
        exists|home: Seq<char>| home.len() > 0 && r@ == #[trigger] old_log_file(name@, home),
{
    old_log_path_in(name, config::home_dir().as_str())
}

pub fn old_log_path_in(name: &str, home: &str) -> (r: String)
    ensures
        r@ == old_log_file(name@, home@),
{
    join_path(
        config::logs_dir_in(home).as_str(),
        rclone::sanitize(name).concat(".log.1").as_str(),
    )
}

/// Whether a log file has to be rotated; `len` is its length, if it exists.
pub fn needs_rotation(len: Option<u64>) -> (r: bool)
    ensures
        r == (len matches Some(n) && n > LOG_FILE_LIMIT),
{
    match len {
        Some(n) => n > LOG_FILE_LIMIT,
        None => false,
    }
}

} // verus!
