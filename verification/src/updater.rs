//! Self-update: when to look for a newer build, and when to install one.
//!
//! Shortly after launch and then every few hours the newest release is looked
//! up. A newer build is downloaded in the background, installed over the
//! running app once no mount is busy, and the app relaunches into it.

use vstd::prelude::*;

verus! {

/// The first check comes so many nanoseconds after launch.
pub const FIRST_CHECK_AFTER: u64 = 60_000_000_000;

/// The next ones follow after so many nanoseconds.
pub const CHECK_EVERY: u64 = 14_400_000_000_000;

/// Install even if a mount still looks busy after this long.
pub const MAX_IDLE_WAIT: u64 = 900_000_000_000;

/// Set in the environment of the relaunched app so it waits for the old
/// process to release the single-instance lock.
pub const RELAUNCH_ENV: &'static str = "BUCKETMOUNT_RELAUNCH";

/// When updates are looked for.
#[derive(Debug)]
pub struct Schedule {
    /// When the next check is due.
    pub next: u128,
    /// The user asked for a check.
    pub asked: bool,
}

/// A check has to be made, or has not.
#[derive(Debug, Clone, Copy, PartialEq, Eq, Structural)]
pub enum Check {
    No,
    Due,
    /// The user asked for it, and is told of the outcome.
    Manual,
}

impl Schedule {
    pub fn new(now: u64) -> (r: Self)
        ensures
            r.next == now + FIRST_CHECK_AFTER,
            !r.asked,
    {
        Schedule { next: now as u128 + FIRST_CHECK_AFTER as u128, asked: false }
    }

    /// The user asks for a check; it is made within a second.
    pub fn check_now(&mut self)
        ensures
            final(self).asked,
            final(self).next == old(self).next,
    {
        self.asked = true;
    }

    /// Whether a check has to be made now. One that was asked for is made at
    /// once; whenever one is made, the next is due after a few hours.
    pub fn poll(&mut self, now: u64) -> (r: Check)
        ensures
            !final(self).asked,
            r == (if old(self).asked {
                Check::Manual
            } else if now < old(self).next {
                Check::No
            } else {
                Check::Due
            }),
            final(self).next == (if r == Check::No {
                old(self).next as int
            } else {
                now + CHECK_EVERY
            }),
    {
        let manual = self.asked;
        self.asked = false;
        if !manual && (now as u128) < self.next {
            return Check::No;
        }
        self.next = now as u128 + CHECK_EVERY as u128;
        if manual {
            Check::Manual
        } else {
            Check::Due
        }
    }
}

/// What to do while an update waits to be installed.
#[derive(Debug, Clone, Copy, PartialEq, Eq, Structural)]
pub enum IdleWait {
    Install,
    /// Install although mounts are still busy.
    InstallAnyway,
    /// Look again after this many milliseconds.
    Again { millis: u64 },
}

/// Wait until no mount is uploading, mounting or in the middle of a sync, so
/// the relaunch interrupts nothing. `waited` is the time so far, in
/// nanoseconds.
pub fn wait_until_idle(waited: u64, busy: bool) -> (r: IdleWait)
    ensures
        r == (if waited >= MAX_IDLE_WAIT {
            IdleWait::InstallAnyway
        } else if !busy {
            IdleWait::Install
        } else {
            IdleWait::Again { millis: 5000 }
        }),
{
    if waited >= MAX_IDLE_WAIT {
        IdleWait::InstallAnyway
    } else if !busy {
        IdleWait::Install
    } else {
        IdleWait::Again { millis: 5000 }
    }
}

/// What is logged, and what the user is told, when a check has failed.
pub fn check_failed(error: &str, manual: bool) -> (r: (String, Option<String>))
    ensures
        r.0@ == "update check failed: "@ + error@,
        match r.1 {
            Some(notice) => manual && notice@ == "Could not check for updates: "@ + error@,
            None => !manual,
        },
{
    let log = "update check failed: ".to_owned().concat(error);
    if manual {
        (log, Some("Could not check for updates: ".to_owned().concat(error)))
    } else {
        (log, None)
    }
}

/// What the user is told when there is no newer build than `current`.
pub fn up_to_date(current: &str, manual: bool) -> (r: Option<String>)
    ensures
        match r {
            Some(notice) => manual && notice@ == "BucketMount "@ + current@ + " is up to date."@,
            None => !manual,
        },
{
    if manual {
        Some("BucketMount ".to_owned().concat(current).concat(" is up to date."))
    } else {
        None
    }
}

} // verus!
