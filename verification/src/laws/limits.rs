//! How long things may take, how often they are done, and how large they get.

use crate::keeper;
use crate::login;
use crate::mac;
use crate::rclone;
use crate::session;
use crate::sso;
use crate::supervisor;
use crate::tray;
use crate::updater;
use vstd::prelude::*;

verus! {

/// A number of minutes, in nanoseconds.
pub open spec fn minutes(n: int) -> int {
    n * 60 * 1_000_000_000
}

/// An update is looked for a minute after launch and then every four hours, and
/// it is installed over busy mounts only after a quarter of an hour.
pub proof fn lemma_updates()
    ensures
        updater::FIRST_CHECK_AFTER == minutes(1),
        updater::CHECK_EVERY == minutes(240),
        updater::MAX_IDLE_WAIT == minutes(15),
        updater::RELAUNCH_ENV@ == "BUCKETMOUNT_RELAUNCH"@,
{
}

/// A check of the bucket may take half a minute, one that the user asks for a
/// little longer, and a question to a running mount five seconds; a session that
/// has held for five minutes counts as healthy.
pub proof fn lemma_patience_with_rclone()
    ensures
        rclone::CHECK_TIMEOUT_SECS == 30,
        rclone::TEST_TIMEOUT_SECS == 40,
        rclone::STATS_TIMEOUT_SECS == 5,
        session::LOOK_MILLIS == 1000,
        session::LOG_SETTLE_MILLIS == 300,
        mac::KILL_SETTLE_MILLIS == 2000,
        keeper::HEALTHY_RESET == minutes(5),
{
}

/// A log file is rotated beyond ten megabytes, and a detail in the menu is cut
/// at seventy characters.
pub proof fn lemma_sizes()
    ensures
        supervisor::LOG_FILE_LIMIT == 10 * 1024 * 1024,
        tray::DETAIL_CHARS == 70,
{
}

/// The words that mean something to others: to the sign-in service the grant for
/// devices, and within the application an expired session and the menu bar item.
pub proof fn lemma_words()
    ensures
        login::DEVICE_GRANT@ == "urn:ietf:params:oauth:grant-type:device_code"@,
        sso::SESSION_EXPIRED@ == "AWS SSO session expired or invalid"@,
        tray::TRAY_ID@ == "main"@,
{
}

} // verus!
