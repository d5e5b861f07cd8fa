//! Time stamps of the application log.

use crate::number;
use crate::number::decimal_padded_string;
use vstd::prelude::*;

verus! {

// ---------------------------------------------------------------------------
// The calendar
// ---------------------------------------------------------------------------

/// A leap year of the Gregorian calendar.
pub open spec fn leap(y: int) -> bool {
    y % 4 == 0 && (y % 100 != 0 || y % 400 == 0)
}

/// The number of days from 1970-01-01 to the first of January of year `y`.
pub open spec fn days_to_year(y: int) -> int {
    365 * (y - 1970) + (y - 1) / 4 - (y - 1) / 100 + (y - 1) / 400 - 477
}

/// The number of days in month `m` of year `y`.
pub open spec fn month_len(y: int, m: int) -> int {
    if m == 2 {
        if leap(y) {
            29
        } else {
            28
        }
    } else if m == 4 || m == 6 || m == 9 || m == 11 {
        30
    } else {
        31
    }
}

/// The number of days of year `y` before month `m`.
pub open spec fn days_to_month(y: int, m: int) -> int
    decreases m,
{
    if m <= 1 {
        0
    } else {
        days_to_month(y, m - 1) + month_len(y, m - 1)
    }
}

/// A day of the calendar.
pub struct Date {
    pub year: int,
    pub month: int,
    pub day: int,
}

impl Date {
    pub open spec fn valid(self) -> bool {
        1 <= self.month <= 12 && 1 <= self.day <= month_len(self.year, self.month)
    }

    /// The number of days from 1970-01-01 to this day.
    pub open spec fn number(self) -> int {
        days_to_year(self.year) + days_to_month(self.year, self.month) + self.day - 1
    }
}

/// The day that lies `days` days after 1970-01-01.
pub open spec fn date_of(days: int) -> Date {
    choose|d: Date| d.valid() && d.number() == days
}

/// Consecutive years are as many days apart as the first of them has.
pub proof fn lemma_year_length(y: int)
    ensures
        days_to_year(y + 1) - days_to_year(y) == (if leap(y) {
            366int
        } else {
            365int
        }),
        days_to_year(1970) == 0,
{
}

proof fn lemma_months(y: int)
    ensures
        days_to_month(y, 1) == 0,
        days_to_month(y, 2) == 31,
        days_to_month(y, 3) == 31 + month_len(y, 2),
        days_to_month(y, 4) == 62 + month_len(y, 2),
        days_to_month(y, 5) == 92 + month_len(y, 2),
        days_to_month(y, 6) == 123 + month_len(y, 2),
        days_to_month(y, 7) == 153 + month_len(y, 2),
        days_to_month(y, 8) == 184 + month_len(y, 2),
        days_to_month(y, 9) == 215 + month_len(y, 2),
        days_to_month(y, 10) == 245 + month_len(y, 2),
        days_to_month(y, 11) == 276 + month_len(y, 2),
        days_to_month(y, 12) == 306 + month_len(y, 2),
{
    reveal_with_fuel(days_to_month, 13);
}

proof fn lemma_years_ordered(a: int, b: int)
    requires
        a < b,
    ensures
        days_to_year(b) >= days_to_year(a + 1),
    decreases b - a,
{
    if a + 1 < b {
        lemma_years_ordered(a, b - 1);
        lemma_year_length(b - 1);
    }
}

/// No two days have the same number.
pub proof fn lemma_date_unique(a: Date, b: Date)
    requires
        a.valid(),
        b.valid(),
        a.number() == b.number(),
    ensures
        a == b,
{
    lemma_months(a.year);
    lemma_months(b.year);
    lemma_year_length(a.year);
    lemma_year_length(b.year);
    if a.year < b.year {
        lemma_years_ordered(a.year, b.year);
        assert(false);
    }
    if b.year < a.year {
        lemma_years_ordered(b.year, a.year);
        assert(false);
    }
    assert(a.month == b.month);
}

/// `days` counted in eras of 400 years that begin on the first of March.
proof fn lemma_era(doe: int, yoe: int, doy: int)
    requires
        0 <= doe < 146_097,
        yoe == (doe - doe / 1460 + doe / 36_524 - doe / 146_096) / 365,
        doy == doe - (365 * yoe + yoe / 4 - yoe / 100),
    ensures
        0 <= yoe < 400,
        0 <= doy <= 365,
        doy == 365 ==> leap(yoe + 1),
{
}

/// The months of a year that begins in March, by the day of that year.
proof fn lemma_march_months(doy: int, mp: int)
    requires
        0 <= doy <= 365,
        mp == (5 * doy + 2) / 153,
    ensures
        0 <= mp <= 11,
        (153 * mp + 2) / 5 == (if mp == 0 { 0int } else if mp == 1 { 31 } else if mp == 2 { 61
        } else if mp == 3 { 92 } else if mp == 4 { 122 } else if mp == 5 { 153 } else if mp == 6 { 184
        } else if mp == 7 { 214 } else if mp == 8 { 245 } else if mp == 9 { 275 } else if mp == 10 { 306
        } else { 337 }),
        0 <= doy - (153 * mp + 2) / 5,
        doy - (153 * mp + 2) / 5 < (if mp == 1 || mp == 3 || mp == 6 || mp == 8 { 30int
        } else { 31 }),
{
}

/// The first of March of the year `400 * era + yoe`.
proof fn lemma_first_of_march(era: int, yoe: int)
    requires
        0 <= yoe < 400,
    ensures
        days_to_year(400 * era + yoe) + 31 + month_len(400 * era + yoe, 2) == 146_097 * era + 365
            * yoe + yoe / 4 - yoe / 100 - 719_468,
        leap(400 * era + yoe + 1) == leap(yoe + 1),
{
    let y = 400 * era + yoe;
    assert((y - 1) / 4 == 100 * era + (yoe - 1) / 4);
    assert((y - 1) / 100 == 4 * era + (yoe - 1) / 100);
    assert((y - 1) / 400 == era + (yoe - 1) / 400);
    assert(leap(y) == leap(yoe));
    assert(month_len(y, 2) == 28 + yoe / 4 - (yoe - 1) / 4 - (yoe / 100 - (yoe - 1) / 100) + (yoe
        / 400 - (yoe - 1) / 400));
}

proof fn lemma_civil(days: int, era: int, yoe: int, doy: int, mp: int, mo: int, y: int)
    requires
        0 <= yoe < 400,
        0 <= doy <= 365,
        doy == 365 ==> leap(yoe + 1),
        days + 719_468 == 146_097 * era + 365 * yoe + yoe / 4 - yoe / 100 + doy,
        mp == (5 * doy + 2) / 153,
        mo == (if mp < 10 {
            mp + 3
        } else {
            mp - 9
        }),
        y == 400 * era + yoe + (if mo <= 2 {
            1int
        } else {
            0int
        }),
    ensures
        (Date { year: y, month: mo, day: doy - (153 * mp + 2) / 5 + 1 }).valid(),
        (Date { year: y, month: mo, day: doy - (153 * mp + 2) / 5 + 1 }).number() == days,
{
    lemma_march_months(doy, mp);
    lemma_first_of_march(era, yoe);
    lemma_year_length(400 * era + yoe);
    lemma_months(y);
}

/// The year, month and day of the day `days` days after 1970-01-01.
pub fn civil_from_days(days: u64) -> (r: (u64, u64, u64))
    requires
        days <= 0x7fff_ffff_ffff_ffff,
    ensures
        (Date { year: r.0 as int, month: r.1 as int, day: r.2 as int }) == date_of(days as int),
        date_of(days as int).valid(),
        date_of(days as int).number() == days,
{
    let z: u64 = days + 719_468;
    let era: u64 = z / 146_097;
    let doe: u64 = z % 146_097;
    let yoe: u64 = (doe - doe / 1460 + doe / 36_524 - doe / 146_096) / 365;
    proof {
        lemma_era(doe as int, yoe as int, doe - (365 * yoe + yoe / 4 - yoe / 100));
    }
    let doy: u64 = doe - (365 * yoe + yoe / 4 - yoe / 100);
    let mp: u64 = (5 * doy + 2) / 153;
    proof {
        lemma_march_months(doy as int, mp as int);
    }
    let d: u64 = doy - (153 * mp + 2) / 5 + 1;
    let mo: u64 = if mp < 10 {
        mp + 3
    } else {
        mp - 9
    };
    let y: u64 = yoe + era * 400 + (if mo <= 2 {
        1
    } else {
        0
    });
    proof {
        lemma_civil(days as int, era as int, yoe as int, doy as int, mp as int, mo as int, y as int);
        let date = Date { year: y as int, month: mo as int, day: d as int };
        lemma_date_unique(date, date_of(days as int));
    }
    (y, mo, d)
}

/// The point in time `secs` seconds after the start of 1970, as its date and
/// its time of day in UTC, to the second.
pub open spec fn stamp(secs: int) -> Seq<char> {
    let date = date_of(secs / 86_400);
    let rem = secs % 86_400;
    number::decimal_padded(date.year as nat, 4) + "-"@ + number::decimal_padded(date.month as nat, 2)
        + "-"@ + number::decimal_padded(date.day as nat, 2) + " "@ + number::decimal_padded(
        (rem / 3600) as nat,
        2,
    ) + ":"@ + number::decimal_padded(((rem % 3600) / 60) as nat, 2) + ":"@
        + number::decimal_padded((rem % 60) as nat, 2) + "Z"@
}

/// Trusted: `SystemTime::elapsed` of `UNIX_EPOCH` is the time that the system
/// clock shows, counted from the start of 1970; none if the clock is set to
/// an earlier time. Nothing is stated of what it shows.
#[verifier::external_body]
fn seconds_since_epoch() -> (r: Option<u64>) {
    std::time::UNIX_EPOCH.elapsed().ok().map(|d| d.as_secs())
}

/// The second that is stamped for what the clock shows: a clock that is set to
/// a time before 1970 counts as one at its start.
pub open spec fn stamped_second(clock: Option<u64>) -> int {
    match clock {
        Some(secs) => secs as int,
        None => 0,
    }
}

/// The time stamp of a log line written now.
pub fn timestamp() -> (r: String)
    ensures
        exists|clock: Option<u64>| r@ == stamp(#[trigger] stamped_second(clock)),
{
    timestamp_for(seconds_since_epoch())
}

/// The time stamp of a log line, for what the clock shows: the seconds since the
/// start of 1970, or none if it is set to an earlier time.
pub fn timestamp_for(clock: Option<u64>) -> (r: String)
    ensures
        r@ == stamp(stamped_second(clock)),
{
    timestamp_at(
        match clock {
            Some(secs) => secs,
            None => 0,
        },
    )
}

/// The time stamp of a log line, `secs` seconds after the start of 1970.
pub fn timestamp_at(secs: u64) -> (r: String)
    ensures
        r@ == stamp(secs as int),
{
    let days: u64 = secs / 86_400;
    let rem: u64 = secs % 86_400;
    let (y, mo, d) = civil_from_days(days);
    decimal_padded_string(y, 4).concat("-").concat(decimal_padded_string(mo, 2).as_str()).concat(
        "-",
    ).concat(decimal_padded_string(d, 2).as_str()).concat(" ").concat(
        decimal_padded_string(rem / 3600, 2).as_str(),
    ).concat(":").concat(decimal_padded_string((rem % 3600) / 60, 2).as_str()).concat(":").concat(
        decimal_padded_string(rem % 60, 2).as_str(),
    ).concat("Z")
}

/// The line for `msg` in the application's log, for what the clock shows.
pub fn log_line_for(clock: Option<u64>, msg: &str) -> (r: String)
    ensures
        r@ == stamp(stamped_second(clock)) + " "@ + msg@ + "\n"@,
{
    timestamp_for(clock).concat(" ").concat(msg).concat("\n")
}

/// The line for `msg` in the application's log, written now.
pub fn log_line(msg: &str) -> (r: String)
    ensures
        exists|clock: Option<u64>|
            r@ == stamp(#[trigger] stamped_second(clock)) + " "@ + msg@ + "\n"@,
{
    log_line_for(seconds_since_epoch(), msg)
}

} // verus!
