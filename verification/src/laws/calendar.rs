//! Dates and times of day in stamps and tokens.

use crate::applog;
use crate::applog::Date;
use crate::clock;
use crate::number;
use vstd::prelude::*;

verus! {

/// How many days a month has.
pub open spec fn month_days(year: int, month: int) -> int {
    if month == 2 && (year % 400 == 0 || (year % 4 == 0 && year % 100 != 0)) {
        29
    } else {
        seq![31int, 28, 31, 30, 31, 30, 31, 31, 30, 31, 30, 31][month - 1]
    }
}

/// The day that follows another.
pub open spec fn next_day(d: Date) -> Date {
    if d.day < month_days(d.year, d.month) {
        Date { year: d.year, month: d.month, day: d.day + 1 }
    } else if d.month < 12 {
        Date { year: d.year, month: d.month + 1, day: 1 }
    } else {
        Date { year: d.year + 1, month: 1, day: 1 }
    }
}

/// The days are numbered through from the first of January 1970, which is day
/// 0, and no day is left out.
pub proof fn lemma_days_follow_one_another(d: Date)
    requires
        d.valid(),
    ensures
        (Date { year: 1970, month: 1, day: 1 }).number() == 0,
        d.valid() <==> 1 <= d.month <= 12 && 1 <= d.day <= month_days(d.year, d.month),
        next_day(d).valid(),
        next_day(d).number() == d.number() + 1,
        applog::date_of(d.number()) == d,
{
    reveal_with_fuel(applog::days_to_month, 14);
    applog::lemma_year_length(d.year);
    let found = applog::date_of(d.number());
    assert(d.valid() && d.number() == d.number());
    applog::lemma_date_unique(found, d);
}

/// The second of a day at a time of day.
pub open spec fn second(d: Date, hour: int, minute: int, second: int) -> int {
    d.number() * 86_400 + hour * 3_600 + minute * 60 + second
}

/// The date as it is written.
pub open spec fn written_date(d: Date) -> Seq<char> {
    number::decimal_padded(d.year as nat, 4) + "-"@ + number::decimal_padded(d.month as nat, 2)
        + "-"@ + number::decimal_padded(d.day as nat, 2)
}

/// The time of day as it is written.
pub open spec fn written_time(hour: int, minute: int, second: int) -> Seq<char> {
    number::decimal_padded(hour as nat, 2) + ":"@ + number::decimal_padded(minute as nat, 2) + ":"@
        + number::decimal_padded(second as nat, 2)
}

/// A stamp says the day and the time of day, with a space in between in the log
/// and a `T` in a token, in UTC.
pub proof fn lemma_what_a_stamp_says(d: Date, hour: int, minute: int, sec: int)
    requires
        d.valid(),
        0 <= hour < 24,
        0 <= minute < 60,
        0 <= sec < 60,
    ensures
        applog::stamp(second(d, hour, minute, sec)) == written_date(d) + " "@ + written_time(
            hour,
            minute,
            sec,
        ) + "Z"@,
        clock::rfc3339(second(d, hour, minute, sec)) == written_date(d) + "T"@ + written_time(
            hour,
            minute,
            sec,
        ) + "Z"@,
{
    let t = second(d, hour, minute, sec);
    lemma_days_follow_one_another(d);
    assert(t / 86_400 == d.number() && t % 86_400 == hour * 3_600 + minute * 60 + sec);
    let rem = t % 86_400;
    assert(rem / 3600 == hour && rem % 3600 == minute * 60 + sec);
    assert((rem % 3600) / 60 == minute && rem % 60 == sec);
    assert(applog::stamp(t) =~= written_date(d) + " "@ + written_time(hour, minute, sec) + "Z"@);
    assert(clock::rfc3339(t) =~= written_date(d) + "T"@ + written_time(hour, minute, sec) + "Z"@);
}

/// A clock that is set before 1970 stamps its start, any other the second that
/// it shows.
pub proof fn lemma_what_is_stamped(secs: u64)
    ensures
        applog::stamped_second(None) == 0,
        applog::stamped_second(Some(secs)) == secs,
{
}

/// A time is written to the second, rounded down, in the years 0 to 9999; and
/// not at all outside of them.
pub proof fn lemma_written_to_the_second(secs: int, nanos: int)
    requires
        0 <= nanos < 1_000_000_000,
    ensures
        ({
            let t = secs * 1_000_000_000 + nanos;
            let first = second(Date { year: 0, month: 1, day: 1 }, 0, 0, 0);
            let last = second(Date { year: 9999, month: 12, day: 31 }, 23, 59, 59);
            &&& first <= secs <= last ==> clock::written(t) == clock::rfc3339(secs)
            &&& !(first <= secs <= last) ==> clock::written(t) == Seq::<char>::empty()
            &&& clock::in_calendar(t) <==> second(
                Date { year: -9999, month: 1, day: 1 },
                0,
                0,
                0,
            ) <= secs <= last
        }),
{
    reveal_with_fuel(applog::days_to_month, 14);
    let t = secs * 1_000_000_000 + nanos;
    assert(t / 1_000_000_000 == secs);
    assert((Date { year: 0, month: 1, day: 1 }).number() == -719_528);
    assert((Date { year: 9999, month: 12, day: 31 }).number() == 2_932_896);
    assert((Date { year: -9999, month: 1, day: 1 }).number() == -4_371_587);
}

} // verus!
