//! Points in time, as nanoseconds before or after the start of 1970 (UTC),
//! and how they are written.

use crate::applog;
use crate::number;
use crate::split;
use crate::split::strip_suffix;
use crate::text;
use crate::text::{trim, Class};
use vstd::prelude::*;

verus! {

pub const SECOND: i128 = 1_000_000_000;

/// The start of the year -9999.
pub const FIRST_SECOND: i128 = -377_705_116_800;

/// The last second of the year 9999.
pub const LAST_SECOND: i128 = 253_402_300_799;

/// The start of the year 0.
pub const FIRST_WRITTEN_SECOND: i128 = -62_167_219_200;

/// The whole seconds up to `t`.
pub open spec fn whole_seconds(t: int) -> int {
    t / 1_000_000_000
}

/// `t` lies in a year that can be represented.
pub open spec fn in_calendar(t: int) -> bool {
    FIRST_SECOND <= whole_seconds(t) <= LAST_SECOND
}

/// A second of the years 0 to 9999 as RFC 3339 writes it in UTC.
pub open spec fn rfc3339(secs: int) -> Seq<char> {
    let date = applog::date_of(secs / 86_400);
    let rem = secs % 86_400;
    number::decimal_padded(date.year as nat, 4) + "-"@ + number::decimal_padded(date.month as nat, 2)
        + "-"@ + number::decimal_padded(date.day as nat, 2) + "T"@ + number::decimal_padded(
        (rem / 3600) as nat,
        2,
    ) + ":"@ + number::decimal_padded(((rem % 3600) / 60) as nat, 2) + ":"@
        + number::decimal_padded((rem % 60) as nat, 2) + "Z"@
}

/// The point in time that a text in the format of RFC 3339 writes.
pub uninterp spec fn rfc3339_time(text: Seq<char>) -> Option<i128>;

/// Trusted: `OffsetDateTime::now_utc` reads the system clock, in a year that
/// can be represented (it panics otherwise). What the clock shows is not
/// stated.
#[verifier::external_body]
pub(crate) fn now_utc() -> (r: i128)
    ensures
        in_calendar(r as int),
{
    time::OffsetDateTime::now_utc().unix_timestamp_nanos()
}

/// Trusted: `OffsetDateTime::parse` with the format `Rfc3339` reads a point
/// in time from a text or refuses it, by the text alone.
#[verifier::external_body]
fn parse_rfc3339(s: &str) -> (r: Option<i128>)
    ensures
        r == rfc3339_time(s@),
{
    let format = &time::format_description::well_known::Rfc3339;
    time::OffsetDateTime::parse(s, format).ok().map(|t| t.unix_timestamp_nanos())
}

/// Trusted: `OffsetDateTime::format` with the format `Rfc3339` writes a whole
/// second in UTC if it lies in the years 0 to 9999, and refuses any other.
/// `OffsetDateTime::parse` reads what was written back as the same time.
#[verifier::external_body]
fn format_rfc3339(secs: i64) -> (r: Option<String>)
    ensures
        r is Some <==> FIRST_WRITTEN_SECOND <= secs <= LAST_SECOND,
        r matches Some(s) ==> s@ == rfc3339(secs as int) && rfc3339_time(s@) == Some(
            (secs * SECOND) as i128,
        ),
{
    let format = &time::format_description::well_known::Rfc3339;
    time::OffsetDateTime::from_unix_timestamp(secs).ok()?.format(format).ok()
}

/// The text for the whole seconds of `t`; nothing for a year before 0.
pub open spec fn written(t: int) -> Seq<char> {
    if FIRST_WRITTEN_SECOND <= whole_seconds(t) <= LAST_SECOND {
        rfc3339(whole_seconds(t))
    } else {
        Seq::empty()
    }
}

/// The point in time that `s` writes: RFC 3339, or the same with `UTC` for
/// the zone, with white space around it.
pub open spec fn read(s: Seq<char>) -> Option<i128> {
    let s = text::trimmed(s);
    match split::without_suffix(s, "UTC"@) {
        Some(body) => rfc3339_time(body + "Z"@),
        None => rfc3339_time(s),
    }
}

/// What is written is read as it stands.
proof fn lemma_written_plain(secs: int)
    ensures
        read(rfc3339(secs)) == rfc3339_time(rfc3339(secs)),
{
    let s = rfc3339(secs);
    let year = number::decimal_padded(applog::date_of(secs / 86_400).year as nat, 4);
    number::lemma_decimal_padded(applog::date_of(secs / 86_400).year as nat, 4);
    reveal_strlit("Z");
    reveal_strlit("UTC");
    assert(s[0] == year[0]);
    assert(s.last() == 'Z');
    assert(!text::white(s[0]) && !text::white(s.last()));
    text::lemma_trimmed_of(s, Class::Space);
    if "UTC"@.is_suffix_of(s) {
        assert("UTC"@ =~= s.subrange(s.len() - 3, s.len() as int));
        assert("UTC"@[2] == s.last());
    }
}

/// `t` to the second, as RFC 3339 writes it in UTC. `parse_time` reads it back,
/// to the second.
pub fn format_time(t: i128) -> (r: String)
    requires
        in_calendar(t as int),
    ensures
        r@ == written(t as int),
        FIRST_WRITTEN_SECOND <= whole_seconds(t as int) ==> read(r@) == Some(
            (whole_seconds(t as int) * SECOND) as i128,
        ),
{
    let rem: i128 = t % SECOND;
    let secs: i128 = if rem < 0 {
        t / SECOND - 1
    } else {
        t / SECOND
    };
    proof {
        lemma_written_plain(secs as int);
    }
    match format_rfc3339(secs as i64) {
        Some(s) => s,
        None => String::new(),
    }
}

/// RFC 3339, plus the `...UTC` suffix older AWS CLI versions wrote.
pub fn parse_time(s: &str) -> (r: Option<i128>)
    ensures
        r == read(s@),
{
    let s = trim(s);
    match strip_suffix(s.as_str(), "UTC") {
        Some(body) => parse_rfc3339(body.concat("Z").as_str()),
        None => parse_rfc3339(s.as_str()),
    }
}

} // verus!
