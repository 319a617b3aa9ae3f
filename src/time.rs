//! Event timestamps as plain values: an instant and the offset it was stated in.

use chrono::TimeZone;
use vstd::prelude::*;

verus! {

/// A timestamp as the source states it: milliseconds since the Unix epoch
/// (UTC) and the offset east of UTC, in seconds, that it was written in.
#[derive(Clone, Copy, Debug, PartialEq, Eq, Structural)]
pub struct EventTime {
    pub instant_ms: i64,
    pub offset_secs: i32,
}

pub const MS_PER_HOUR: i64 = 3_600_000;

/// Format of the listing page's timestamps, e.g. `2019-07-20T19:00:00.000-0500`.
pub const LISTING_FORMAT: &'static str = "%Y-%m-%dT%H:%M:%S%.3f%z";

pub uninterp spec fn parsed_with_format(s: Seq<char>, fmt: Seq<char>) -> Option<EventTime>;

pub uninterp spec fn parsed_rfc3339(s: Seq<char>) -> Option<EventTime>;

pub uninterp spec fn rfc3339_text(t: EventTime) -> Option<Seq<char>>;

/// Relies on `chrono::DateTime::parse_from_str`: a fixed-offset timestamp read
/// with a strftime-style format, or `None` where the text does not fit it.
#[verifier::external_body]
pub(crate) fn parse_with_format(s: &str, fmt: &str) -> (r: Option<EventTime>)
    ensures
        r == parsed_with_format(s@, fmt@),
{
    chrono::DateTime::parse_from_str(s, fmt).ok().map(
        |t| EventTime { instant_ms: t.timestamp_millis(), offset_secs: t.offset().local_minus_utc() },
    )
}

/// Relies on `chrono::DateTime::parse_from_rfc3339`: a fixed-offset timestamp
/// read from RFC 3339 text, or `None`.
#[verifier::external_body]
pub(crate) fn parse_rfc3339(s: &str) -> (r: Option<EventTime>)
    ensures
        r == parsed_rfc3339(s@),
{
    chrono::DateTime::parse_from_rfc3339(s).ok().map(
        |t| EventTime { instant_ms: t.timestamp_millis(), offset_secs: t.offset().local_minus_utc() },
    )
}

/// Relies on `chrono::DateTime::to_rfc3339`, on the instant placed in its
/// offset by `FixedOffset::east_opt` and `TimeZone::timestamp_millis_opt`;
/// `None` where chrono cannot represent the offset or the instant.
#[verifier::external_body]
pub(crate) fn format_rfc3339(t: EventTime) -> (r: Option<String>)
    ensures
        match r {
            Some(s) => rfc3339_text(t) == Some(s@),
            None => rfc3339_text(t) is None,
        },
{
    chrono::FixedOffset::east_opt(t.offset_secs)
        .and_then(|z| z.timestamp_millis_opt(t.instant_ms).single())
        .map(|d| d.to_rfc3339())
}

pub open spec fn digit(d: int) -> char {
    seq!['0', '1', '2', '3', '4', '5', '6', '7', '8', '9'][d]
}

pub open spec fn two_digits(n: int) -> Seq<char> {
    seq![digit(n / 10), digit(n % 10)]
}

/// `YYYY-MM-DD`, each field padded with zeros.
pub open spec fn date_text(year: int, month: int, day: int) -> Seq<char> {
    two_digits(year / 100) + two_digits(year % 100) + seq!['-'] + two_digits(month) + seq!['-']
        + two_digits(day)
}

fn digit_text(d: u32) -> (r: &'static str)
    requires
        d < 10,
    ensures
        r@ == seq![digit(d as int)],
{
    if d == 0 {
        proof { reveal_strlit("0"); }
        "0"
    } else if d == 1 {
        proof { reveal_strlit("1"); }
        "1"
    } else if d == 2 {
        proof { reveal_strlit("2"); }
        "2"
    } else if d == 3 {
        proof { reveal_strlit("3"); }
        "3"
    } else if d == 4 {
        proof { reveal_strlit("4"); }
        "4"
    } else if d == 5 {
        proof { reveal_strlit("5"); }
        "5"
    } else if d == 6 {
        proof { reveal_strlit("6"); }
        "6"
    } else if d == 7 {
        proof { reveal_strlit("7"); }
        "7"
    } else if d == 8 {
        proof { reveal_strlit("8"); }
        "8"
    } else {
        proof { reveal_strlit("9"); }
        "9"
    }
}

fn append_two_digits(s: &mut String, n: u32)
    requires
        n < 100,
    ensures
        final(s)@ == old(s)@ + two_digits(n as int),
{
    s.append(digit_text(n / 10));
    s.append(digit_text(n % 10));
    proof { assert(final(s)@ =~= old(s)@ + two_digits(n as int)); }
}

/// The date as the listing site's query parameters write it.
pub fn query_date(year: u32, month: u32, day: u32) -> (r: String)
    requires
        year < 10000,
        month < 100,
        day < 100,
    ensures
        r@ == date_text(year as int, month as int, day as int),
{
    let mut s = String::new();
    append_two_digits(&mut s, year / 100);
    append_two_digits(&mut s, year % 100);
    proof { reveal_strlit("-"); }
    s.append("-");
    append_two_digits(&mut s, month);
    s.append("-");
    append_two_digits(&mut s, day);
    proof { assert(s@ =~= date_text(year as int, month as int, day as int)); }
    s
}

} // verus!
