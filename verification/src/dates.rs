//! Calendar days in IST (UTC+05:30), as typed into `<input type=date>` fields.

use vstd::prelude::*;
use chrono::{FixedOffset, NaiveDate, TimeZone};
use crate::text::{self, chars_of, string_of, trim_chars};

verus! {

/// The unix-seconds instant at which the local time `h:m:s` of the date that
/// `chrono` reads from `date` with format `fmt` occurs, at the fixed UTC offset
/// `offset_secs`; `None` when `date` does not parse or the instant is out of
/// `chrono`'s range.
pub uninterp spec fn local_epoch(date: Seq<char>, fmt: Seq<char>, offset_secs: int, h: int, m: int, s: int) -> Option<i64>;

/// Unix seconds of 00:00:00 UTC on `chrono`'s first date, `NaiveDate::MIN`
/// (1 January of year -262143, proleptic Gregorian).
pub const FIRST_DAY_UTC_MIDNIGHT: i64 = -8334601228800;

/// `NaiveDate::parse_from_str(date, fmt)`, `.and_hms_opt(h, m, s)`, then
/// `FixedOffset::east_opt(offset_secs)`, `.from_local_datetime(..).single()` and
/// `.timestamp()`. A fixed offset maps every local time to a single instant, so
/// the result depends on the arguments alone. Compared with midnight of the same
/// date at the same offset:
/// - when both exist, the instant of `h:m:s` lies `h*3600 + m*60 + s` seconds
///   after midnight's;
/// - for an offset east of UTC or zero, a valid `h:m:s` exists whenever midnight
///   does: its UTC time falls on midnight's UTC day or the day after, which
///   exists since the local date does;
/// - `h:m:s` exists while midnight does not only on `chrono`'s first date, whose
///   previous day (where midnight's UTC time falls) does not exist; the instant
///   then follows from [`FIRST_DAY_UTC_MIDNIGHT`].
/// Which dates `parse_from_str` accepts, and the instant of midnight, are left
/// unsaid.
#[verifier::external_body]
pub(crate) fn chrono_local_epoch(date: &str, fmt: &str, offset_secs: i32, h: u32, m: u32, s: u32) -> (r: Option<i64>)
    requires
        -86400 < offset_secs < 86400,
    ensures
        r == local_epoch(date@, fmt@, offset_secs as int, h as int, m as int, s as int),
        r matches Some(t) ==> (local_epoch(date@, fmt@, offset_secs as int, 0, 0, 0) matches Some(t0)
            ==> t == t0 + h * 3600 + m * 60 + s),
        (0 <= offset_secs && h < 24 && m < 60 && s < 60 && local_epoch(date@, fmt@, offset_secs as int, 0, 0, 0) is Some)
            ==> r is Some,
        r matches Some(t) ==> (local_epoch(date@, fmt@, offset_secs as int, 0, 0, 0) is None
            ==> t == FIRST_DAY_UTC_MIDNIGHT + h * 3600 + m * 60 + s - offset_secs),
{
    let date = NaiveDate::parse_from_str(date, fmt).ok()?;
    let naive_dt = date.and_hms_opt(h, m, s)?;
    let offset = FixedOffset::east_opt(offset_secs)?;
    Some(offset.from_local_datetime(&naive_dt).single()?.timestamp())
}

/// IST is UTC+05:30.
pub const IST_OFFSET_SECS: i32 = 19800;

/// The form's date format.
pub open spec fn ymd_format() -> Seq<char> {
    seq!['%', 'Y', '-', '%', 'm', '-', '%', 'd']
}

fn ymd_format_string() -> (s: String)
    ensures
        s@ == ymd_format(),
{
    let v: Vec<char> = vec!['%', 'Y', '-', '%', 'm', '-', '%', 'd'];
    proof {
        assert(v@ == ymd_format());
    }
    string_of(v.as_slice())
}

/// The first second (00:00:00) of the IST day typed in `date_str`, or `None`
/// when it is blank or not a valid `YYYY-MM-DD` date.
pub open spec fn spec_day_start(date_str: Seq<char>) -> Option<i64> {
    let t = text::trim(date_str);
    if t.len() == 0 {
        None
    } else {
        local_epoch(t, ymd_format(), IST_OFFSET_SECS as int, 0, 0, 0)
    }
}

/// The last second (23:59:59) of that IST day.
pub open spec fn spec_day_end(date_str: Seq<char>) -> Option<i64> {
    let t = text::trim(date_str);
    if t.len() == 0 {
        None
    } else {
        local_epoch(t, ymd_format(), IST_OFFSET_SECS as int, 23, 59, 59)
    }
}

/// Unix seconds of the start (00:00:00) of the IST calendar day `date_str`.
pub fn ist_date_start_secs(date_str: &str) -> (r: Option<i64>)
    ensures
        r == spec_day_start(date_str@),
{
    let v = chars_of(date_str);
    let t = trim_chars(v.as_slice());
    if t.len() == 0 {
        return None;
    }
    let ts = string_of(t.as_slice());
    let fmt = ymd_format_string();
    chrono_local_epoch(ts.as_str(), fmt.as_str(), IST_OFFSET_SECS, 0, 0, 0)
}

/// Unix seconds of the last second (23:59:59) of the IST calendar day `date_str`,
/// the inclusive upper bound of a date-range filter. It exists exactly when the
/// day's start does, 86399 seconds after it, except on `chrono`'s first date,
/// whose start lies before the first representable instant.
pub fn ist_date_end_secs(date_str: &str) -> (r: Option<i64>)
    ensures
        r == spec_day_end(date_str@),
        spec_day_start(date_str@) matches Some(a) ==> (r matches Some(e) && e == a + 86399),
        r matches Some(e) ==> (spec_day_start(date_str@) is None ==> e == FIRST_DAY_UTC_MIDNIGHT + 86399
            - IST_OFFSET_SECS),
{
    let v = chars_of(date_str);
    let t = trim_chars(v.as_slice());
    if t.len() == 0 {
        return None;
    }
    let ts = string_of(t.as_slice());
    let fmt = ymd_format_string();
    chrono_local_epoch(ts.as_str(), fmt.as_str(), IST_OFFSET_SECS, 23, 59, 59)
}

} // verus!
