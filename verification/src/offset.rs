//! Shifting a file's timestamps by a time offset.

use vstd::prelude::*;

use crate::models::{opt_view, DATETIME_FORMAT};

verus! {

/// The UTC Unix timestamp of the naive date-time that chrono's
/// `NaiveDateTime::parse_from_str` reads from `text` with `format`, if it
/// reads one.
pub uninterp spec fn chrono_naive_timestamp(text: Seq<char>, format: Seq<char>) -> Option<int>;

/// Parses `text` with chrono's `NaiveDateTime::parse_from_str` and returns the
/// Unix timestamp of the result read as UTC (`and_utc().timestamp()`). The
/// contract only names the result; chrono's format grammar is not restated.
#[verifier::external_body]
pub(crate) fn parse_naive_timestamp(text: &str, format: &str) -> (r: Option<i64>)
    ensures
        match r {
            Some(t) => chrono_naive_timestamp(text@, format@) == Some(t as int),
            None => chrono_naive_timestamp(text@, format@) is None,
        },
{
    match chrono::NaiveDateTime::parse_from_str(text, format) {
        Ok(dt) => Some(dt.and_utc().timestamp()),
        Err(_) => None,
    }
}

/// A request to set a file's access and modification times, and its EXIF
/// dates when exiftool is available, to the given Unix time.
pub struct OffsetAction {
    pub path: String,
    pub timestamp: i64,
    pub write_exif: bool,
}

/// A parsed time moved by `offset` seconds, when the result is a valid
/// 64-bit timestamp.
pub open spec fn shifted(parsed: Option<int>, offset: int) -> Option<int> {
    match parsed {
        Some(t) => if i64::MIN <= t + offset <= i64::MAX {
            Some(t + offset)
        } else {
            None
        },
        None => None,
    }
}

/// The new timestamp of a file whose recorded date is `datetime`: none when
/// the offset is zero, the date is unknown or does not parse.
pub open spec fn offset_target(datetime: Option<Seq<char>>, offset: int) -> Option<int> {
    if offset == 0 {
        None
    } else {
        match datetime {
            Some(d) => shifted(chrono_naive_timestamp(d, DATETIME_FORMAT@), offset),
            None => None,
        }
    }
}

/// Moves a parsed timestamp by `offset` seconds.
pub fn offset_timestamp(parsed: Option<i64>, offset: i64) -> (r: Option<i64>)
    ensures
        match r {
            Some(t) => shifted(match parsed { Some(p) => Some(p as int), None => None }, offset as int) == Some(t as int),
            None => shifted(match parsed { Some(p) => Some(p as int), None => None }, offset as int) is None,
        },
{
    match parsed {
        Some(p) => p.checked_add(offset),
        None => None,
    }
}

/// What applying a time offset to the file at `path` amounts to: nothing
/// when the offset is zero or the date is missing or unreadable, otherwise
/// setting its times to the shifted date (and its EXIF dates when
/// `has_exiftool`).
pub fn timestamp_offset_action(
    path: &str,
    datetime: &Option<String>,
    offset_seconds: i64,
    has_exiftool: bool,
) -> (r: Option<OffsetAction>)
    ensures
        match r {
            Some(a) => offset_target(opt_view(*datetime), offset_seconds as int) == Some(a.timestamp as int)
                && a.path@ == path@ && a.write_exif == has_exiftool,
            None => offset_target(opt_view(*datetime), offset_seconds as int) is None,
        },
{
    if offset_seconds == 0 {
        return None;
    }
    let text = match datetime {
        Some(d) => d.as_str(),
        None => { return None; },
    };
    let parsed = parse_naive_timestamp(text, DATETIME_FORMAT);
    match offset_timestamp(parsed, offset_seconds) {
        Some(t) => Some(OffsetAction { path: String::from_str(path), timestamp: t, write_exif: has_exiftool }),
        None => None,
    }
}

/// Law: a time offset moves a readable date by exactly the offset, in
/// seconds, and a zero offset, a missing date or an unreadable one leads to
/// no change at all.
pub proof fn law_offset_shifts_by_the_offset(datetime: Option<Seq<char>>, offset: int)
    ensures
        offset_target(datetime, offset) is Some ==> ({
            &&& offset != 0
            &&& datetime is Some
            &&& chrono_naive_timestamp(datetime->0, DATETIME_FORMAT@) is Some
            &&& offset_target(datetime, offset)->0 == chrono_naive_timestamp(datetime->0, DATETIME_FORMAT@)->0 + offset
        }),
        offset == 0 ==> offset_target(datetime, offset) is None,
        datetime is None ==> offset_target(datetime, offset) is None,
        ({
            &&& offset != 0
            &&& datetime is Some
            &&& chrono_naive_timestamp(datetime->0, DATETIME_FORMAT@) is Some
            &&& i64::MIN <= chrono_naive_timestamp(datetime->0, DATETIME_FORMAT@)->0 + offset <= i64::MAX
        }) ==> offset_target(datetime, offset) == Some(
            chrono_naive_timestamp(datetime->0, DATETIME_FORMAT@)->0 + offset,
        ),
{
}

} // verus!
