//! Dates and times as plain fields, and their text forms: the form dates
//! travel in, and the timestamp in the name of a backup directory.

use vstd::prelude::*;

use crate::models::{BACKUP_STAMP_FORMAT, DATETIME_FORMAT};
use crate::text::{dec, lemma_concat_safe, lemma_dec_safe, safe_chars};

verus! {

/// A calendar date and time of day, as chrono's `NaiveDateTime` holds it:
/// year, month, day, hour, minute, second, and nanosecond (a nanosecond of a
/// billion or more marks a leap second, after second 59).
pub struct DateTimeFields {
    year: i32,
    month: u32,
    day: u32,
    hour: u32,
    minute: u32,
    second: u32,
    nanosecond: u32,
}

/// Mathematical value of a `DateTimeFields`.
pub struct DateTimeView {
    pub year: int,
    pub month: nat,
    pub day: nat,
    pub hour: nat,
    pub minute: nat,
    pub second: nat,
    pub nanosecond: nat,
}

impl View for DateTimeFields {
    type V = DateTimeView;

    closed spec fn view(&self) -> DateTimeView {
        DateTimeView {
            year: self.year as int,
            month: self.month as nat,
            day: self.day as nat,
            hour: self.hour as nat,
            minute: self.minute as nat,
            second: self.second as nat,
            nanosecond: self.nanosecond as nat,
        }
    }
}

/// Leap years of the proleptic Gregorian calendar.
pub open spec fn is_leap_year(y: int) -> bool {
    y % 4 == 0 && (y % 100 != 0 || y % 400 == 0)
}

/// Number of days of month `m` in year `y`.
pub open spec fn days_in_month(y: int, m: nat) -> nat {
    if m == 2 {
        if is_leap_year(y) { 29 } else { 28 }
    } else if m == 4 || m == 6 || m == 9 || m == 11 {
        30
    } else {
        31
    }
}

/// A date and time chrono can represent: a year in chrono's range, an
/// existing calendar day, a time of day, and a nanosecond part that exceeds
/// a second only within a leap second.
pub open spec fn valid_date_time(d: DateTimeView) -> bool {
    &&& -262143 <= d.year <= 262142
    &&& 1 <= d.month <= 12
    &&& 1 <= d.day <= days_in_month(d.year, d.month)
    &&& d.hour < 24
    &&& d.minute < 60
    &&& d.second < 60
    &&& d.nanosecond < 2_000_000_000
    &&& d.nanosecond >= 1_000_000_000 ==> d.second == 59
}

/// `v` in decimal, padded with zeros on the left to `width` digits.
pub open spec fn pad(v: nat, width: nat) -> Seq<char> {
    if dec(v).len() < width {
        Seq::new((width - dec(v).len()) as nat, |i: int| '0') + dec(v)
    } else {
        dec(v)
    }
}

/// The year as `%Y` writes it: four digits for years 0 to 9999, otherwise
/// the sign and at least four digits.
pub open spec fn year_text(y: int) -> Seq<char> {
    if 0 <= y <= 9999 {
        pad(y as nat, 4)
    } else if y < 0 {
        "-"@ + pad((-y) as nat, 4)
    } else {
        "+"@ + pad(y as nat, 4)
    }
}

/// The second as `%S` writes it: 60 within a leap second.
pub open spec fn shown_second(d: DateTimeView) -> nat {
    d.second + d.nanosecond / 1_000_000_000
}

/// `d` written with `%Y-%m-%dT%H:%M:%S`.
pub open spec fn date_text(d: DateTimeView) -> Seq<char> {
    year_text(d.year) + "-"@ + pad(d.month, 2) + "-"@ + pad(d.day, 2) + "T"@ + pad(d.hour, 2) + ":"@
        + pad(d.minute, 2) + ":"@ + pad(shown_second(d), 2)
}

/// `d` written with `%Y%m%d_%H%M%S`.
pub open spec fn stamp_text(d: DateTimeView) -> Seq<char> {
    year_text(d.year) + pad(d.month, 2) + pad(d.day, 2) + "_"@ + pad(d.hour, 2) + pad(d.minute, 2)
        + pad(shown_second(d), 2)
}

impl DateTimeFields {
    /// Every value holds a date and time chrono can represent.
    #[verifier::type_invariant]
    pub(crate) open spec fn fields_are_valid(self) -> bool {
        valid_date_time(self@)
    }

    /// The date and time with these fields, when it exists (see
    /// `valid_date_time`).
    pub fn new(
        year: i32,
        month: u32,
        day: u32,
        hour: u32,
        minute: u32,
        second: u32,
        nanosecond: u32,
    ) -> (r: Option<DateTimeFields>)
        ensures
            match r {
                Some(d) => d@ == (DateTimeView {
                    year: year as int,
                    month: month as nat,
                    day: day as nat,
                    hour: hour as nat,
                    minute: minute as nat,
                    second: second as nat,
                    nanosecond: nanosecond as nat,
                }) && valid_date_time(d@),
                None => !valid_date_time(
                    DateTimeView {
                        year: year as int,
                        month: month as nat,
                        day: day as nat,
                        hour: hour as nat,
                        minute: minute as nat,
                        second: second as nat,
                        nanosecond: nanosecond as nat,
                    },
                ),
            },
    {
        if year < -262143 || year > 262142 || month < 1 || month > 12 || day < 1 || hour >= 24
            || minute >= 60 || second >= 60 || nanosecond >= 2_000_000_000 || (nanosecond
            >= 1_000_000_000 && second != 59) {
            return None;
        }
        let a: u32 = if year < 0 { (0 - year) as u32 } else { year as u32 };
        let leap = a % 4 == 0 && (a % 100 != 0 || a % 400 == 0);
        proof {
            let y = year as int;
            assert(y % 4 == 0 <==> (a as int) % 4 == 0) by (nonlinear_arith)
                requires a as int == y || a as int == -y;
            assert(y % 100 == 0 <==> (a as int) % 100 == 0) by (nonlinear_arith)
                requires a as int == y || a as int == -y;
            assert(y % 400 == 0 <==> (a as int) % 400 == 0) by (nonlinear_arith)
                requires a as int == y || a as int == -y;
            assert(leap == is_leap_year(y));
        }
        let last: u32 = if month == 2 {
            if leap { 29 } else { 28 }
        } else if month == 4 || month == 6 || month == 9 || month == 11 {
            30
        } else {
            31
        };
        if day > last {
            return None;
        }
        Some(DateTimeFields { year, month, day, hour, minute, second, nanosecond })
    }
}

/// Formats a date and time with chrono's `NaiveDateTime::format`, after
/// building the `NaiveDateTime` from its fields (`NaiveDate::from_ymd_opt`,
/// `and_hms_nano_opt`, which succeed on valid fields). With the library's two
/// formats, chrono writes the year as `year_text` says (`%Y`: four digits
/// for 0 to 9999, else the sign and at least four digits) and the month,
/// day, hour, minute and second (60 within a leap second) with two digits
/// each, and the literal characters as they stand. Other formats, on which
/// chrono's formatting can fail, are not admitted.
#[verifier::external_body]
pub(crate) fn format_date_time(datetime: &DateTimeFields, format: &str) -> (r: String)
    requires
        valid_date_time(datetime@),
        format@ == DATETIME_FORMAT@ || format@ == BACKUP_STAMP_FORMAT@,
    ensures
        format@ == DATETIME_FORMAT@ ==> r@ == date_text(datetime@),
        format@ == BACKUP_STAMP_FORMAT@ ==> r@ == stamp_text(datetime@),
{
    let date = chrono::NaiveDate::from_ymd_opt(datetime.year, datetime.month, datetime.day).unwrap();
    let value = date.and_hms_nano_opt(datetime.hour, datetime.minute, datetime.second, datetime.nanosecond).unwrap();
    value.format(format).to_string()
}

/// `d` written as `YYYY-MM-DDTHH:MM:SS` (see `date_text`).
pub fn date_text_of(d: &DateTimeFields) -> (r: String)
    ensures
        r@ == date_text(d@),
{
    proof {
        use_type_invariant(d);
    }
    format_date_time(d, DATETIME_FORMAT)
}

proof fn lemma_pad_safe(v: nat, width: nat)
    ensures
        safe_chars(pad(v, width)),
{
    lemma_dec_safe(v);
    if dec(v).len() < width {
        lemma_concat_safe(Seq::new((width - dec(v).len()) as nat, |i: int| '0'), dec(v));
    }
}

/// A backup timestamp holds no separator or drive colon, and is not empty.
pub proof fn lemma_stamp_text_safe(d: DateTimeView)
    ensures
        safe_chars(stamp_text(d)),
        stamp_text(d).len() > 0,
{
    reveal_strlit("-");
    reveal_strlit("+");
    reveal_strlit("_");
    lemma_pad_safe(d.month, 2);
    lemma_pad_safe(d.day, 2);
    lemma_pad_safe(d.hour, 2);
    lemma_pad_safe(d.minute, 2);
    lemma_pad_safe(shown_second(d), 2);
    let y = d.year;
    let yt = year_text(y);
    if 0 <= y <= 9999 {
        lemma_pad_safe(y as nat, 4);
    } else if y < 0 {
        lemma_pad_safe((-y) as nat, 4);
        lemma_concat_safe("-"@, pad((-y) as nat, 4));
    } else {
        lemma_pad_safe(y as nat, 4);
        lemma_concat_safe("+"@, pad(y as nat, 4));
    }
    let a = yt + pad(d.month, 2);
    lemma_concat_safe(yt, pad(d.month, 2));
    let b = a + pad(d.day, 2);
    lemma_concat_safe(a, pad(d.day, 2));
    let c = b + "_"@;
    lemma_concat_safe(b, "_"@);
    let e = c + pad(d.hour, 2);
    lemma_concat_safe(c, pad(d.hour, 2));
    let f = e + pad(d.minute, 2);
    lemma_concat_safe(e, pad(d.minute, 2));
    lemma_concat_safe(f, pad(shown_second(d), 2));
    assert(stamp_text(d) == f + pad(shown_second(d), 2));
}

} // verus!
