//! Wall-clock moments with second precision, and the texts derived from them.
//!
//! A [`Timestamp`] is always a real calendar date with a real time of day, in
//! a year of four digits. The texts are produced by `chrono`, so that stored
//! events and image paths read the same as anything else written with it.

use crate::text::digit_char;
use vstd::prelude::*;
use vstd::string::*;

verus! {

/// The calendar fields of a moment, as mathematical integers.
pub struct Moment {
    pub year: int,
    pub month: int,
    pub day: int,
    pub hour: int,
    pub minute: int,
    pub second: int,
}

/// Whether `year` has a 29th of February in the Gregorian calendar.
pub open spec fn is_leap_year(year: int) -> bool {
    year % 4 == 0 && (year % 100 != 0 || year % 400 == 0)
}

/// The number of days of `month` in `year`.
pub open spec fn days_in_month(year: int, month: int) -> int {
    if month == 2 {
        if is_leap_year(year) {
            29
        } else {
            28
        }
    } else if month == 4 || month == 6 || month == 9 || month == 11 {
        30
    } else {
        31
    }
}

/// A date that exists, in the years 0 to 9999, with a time of day.
pub open spec fn valid_moment(m: Moment) -> bool {
    &&& 0 <= m.year <= 9999
    &&& 1 <= m.month <= 12
    &&& 1 <= m.day <= days_in_month(m.year, m.month)
    &&& 0 <= m.hour < 24
    &&& 0 <= m.minute < 60
    &&& 0 <= m.second < 60
}

/// `n` as two decimal digits.
pub open spec fn two_digits(n: int) -> Seq<char> {
    seq![digit_char(n / 10), digit_char(n % 10)]
}

/// `n` as four decimal digits.
pub open spec fn four_digits(n: int) -> Seq<char> {
    two_digits(n / 100) + two_digits(n % 100)
}

/// The day of `m` as `YYYY-MM-DD`.
pub open spec fn date_text(m: Moment) -> Seq<char> {
    four_digits(m.year) + seq!['-'] + two_digits(m.month) + seq!['-'] + two_digits(m.day)
}

/// `m` as `YYYY-MM-DDTHH:MM:SS`, the form in which events are stamped.
pub open spec fn captured_at_text(m: Moment) -> Seq<char> {
    date_text(m) + seq!['T'] + two_digits(m.hour) + seq![':'] + two_digits(m.minute) + seq![':']
        + two_digits(m.second)
}

/// The name of the image file taken at `m`: `HHMMSS.jpg`.
pub open spec fn image_file_text(m: Moment) -> Seq<char> {
    two_digits(m.hour) + two_digits(m.minute) + two_digits(m.second) + seq!['.', 'j', 'p', 'g']
}

/// A moment of local time with second precision.
#[derive(Debug, Clone, Copy)]
pub struct Timestamp {
    year: i32,
    month: u32,
    day: u32,
    hour: u32,
    minute: u32,
    second: u32,
}

impl View for Timestamp {
    type V = Moment;

    closed spec fn view(&self) -> Moment {
        Moment {
            year: self.year as int,
            month: self.month as int,
            day: self.day as int,
            hour: self.hour as int,
            minute: self.minute as int,
            second: self.second as int,
        }
    }
}

/// Renders a moment with `chrono::NaiveDateTime::format` and one of the three
/// patterns this library uses. The contract claims that chrono accepts every
/// valid moment, writes `%Y` as four digits for the years 0 to 9999, writes
/// `%m`, `%d`, `%H`, `%M` and `%S` as two digits each, and copies every other
/// character of the pattern.
#[verifier::external_body]
fn chrono_format(ts: &Timestamp, pattern: &str) -> (text: Option<String>)
    requires
        valid_moment(ts@),
        pattern@ == "%Y-%m-%dT%H:%M:%S"@ || pattern@ == "%Y-%m-%d"@ || pattern@ == "%H%M%S.jpg"@,
    ensures
        text is Some,
        pattern@ == "%Y-%m-%dT%H:%M:%S"@ ==> text->0@ == captured_at_text(ts@),
        pattern@ == "%Y-%m-%d"@ ==> text->0@ == date_text(ts@),
        pattern@ == "%H%M%S.jpg"@ ==> text->0@ == image_file_text(ts@),
{
    let date = chrono::NaiveDate::from_ymd_opt(ts.year, ts.month, ts.day)?;
    let moment = date.and_hms_opt(ts.hour, ts.minute, ts.second)?;
    Some(moment.format(pattern).to_string())
}

impl Timestamp {
    #[verifier::type_invariant]
    spec fn is_valid(self) -> bool {
        valid_moment(self@)
    }

    /// The moment with the given calendar fields, if there is such a moment.
    pub fn new(year: i32, month: u32, day: u32, hour: u32, minute: u32, second: u32) -> (ts: Option<
        Timestamp,
    >)
        ensures
            ts is Some <==> valid_moment(
                Moment {
                    year: year as int,
                    month: month as int,
                    day: day as int,
                    hour: hour as int,
                    minute: minute as int,
                    second: second as int,
                },
            ),
            ts matches Some(t) ==> t@ == (Moment {
                year: year as int,
                month: month as int,
                day: day as int,
                hour: hour as int,
                minute: minute as int,
                second: second as int,
            }),
    {
        if year < 0 || year > 9999 || month < 1 || month > 12 || day < 1 || hour > 23 || minute > 59
            || second > 59 {
            return None;
        }
        let leap = year % 4 == 0 && (year % 100 != 0 || year % 400 == 0);
        let days: u32 = if month == 2 {
            if leap {
                29
            } else {
                28
            }
        } else if month == 4 || month == 6 || month == 9 || month == 11 {
            30
        } else {
            31
        };
        if day > days {
            return None;
        }
        Some(Timestamp { year, month, day, hour, minute, second })
    }

    /// The stamp of an event captured at this moment.
    pub fn captured_at(&self) -> (text: String)
        ensures
            text@ == captured_at_text(self@),
            valid_moment(self@),
    {
        proof {
            use_type_invariant(self);
        }
        chrono_format(self, "%Y-%m-%dT%H:%M:%S").unwrap()
    }

    /// The day of this moment.
    pub fn date(&self) -> (text: String)
        ensures
            text@ == date_text(self@),
            valid_moment(self@),
    {
        proof {
            use_type_invariant(self);
        }
        chrono_format(self, "%Y-%m-%d").unwrap()
    }

    /// The name of an image file taken at this moment.
    pub fn image_file_name(&self) -> (text: String)
        ensures
            text@ == image_file_text(self@),
            valid_moment(self@),
    {
        proof {
            use_type_invariant(self);
        }
        chrono_format(self, "%H%M%S.jpg").unwrap()
    }
}

} // verus!
