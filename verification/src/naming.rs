//! Names of stored images: a wall-clock time at second resolution, and the
//! file name `image-YYYYMMDD-HHMMSS.jpg` made from it.

use crate::path::{is_single_normal_component, is_token, lemma_plain_token_is_accepted};
use vstd::prelude::*;
use vstd::string::*;

verus! {

/// A wall-clock time at second resolution, as plain numbers.
#[derive(Clone, Copy, Debug, PartialEq, Eq, Structural)]
pub struct Timestamp {
    pub year: u16,
    pub month: u8,
    pub day: u8,
    pub hour: u8,
    pub minute: u8,
    pub second: u8,
}

/// Leap years of the Gregorian calendar.
pub open spec fn is_leap_year(year: int) -> bool {
    year % 4 == 0 && (year % 100 != 0 || year % 400 == 0)
}

/// The number of days of a month; 0 for a month that does not exist.
pub open spec fn days_in_month(year: int, month: int) -> int {
    if month == 2 {
        if is_leap_year(year) {
            29
        } else {
            28
        }
    } else if month == 4 || month == 6 || month == 9 || month == 11 {
        30
    } else if 1 <= month <= 12 {
        31
    } else {
        0
    }
}

/// The day exists in the Gregorian calendar and the time exists on a clock
/// without leap seconds.
pub open spec fn is_civil(year: int, month: int, day: int, hour: int, minute: int, second: int) -> bool {
    &&& 1 <= day <= days_in_month(year, month)
    &&& 0 <= hour < 24
    &&& 0 <= minute < 60
    &&& 0 <= second < 60
}

/// The character of a decimal digit.
pub open spec fn digit_char(d: int) -> char {
    if d == 0 {
        '0'
    } else if d == 1 {
        '1'
    } else if d == 2 {
        '2'
    } else if d == 3 {
        '3'
    } else if d == 4 {
        '4'
    } else if d == 5 {
        '5'
    } else if d == 6 {
        '6'
    } else if d == 7 {
        '7'
    } else if d == 8 {
        '8'
    } else {
        '9'
    }
}

/// `n` below 100 in two digits, with a leading zero where needed.
pub open spec fn two_digits(n: int) -> Seq<char> {
    seq![digit_char(n / 10), digit_char(n % 10)]
}

/// `n` below 10000 in four digits, with leading zeros where needed.
pub open spec fn four_digits(n: int) -> Seq<char> {
    seq![
        digit_char(n / 1000),
        digit_char((n / 100) % 10),
        digit_char((n / 10) % 10),
        digit_char(n % 10),
    ]
}

/// The text `YYYYMMDD-HHMMSS` of a time.
pub open spec fn stamp_text(
    year: int,
    month: int,
    day: int,
    hour: int,
    minute: int,
    second: int,
) -> Seq<char> {
    four_digits(year) + two_digits(month) + two_digits(day) + seq!['-'] + two_digits(hour)
        + two_digits(minute) + two_digits(second)
}

impl Timestamp {
    /// The time exists and its year has at most four digits.
    pub open spec fn is_valid(&self) -> bool {
        &&& self.year <= 9999
        &&& is_civil(
            self.year as int,
            self.month as int,
            self.day as int,
            self.hour as int,
            self.minute as int,
            self.second as int,
        )
    }

    /// The text `YYYYMMDD-HHMMSS` of this time.
    pub open spec fn text(&self) -> Seq<char> {
        stamp_text(
            self.year as int,
            self.month as int,
            self.day as int,
            self.hour as int,
            self.minute as int,
            self.second as int,
        )
    }

    /// The name of the image stored at this time.
    pub open spec fn file_name(&self) -> Seq<char> {
        "image-"@ + self.text() + ".jpg"@
    }

    /// Whether the time exists and its year has at most four digits.
    pub fn is_real(&self) -> (ok: bool)
        ensures
            ok == self.is_valid(),
    {
        let leap: bool = self.year % 4 == 0 && (self.year % 100 != 0 || self.year % 400 == 0);
        let days: u8 = if self.month == 2 {
            if leap {
                29
            } else {
                28
            }
        } else if self.month == 4 || self.month == 6 || self.month == 9 || self.month == 11 {
            30
        } else if 1 <= self.month && self.month <= 12 {
            31
        } else {
            0
        };
        self.year <= 9999 && 1 <= self.day && self.day <= days && self.hour < 24 && self.minute
            < 60 && self.second < 60
    }

    /// The time with these fields, if it exists and its year has at most
    /// four digits.
    pub fn new(year: u16, month: u8, day: u8, hour: u8, minute: u8, second: u8) -> (out: Option<
        Timestamp,
    >)
        ensures
            out is Some <==> (Timestamp { year, month, day, hour, minute, second }).is_valid(),
            out matches Some(t) ==> t == (Timestamp { year, month, day, hour, minute, second }),
    {
        let candidate = Timestamp { year, month, day, hour, minute, second };
        if candidate.is_real() {
            Some(candidate)
        } else {
            None
        }
    }
}

/// Calls chrono's `NaiveDate::from_ymd_opt`, `NaiveDate::and_hms_opt` and
/// `NaiveDateTime::format` with the pattern `%Y%m%d-%H%M%S`. Believed of
/// them: the two constructors accept exactly the days of the Gregorian
/// calendar and the times of a clock without leap seconds, and for a year of
/// at most four digits the pattern writes the year in four digits and each
/// other field in two, zero-padded, with one `-` between date and time.
#[verifier::external_body]
fn chrono_stamp(year: u16, month: u8, day: u8, hour: u8, minute: u8, second: u8) -> (out: Option<
    String,
>)
    requires
        year <= 9999,
    ensures
        out is Some <==> is_civil(
            year as int,
            month as int,
            day as int,
            hour as int,
            minute as int,
            second as int,
        ),
        out matches Some(text) ==> text@ == stamp_text(
            year as int,
            month as int,
            day as int,
            hour as int,
            minute as int,
            second as int,
        ),
{
    let date = chrono::NaiveDate::from_ymd_opt(i32::from(year), u32::from(month), u32::from(day))?;
    let moment = date.and_hms_opt(u32::from(hour), u32::from(minute), u32::from(second))?;
    Some(moment.format("%Y%m%d-%H%M%S").to_string())
}

/// The file name `image-YYYYMMDD-HHMMSS.jpg` for an image stored at `at`.
/// There is none for a time that does not exist or whose year has more than
/// four digits.
pub fn image_file_name(at: &Timestamp) -> (out: Option<String>)
    ensures
        out is Some <==> at.is_valid(),
        out matches Some(name) ==> name@ == at.file_name(),
{
    if at.year > 9999 {
        return None;
    }
    match chrono_stamp(at.year, at.month, at.day, at.hour, at.minute, at.second) {
        Some(text) => {
            let mut name = String::from_str("image-");
            name.append(text.as_str());
            name.append(".jpg");
            Some(name)
        },
        None => None,
    }
}

/// Every image file name is a single normal path component, so a name made
/// here always passes the path safety check.
pub proof fn lemma_file_name_is_safe(at: Timestamp)
    ensures
        is_single_normal_component(at.file_name()),
        at.file_name().len() == 25,
{
    reveal_strlit("image-");
    reveal_strlit(".jpg");
    let name = at.file_name();
    assert(name.len() == 25);
    assert(name[0] == 'i');
    assert(is_token(name)) by {
        assert forall|k: int| 0 <= k < name.len() implies name[k] != '/' by {
            lemma_digits_are_not_separators();
        }
    }
    lemma_plain_token_is_accepted(name);
}

proof fn lemma_digits_are_not_separators()
    ensures
        forall|d: int| #[trigger] digit_char(d) != '/',
{
}

} // verus!
