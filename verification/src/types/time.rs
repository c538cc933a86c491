//! Points in time: UTCTime and GeneralizedTime.

use crate::parser::{Encoding, Tag, Token, TokenView};
use crate::text::two_digits;
use crate::types::TokenType;
use crate::Error;
use chrono::{MappedLocalTime, TimeZone, Utc};
use vstd::prelude::*;

verus! {

/// The length of a UTCTime: `YYMMDDHHMMSS` and `Z`.
pub const UTCTIME_LENGTH: usize = 13;

/// The length of a GeneralizedTime: `YYYYMMDDHHMMSS` and `Z`.
pub const GENERALIZEDTIME_LENGTH: usize = 15;

/// A point in time in UTC, to the second.
#[derive(Debug, Clone, Copy)]
pub struct Time {
    year: i32,
    month: u32,
    day: u32,
    hour: u32,
    minute: u32,
    second: u32,
}

/// A point in time as a plain value.
pub struct TimeView {
    pub year: int,
    pub month: int,
    pub day: int,
    pub hour: int,
    pub minute: int,
    pub second: int,
}

/// Whether `year` has a 29th of February in the Gregorian calendar.
pub open spec fn is_leap_year(year: int) -> bool {
    year % 4 == 0 && (year % 100 != 0 || year % 400 == 0)
}

/// The number of days of `month` in `year`.
pub open spec fn days_in_month(year: int, month: int) -> int {
    if month == 2 {
        if is_leap_year(year) {
            29
        } else {
            28
        }
    } else if month == 4 || month == 6 || month == 9 || month == 11 {
        30
    } else {
        31
    }
}

impl TimeView {
    /// Whether the fields name a day of the Gregorian calendar in a year
    /// of four digits, and a second of that day.
    pub open spec fn is_valid(self) -> bool {
        &&& 0 <= self.year <= 9999
        &&& 1 <= self.month <= 12
        &&& 1 <= self.day <= days_in_month(self.year, self.month)
        &&& 0 <= self.hour < 24
        &&& 0 <= self.minute < 60
        &&& 0 <= self.second < 60
    }
}

/// A point in time as `YYYY-MM-DDTHH:MM:SS+00:00`.
pub open spec fn rfc3339_text(t: TimeView) -> Seq<char> {
    two_digits(t.year / 100) + two_digits(t.year) + seq!['-'] + two_digits(t.month) + seq!['-']
        + two_digits(t.day) + seq!['T'] + two_digits(t.hour) + seq![':'] + two_digits(t.minute)
        + seq![':'] + two_digits(t.second) + seq!['+', '0', '0', ':', '0', '0']
}

/// The number that the `count` bytes of `body` from `start` on spell in
/// decimal digits, if all of them are digits.
pub open spec fn number_at(body: Seq<u8>, start: int, count: nat) -> Option<int>
    decreases count,
{
    if count == 0 {
        Some(0)
    } else {
        let last = body[start + count - 1];
        match number_at(body, start, (count - 1) as nat) {
            Some(n) => if 0x30 <= last <= 0x39 {
                Some(n * 10 + (last - 0x30))
            } else {
                None
            },
            None => None,
        }
    }
}

/// What the ten digits of month, day, hour, minute and second at `at` and
/// the `Z` behind them give together with `year`.
pub open spec fn clock_at(body: Seq<u8>, at: int, year: int) -> Result<TimeView, Error> {
    match (
        number_at(body, at, 2),
        number_at(body, at + 2, 2),
        number_at(body, at + 4, 2),
        number_at(body, at + 6, 2),
        number_at(body, at + 8, 2),
    ) {
        (Some(month), Some(day), Some(hour), Some(minute), Some(second)) => {
            let t = TimeView { year, month, day, hour, minute, second };
            if body[at + 10] == 0x5a && t.is_valid() {
                Ok(t)
            } else {
                Err(Error::MalformedToken)
            }
        },
        _ => Err(Error::MalformedToken),
    }
}

/// The year that the two digits of a UTCTime stand for: from 1950 to 2049.
pub open spec fn utc_year(two_digits: int) -> int {
    if two_digits > 49 {
        1900 + two_digits
    } else {
        2000 + two_digits
    }
}

/// What decoding `token` as a point in time gives.
pub open spec fn decode_time(token: TokenView) -> Result<TimeView, Error> {
    if token.enc != Encoding::Primitive {
        Err(Error::MalformedToken)
    } else if token.tag == Tag::UtcTime && token.body.len() == UTCTIME_LENGTH {
        match number_at(token.body, 0, 2) {
            Some(year) => clock_at(token.body, 2, utc_year(year)),
            None => Err(Error::MalformedToken),
        }
    } else if token.tag == Tag::GeneralizedTime && token.body.len() == GENERALIZEDTIME_LENGTH {
        match number_at(token.body, 0, 4) {
            Some(year) => clock_at(token.body, 4, year),
            None => Err(Error::MalformedToken),
        }
    } else {
        Err(Error::MalformedToken)
    }
}

/// `chrono::TimeZone::with_ymd_and_hms` on `chrono::Utc`: for a year from
/// 0 to 9999 it gives a single point in time exactly where month and day
/// name a day of that year in the Gregorian calendar, the hour is below 24,
/// and minute and second are below 60.
#[verifier::external_body]
fn utc_exists(year: i32, month: u32, day: u32, hour: u32, minute: u32, second: u32) -> (exists:
    bool)
    requires
        0 <= year <= 9999,
    ensures
        exists == (TimeView {
            year: year as int,
            month: month as int,
            day: day as int,
            hour: hour as int,
            minute: minute as int,
            second: second as int,
        }).is_valid(),
{
    matches!(
        Utc.with_ymd_and_hms(year, month, day, hour, minute, second),
        MappedLocalTime::Single(_)
    )
}

/// `chrono::DateTime::to_rfc3339` on the point in time that
/// `chrono::Utc.with_ymd_and_hms` gives for the fields: the date, `T`, the
/// time of day and the offset `+00:00`, each number in two digits and the
/// year in four.
#[verifier::external_body]
fn utc_rfc3339(year: i32, month: u32, day: u32, hour: u32, minute: u32, second: u32) -> (text:
    std::string::String)
    requires
        (TimeView {
            year: year as int,
            month: month as int,
            day: day as int,
            hour: hour as int,
            minute: minute as int,
            second: second as int,
        }).is_valid(),
    ensures
        text@ == rfc3339_text(
            TimeView {
                year: year as int,
                month: month as int,
                day: day as int,
                hour: hour as int,
                minute: minute as int,
                second: second as int,
            },
        ),
{
    Utc.with_ymd_and_hms(year, month, day, hour, minute, second).unwrap().to_rfc3339()
}

/// Reads `count` decimal digits of `body` from `start` on.
fn digits(body: &[u8], start: usize, count: usize) -> (number: Option<u32>)
    requires
        start + count <= body.len(),
        count <= 4,
    ensures
        match number {
            Some(n) => number_at(body@, start as int, count as nat) == Some(n as int) && n <= 9999
                && (count <= 2 ==> n <= 99),
            None => number_at(body@, start as int, count as nat) is None,
        },
{
    let mut number: u32 = 0;
    let mut i: usize = 0;
    while i < count
        invariant
            i <= count <= 4,
            start + count <= body.len(),
            number_at(body@, start as int, i as nat) == Some(number as int),
            i == 0 ==> number == 0,
            i == 1 ==> number <= 9,
            i == 2 ==> number <= 99,
            i == 3 ==> number <= 999,
            i == 4 ==> number <= 9999,
        decreases count - i,
    {
        let byte = body[start + i];
        if byte < 0x30 || byte > 0x39 {
            proof {
                lemma_number_at_stays_none(body@, start as int, (i + 1) as nat, count as nat);
            }
            return None;
        }
        number = number * 10 + (byte - 0x30) as u32;
        i += 1;
    }
    Some(number)
}

/// Where the first digits are no number, no longer run of digits is.
pub proof fn lemma_number_at_stays_none(body: Seq<u8>, start: int, short: nat, long: nat)
    requires
        short <= long,
        number_at(body, start, short) is None,
    ensures
        number_at(body, start, long) is None,
    decreases long,
{
    if short < long {
        lemma_number_at_stays_none(body, start, short, (long - 1) as nat);
    }
}

/// Reads month, day, hour, minute and second at `at` and the `Z` behind
/// them.
fn clock(body: &[u8], at: usize, year: u32) -> (time: Result<Time, Error>)
    requires
        at + 11 <= body.len(),
        year <= 9999,
    ensures
        match time {
            Ok(t) => clock_at(body@, at as int, year as int) == Ok::<TimeView, Error>(t@),
            Err(e) => clock_at(body@, at as int, year as int) == Err::<TimeView, Error>(e),
        },
{
    let month = match digits(body, at, 2) {
        Some(n) => n,
        None => return Err(Error::MalformedToken),
    };
    let day = match digits(body, at + 2, 2) {
        Some(n) => n,
        None => return Err(Error::MalformedToken),
    };
    let hour = match digits(body, at + 4, 2) {
        Some(n) => n,
        None => return Err(Error::MalformedToken),
    };
    let minute = match digits(body, at + 6, 2) {
        Some(n) => n,
        None => return Err(Error::MalformedToken),
    };
    let second = match digits(body, at + 8, 2) {
        Some(n) => n,
        None => return Err(Error::MalformedToken),
    };
    // Only UTC is written, so the time ends in Z.
    if body[at + 10] != 0x5a {
        return Err(Error::MalformedToken);
    }
    if !utc_exists(year as i32, month, day, hour, minute, second) {
        return Err(Error::MalformedToken);
    }
    Ok(Time { year: year as i32, month, day, hour, minute, second })
}

impl View for Time {
    type V = TimeView;

    closed spec fn view(&self) -> TimeView {
        TimeView {
            year: self.year as int,
            month: self.month as int,
            day: self.day as int,
            hour: self.hour as int,
            minute: self.minute as int,
            second: self.second as int,
        }
    }
}

impl Time {
    /// Every point in time is a day of the calendar and a second of it.
    #[verifier::type_invariant]
    pub open spec fn inv(&self) -> bool {
        self@.is_valid()
    }

    /// The time as `YYYY-MM-DDTHH:MM:SS+00:00`.
    pub fn to_rfc3339(&self) -> (text: std::string::String)
        ensures
            text@ == rfc3339_text(self@),
    {
        proof {
            use_type_invariant(self);
        }
        utc_rfc3339(self.year, self.month, self.day, self.hour, self.minute, self.second)
    }

    /// The year, from 0 to 9999.
    pub fn year(&self) -> (year: i32)
        ensures
            year == self@.year,
    {
        self.year
    }

    /// The month, from 1 to 12.
    pub fn month(&self) -> (month: u32)
        ensures
            month == self@.month,
    {
        self.month
    }

    /// The day of the month, from 1.
    pub fn day(&self) -> (day: u32)
        ensures
            day == self@.day,
    {
        self.day
    }

    /// The hour, from 0 to 23.
    pub fn hour(&self) -> (hour: u32)
        ensures
            hour == self@.hour,
    {
        self.hour
    }

    /// The minute, from 0 to 59.
    pub fn minute(&self) -> (minute: u32)
        ensures
            minute == self@.minute,
    {
        self.minute
    }

    /// The second, from 0 to 59.
    pub fn second(&self) -> (second: u32)
        ensures
            second == self@.second,
    {
        self.second
    }
}

impl<'a> TokenType<'a> for Time {
    /// A UTCTime is `YYMMDDHHMMSSZ`, with the years from 50 on in the
    /// twentieth century and the others in the twenty-first.  A
    /// GeneralizedTime is `YYYYMMDDHHMMSSZ`.  Either must name a second that
    /// exists.
    open spec fn decode(token: TokenView) -> Result<TimeView, Error> {
        decode_time(token)
    }

    open spec fn matches_tag(tag: Tag) -> bool {
        tag == Tag::UtcTime || tag == Tag::GeneralizedTime
    }

    open spec fn expected_encoding() -> Encoding {
        Encoding::Primitive
    }

    fn matches(tag: Tag) -> (matches: bool) {
        match tag {
            Tag::UtcTime | Tag::GeneralizedTime => true,
            _ => false,
        }
    }

    fn encoding() -> (encoding: Encoding) {
        Encoding::Primitive
    }

    fn from_token(token: &Token<'a>) -> (value: Result<Time, Error>) {
        if token.enc != Encoding::Primitive {
            return Err(Error::MalformedToken);
        }
        if token.tag == Tag::UtcTime {
            if token.body.len() != UTCTIME_LENGTH {
                return Err(Error::MalformedToken);
            }
            let year = match digits(token.body, 0, 2) {
                Some(n) => n,
                None => return Err(Error::MalformedToken),
            };
            // The years run from 1950 to 2049: 99 is 1999 and 00 is 2000.
            let year = year + if year > 49 {
                1900
            } else {
                2000
            };
            clock(token.body, 2, year)
        } else if token.tag == Tag::GeneralizedTime {
            if token.body.len() != GENERALIZEDTIME_LENGTH {
                return Err(Error::MalformedToken);
            }
            let year = match digits(token.body, 0, 4) {
                Some(n) => n,
                None => return Err(Error::MalformedToken),
            };
            clock(token.body, 4, year)
        } else {
            Err(Error::MalformedToken)
        }
    }
}

} // verus!
