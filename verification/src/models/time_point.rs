//! A point in the day, with its `HH:MM` text form.

use crate::text::chars_of;
use vstd::prelude::*;

verus! {

/// Minutes in one day.
pub const MINUTES_PER_DAY: u32 = 1440;

/// Why a text or a number is not a point in the day.
#[derive(Debug, Clone, Copy, PartialEq, Eq, Structural)]
pub enum FormatError {
    /// The text is not exactly five characters long.
    WrongLength,
    /// A digit is missing where one belongs, or the colon is.
    Malformed,
    /// The hour is above 23, the minute above 59, or the minute count beyond the day.
    OutOfRange,
}

/// An hour and a minute of the day.
#[derive(Debug, Clone, Copy, PartialEq, Eq, Structural)]
pub struct TimePoint {
    pub hour: u8,
    pub minute: u8,
}

/// Whether `c` is one of the ten decimal digits.
pub open spec fn is_digit(c: char) -> bool {
    '0' <= c && c <= '9'
}

/// The number that the digit `c` stands for.
pub open spec fn digit_value(c: char) -> int {
    c as int - '0' as int
}

/// The digit that stands for `d`, for `d` below ten.
pub open spec fn digit_char(d: int) -> char {
    (d + '0' as int) as char
}

/// The number that two digits stand for, tens first.
pub open spec fn two_digit_value(tens: char, ones: char) -> int {
    digit_value(tens) * 10 + digit_value(ones)
}

/// What a text parses to: the five characters must be two digits, a colon and
/// two digits, and the numbers must be an hour and a minute.
pub open spec fn parse_time(text: Seq<char>) -> Result<TimePoint, FormatError> {
    if text.len() != 5 {
        Err(FormatError::WrongLength)
    } else if !(is_digit(text[0]) && is_digit(text[1]) && text[2] == ':' && is_digit(text[3])
        && is_digit(text[4])) {
        Err(FormatError::Malformed)
    } else if two_digit_value(text[0], text[1]) >= 24 || two_digit_value(text[3], text[4]) >= 60 {
        Err(FormatError::OutOfRange)
    } else {
        Ok(
            TimePoint {
                hour: two_digit_value(text[0], text[1]) as u8,
                minute: two_digit_value(text[3], text[4]) as u8,
            },
        )
    }
}

/// The time that many minutes after midnight, for a count within the day.
pub open spec fn time_at(minutes: int) -> TimePoint {
    TimePoint { hour: (minutes / 60) as u8, minute: (minutes % 60) as u8 }
}

impl TimePoint {
    /// The hour is below 24 and the minute below 60.
    pub open spec fn is_valid(self) -> bool {
        self.hour < 24 && self.minute < 60
    }

    /// Minutes since midnight.
    pub open spec fn minutes(self) -> int {
        self.hour * 60 + self.minute
    }

    /// The zero-padded `HH:MM` form.
    pub open spec fn text(self) -> Seq<char> {
        seq![
            digit_char(self.hour as int / 10),
            digit_char(self.hour as int % 10),
            ':',
            digit_char(self.minute as int / 10),
            digit_char(self.minute as int % 10),
        ]
    }

    /// The time with the given hour and minute, if there is one.
    pub fn new(hour: u8, minute: u8) -> (r: Result<TimePoint, FormatError>)
        ensures
            hour < 24 && minute < 60 ==> r == Ok::<TimePoint, FormatError>(TimePoint { hour, minute }),
            !(hour < 24 && minute < 60) ==> r == Err::<TimePoint, FormatError>(
                FormatError::OutOfRange,
            ),
    {
        if hour < 24 && minute < 60 {
            Ok(TimePoint { hour, minute })
        } else {
            Err(FormatError::OutOfRange)
        }
    }

    /// The time that many minutes after midnight, if the day has that many.
    pub fn from_minutes_since_midnight(minutes: u32) -> (r: Result<TimePoint, FormatError>)
        ensures
            minutes < MINUTES_PER_DAY ==> r == Ok::<TimePoint, FormatError>(time_at(minutes as int)),
            minutes >= MINUTES_PER_DAY ==> r == Err::<TimePoint, FormatError>(
                FormatError::OutOfRange,
            ),
    {
        if minutes < MINUTES_PER_DAY {
            Ok(TimePoint { hour: (minutes / 60) as u8, minute: (minutes % 60) as u8 })
        } else {
            Err(FormatError::OutOfRange)
        }
    }

    /// Minutes since midnight.
    pub fn to_minutes_since_midnight(&self) -> (r: u32)
        ensures
            r == self.minutes(),
    {
        self.hour as u32 * 60 + self.minute as u32
    }

    /// Reads a time from its `HH:MM` form.
    pub fn parse(text: &str) -> (r: Result<TimePoint, FormatError>)
        ensures
            r == parse_time(text@),
    {
        let chars = chars_of(text);
        if chars.len() != 5 {
            return Err(FormatError::WrongLength);
        }
        let c0 = chars[0];
        let c1 = chars[1];
        let c2 = chars[2];
        let c3 = chars[3];
        let c4 = chars[4];
        if !(is_digit_char(c0) && is_digit_char(c1) && c2 == ':' && is_digit_char(c3)
            && is_digit_char(c4)) {
            return Err(FormatError::Malformed);
        }
        let hour: u8 = digit_of(c0) * 10 + digit_of(c1);
        let minute: u8 = digit_of(c3) * 10 + digit_of(c4);
        if hour >= 24 || minute >= 60 {
            return Err(FormatError::OutOfRange);
        }
        Ok(TimePoint { hour, minute })
    }

    /// Writes the time in its `HH:MM` form.
    pub fn to_string(&self) -> (r: String)
        requires
            self.is_valid(),
        ensures
            r@ == self.text(),
    {
        let mut out = String::new();
        out.push(char_of_digit(self.hour / 10));
        out.push(char_of_digit(self.hour % 10));
        out.push(':');
        out.push(char_of_digit(self.minute / 10));
        out.push(char_of_digit(self.minute % 10));
        assert(out@ =~= self.text());
        out
    }
}

/// Tells whether `c` is a decimal digit.
pub fn is_digit_char(c: char) -> (r: bool)
    ensures
        r == is_digit(c),
{
    '0' <= c && c <= '9'
}

/// The number that a digit stands for.
pub fn digit_of(c: char) -> (r: u8)
    requires
        is_digit(c),
    ensures
        r == digit_value(c),
        r < 10,
{
    (c as u8) - 48u8
}

/// The digit that stands for a number below ten.
pub fn char_of_digit(d: u8) -> (r: char)
    requires
        d < 10,
    ensures
        r == digit_char(d as int),
        is_digit(r),
        digit_value(r) == d,
{
    (d + 48u8) as char
}

/// A time's text form parses back to the time.
pub proof fn lemma_text_parses_back(t: TimePoint)
    requires
        t.is_valid(),
    ensures
        parse_time(t.text()) == Ok::<TimePoint, FormatError>(t),
{
    let s = t.text();
    assert(s.len() == 5);
    assert(is_digit(s[0]) && is_digit(s[1]) && s[2] == ':' && is_digit(s[3]) && is_digit(s[4]));
    assert(two_digit_value(s[0], s[1]) == t.hour);
    assert(two_digit_value(s[3], s[4]) == t.minute);
}

} // verus!
