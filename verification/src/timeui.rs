//! Times of day, as a user writes them behind a date.

use vstd::prelude::*;
use vstd::string::*;

verus! {

#[verifier::external_type_specification]
#[verifier::external_body]
pub struct ExNaiveTime(chrono::NaiveTime);

/// Calls `chrono::NaiveTime::from_hms_opt`, which gives a time exactly for
/// an hour below 24, a minute below 60 and a second below 60.
#[verifier::external_body]
fn naive_time(hour: u32, minute: u32, second: u32) -> (r: Option<chrono::NaiveTime>)
    ensures
        r.is_some() == (hour < 24 && minute < 60 && second < 60),
{
    chrono::NaiveTime::from_hms_opt(hour, minute, second)
}

/// A time of day: hour, minute and second, as written. Nothing holds them to
/// the range of a clock.
#[derive(Clone, Copy, Debug, PartialEq, Eq, Structural)]
pub struct Time {
    hour: u32,
    minute: u32,
    second: u32,
}

/// Whether `c` is one of the digits `0` to `9`.
pub open spec fn is_digit(c: char) -> bool {
    '0' <= c <= '9'
}

/// Whether `s` holds two digits at `at`.
pub open spec fn two_digits(s: Seq<char>, at: int) -> bool {
    0 <= at && at + 2 <= s.len() && is_digit(s[at]) && is_digit(s[at + 1])
}

/// The number that the two digits of `s` at `at` write.
pub open spec fn two_digit_value(s: Seq<char>, at: int) -> int {
    (s[at] as int - '0' as int) * 10 + (s[at + 1] as int - '0' as int)
}

/// Whether `s` holds a date at `at`: four digits for the year, two for the
/// month and two for the day, with `-` between them.
pub open spec fn is_date(s: Seq<char>, at: int) -> bool {
    &&& 0 <= at
    &&& at + 10 <= s.len()
    &&& two_digits(s, at)
    &&& two_digits(s, at + 2)
    &&& s[at + 4] == '-'
    &&& two_digits(s, at + 5)
    &&& s[at + 7] == '-'
    &&& two_digits(s, at + 8)
}

/// Whether `s` ends in a date, `T` and an hour.
pub open spec fn ends_in_hour(s: Seq<char>) -> bool {
    let n = s.len() as int;
    is_date(s, n - 13) && s[n - 3] == 'T' && two_digits(s, n - 2)
}

/// Whether `s` ends in a date, `T`, an hour, `:` and a minute.
pub open spec fn ends_in_minute(s: Seq<char>) -> bool {
    let n = s.len() as int;
    is_date(s, n - 16) && s[n - 6] == 'T' && two_digits(s, n - 5) && s[n - 3] == ':' && two_digits(
        s,
        n - 2,
    )
}

/// Whether `s` ends in a date, `T`, an hour, `:`, a minute, `:` and a second.
pub open spec fn ends_in_second(s: Seq<char>) -> bool {
    let n = s.len() as int;
    is_date(s, n - 19) && s[n - 9] == 'T' && two_digits(s, n - 8) && s[n - 6] == ':' && two_digits(
        s,
        n - 5,
    ) && s[n - 3] == ':' && two_digits(s, n - 2)
}

/// The time that `s` ends in: hour, minute and second, the last two 0 where
/// they are not written. `None` where `s` does not end in a date and a time.
pub open spec fn parsed_time(s: Seq<char>) -> Option<(int, int, int)> {
    let n = s.len() as int;
    if ends_in_second(s) {
        Some((two_digit_value(s, n - 8), two_digit_value(s, n - 5), two_digit_value(s, n - 2)))
    } else if ends_in_minute(s) {
        Some((two_digit_value(s, n - 5), two_digit_value(s, n - 2), 0))
    } else if ends_in_hour(s) {
        Some((two_digit_value(s, n - 2), 0, 0))
    } else {
        None
    }
}

/// A text ends in a time in one way at most.
pub proof fn lemma_one_form(s: Seq<char>)
    ensures
        !(ends_in_second(s) && ends_in_minute(s)),
        !(ends_in_second(s) && ends_in_hour(s)),
        !(ends_in_minute(s) && ends_in_hour(s)),
{
}

/// The number that the two characters of `s` at `at` write, if they are
/// digits.
fn number_at(s: &str, n: usize, at: usize) -> (r: Option<u32>)
    requires
        n == s@.len(),
        at + 2 <= n,
    ensures
        r.is_some() == two_digits(s@, at as int),
        r matches Some(v) ==> v == two_digit_value(s@, at as int),
{
    let a = s.get_char(at);
    let b = s.get_char(at + 1);
    if a >= '0' && a <= '9' && b >= '0' && b <= '9' {
        Some((a as u32 - '0' as u32) * 10 + (b as u32 - '0' as u32))
    } else {
        None
    }
}

/// Whether `s` holds a date at `at`.
fn date_at(s: &str, n: usize, at: usize) -> (r: bool)
    requires
        n == s@.len(),
        at + 10 <= n,
    ensures
        r == is_date(s@, at as int),
{
    number_at(s, n, at).is_some() && number_at(s, n, at + 2).is_some() && s.get_char(at + 4) == '-'
        && number_at(s, n, at + 5).is_some() && s.get_char(at + 7) == '-' && number_at(
        s,
        n,
        at + 8,
    ).is_some()
}

impl Time {
    /// The hour, the minute and the second of this time.
    pub closed spec fn hms(&self) -> (int, int, int) {
        (self.hour as int, self.minute as int, self.second as int)
    }

    /// The time with the given hour, minute and second.
    pub fn new(hour: u32, minute: u32, second: u32) -> (t: Time)
        ensures
            t.hms() == (hour as int, minute as int, second as int),
    {
        Time { hour, minute, second }
    }

    /// The hour.
    pub fn hour(&self) -> (h: u32)
        ensures
            h == self.hms().0,
    {
        self.hour
    }

    /// The minute.
    pub fn minute(&self) -> (m: u32)
        ensures
            m == self.hms().1,
    {
        self.minute
    }

    /// The second.
    pub fn second(&self) -> (s: u32)
        ensures
            s == self.hms().2,
    {
        self.second
    }

    /// Whether a clock can show this time.
    pub fn is_valid(&self) -> (b: bool)
        ensures
            b == (self.hms().0 < 24 && self.hms().1 < 60 && self.hms().2 < 60),
    {
        self.hour < 24 && self.minute < 60 && self.second < 60
    }

    /// This time as a time of the clock, where a clock can show it.
    pub fn into_naive_time(self) -> (r: Option<chrono::NaiveTime>)
        ensures
            r.is_some() == (self.hms().0 < 24 && self.hms().1 < 60 && self.hms().2 < 60),
    {
        naive_time(self.hour, self.minute, self.second)
    }

    /// The time that `s` ends in. The text has to end in a date, written
    /// `YYYY-MM-DD`, then `T` and the time, written `hh`, `hh:mm` or
    /// `hh:mm:ss`; what stands before the date does not matter.
    pub fn parse(s: &str) -> (r: Option<Time>)
        ensures
            r.is_some() == parsed_time(s@).is_some(),
            r matches Some(t) ==> t.hms() == parsed_time(s@).unwrap(),
    {
        let n: usize = s.unicode_len();
        if n >= 19 && date_at(s, n, n - 19) && s.get_char(n - 9) == 'T' && s.get_char(n - 6) == ':'
            && s.get_char(n - 3) == ':' {
            match (number_at(s, n, n - 8), number_at(s, n, n - 5), number_at(s, n, n - 2)) {
                (Some(h), Some(m), Some(sec)) => {
                    return Some(Time::new(h, m, sec));
                },
                _ => {},
            }
        }
        if n >= 16 && date_at(s, n, n - 16) && s.get_char(n - 6) == 'T' && s.get_char(n - 3) == ':' {
            match (number_at(s, n, n - 5), number_at(s, n, n - 2)) {
                (Some(h), Some(m)) => {
                    return Some(Time::new(h, m, 0));
                },
                _ => {},
            }
        }
        if n >= 13 && date_at(s, n, n - 13) && s.get_char(n - 3) == 'T' {
            match number_at(s, n, n - 2) {
                Some(h) => {
                    return Some(Time::new(h, 0, 0));
                },
                None => {},
            }
        }
        None
    }
}

} // verus!
