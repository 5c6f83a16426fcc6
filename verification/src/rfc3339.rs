//! RFC 3339 timestamps as seconds since the Unix epoch.

use vstd::prelude::*;

verus! {

/// Whether a character is a decimal digit.
pub open spec fn is_digit(c: char) -> bool {
    '0' <= c <= '9'
}

/// The value of a decimal digit.
pub open spec fn digit(c: char) -> int {
    c as int - '0' as int
}

/// The two digits at `i` as a number, where both are digits.
pub open spec fn two_digits(s: Seq<char>, i: int) -> Option<int> {
    if 0 <= i && i + 2 <= s.len() && is_digit(s[i]) && is_digit(s[i + 1]) {
        Some(10 * digit(s[i]) + digit(s[i + 1]))
    } else {
        None
    }
}

/// Whether a year has 366 days.
pub open spec fn is_leap(year: int) -> bool {
    year % 4 == 0 && (year % 100 != 0 || year % 400 == 0)
}

/// The days of a month.
pub open spec fn days_in_month(year: int, month: int) -> int {
    if month == 2 {
        if is_leap(year) {
            29
        } else {
            28
        }
    } else if month == 4 || month == 6 || month == 9 || month == 11 {
        30
    } else {
        31
    }
}

/// The days of a year before the first of a month.
pub open spec fn days_before_month(year: int, month: int) -> int
    decreases month,
{
    if month <= 1 {
        0
    } else {
        days_before_month(year, month - 1) + days_in_month(year, month - 1)
    }
}

/// The days from 1 January 1970 to 1 January of a year.
pub open spec fn days_before_year(year: int) -> int
    decreases
            if year >= 1970 {
                year - 1970
            } else {
                1970 - year
            },
{
    if year == 1970 {
        0
    } else if year > 1970 {
        days_before_year(year - 1) + year_length(year - 1)
    } else {
        days_before_year(year + 1) - year_length(year)
    }
}

/// The days of a year.
pub open spec fn year_length(year: int) -> int {
    if is_leap(year) {
        366
    } else {
        365
    }
}

/// The days from 1 January 1970 to a date, where it is a date of the
/// proleptic Gregorian calendar.
pub open spec fn days_of_date(year: int, month: int, day: int) -> Option<int> {
    if 1 <= month <= 12 && 1 <= day <= days_in_month(year, month) {
        Some(days_before_year(year) + days_before_month(year, month) + day - 1)
    } else {
        None
    }
}

/// `full-date`, at the start of a timestamp, in days.
pub open spec fn date_days(s: Seq<char>) -> Option<int> {
    match (two_digits(s, 0), two_digits(s, 2), two_digits(s, 5), two_digits(s, 8)) {
        (Some(century), Some(year), Some(month), Some(day)) => if s[4] == '-' && s[7] == '-' {
            days_of_date(100 * century + year, month, day)
        } else {
            None
        },
        _ => None,
    }
}

/// The seconds of a day before a time; a 61st second is admitted, for leap
/// seconds.
pub open spec fn time_seconds(s: Seq<char>) -> Option<int> {
    match (two_digits(s, 11), two_digits(s, 14), two_digits(s, 17)) {
        (Some(hour), Some(minute), Some(second)) => if s[13] == ':' && s[16] == ':' && hour <= 23
            && minute <= 59 && second <= 60 {
            Some(3600 * hour + 60 * minute + second)
        } else {
            None
        },
        _ => None,
    }
}

/// The end of the run of digits that starts at `i`.
pub open spec fn digits_end(s: Seq<char>, i: int) -> int
    decreases s.len() - i,
{
    if 0 <= i < s.len() && is_digit(s[i]) {
        digits_end(s, i + 1)
    } else {
        i
    }
}

/// Where `time-secfrac` ends, if it is there at all; a point without digits is
/// no fraction.
pub open spec fn fraction_end(s: Seq<char>) -> Option<int> {
    if s.len() > 19 && s[19] == '.' {
        if digits_end(s, 20) > 20 {
            Some(digits_end(s, 20))
        } else {
            None
        }
    } else {
        Some(19)
    }
}

/// `time-offset`, from `i` to the end of a timestamp, in seconds east of UTC.
pub open spec fn offset_seconds(s: Seq<char>, i: int) -> Option<int> {
    if s.len() == i + 1 && (s[i] == 'Z' || s[i] == 'z') {
        Some(0)
    } else if s.len() == i + 6 && (s[i] == '+' || s[i] == '-') && s[i + 3] == ':' {
        match (two_digits(s, i + 1), two_digits(s, i + 4)) {
            (Some(hour), Some(minute)) => if hour <= 23 && minute <= 59 {
                let east = 3600 * hour + 60 * minute;
                Some(
                    if s[i] == '+' {
                        east
                    } else {
                        -east
                    },
                )
            } else {
                None
            },
            _ => None,
        }
    } else {
        None
    }
}

/// The seconds since the epoch of an RFC 3339 `date-time`; a fraction of a
/// second is dropped.
pub open spec fn timestamp(s: Seq<char>) -> Option<int> {
    match (date_days(s), time_seconds(s), fraction_end(s)) {
        (Some(days), Some(seconds), Some(end)) => if s[10] == 'T' || s[10] == 't' {
            match offset_seconds(s, end) {
                Some(east) => Some(86400 * days + seconds - east),
                None => None,
            }
        } else {
            None
        },
        _ => None,
    }
}

/// The timestamp, where it is not before the epoch.
pub open spec fn epoch_seconds(s: Seq<char>) -> Option<u64> {
    match timestamp(s) {
        Some(t) => if t >= 0 {
            Some(t as u64)
        } else {
            None
        },
        None => None,
    }
}

/// The leap years from year 1 to `n`.
pub open spec fn leaps(n: int) -> int {
    n / 4 - n / 100 + n / 400
}

/// One more year adds one leap year exactly if it is one.
pub proof fn lemma_leaps(year: int)
    ensures
        leaps(year) - leaps(year - 1) == if is_leap(year) {
            1int
        } else {
            0
        },
{
    assert(year / 4 - (year - 1) / 4 == if year % 4 == 0 {
        1int
    } else {
        0
    });
    assert(year / 100 - (year - 1) / 100 == if year % 100 == 0 {
        1int
    } else {
        0
    });
    assert(year / 400 - (year - 1) / 400 == if year % 400 == 0 {
        1int
    } else {
        0
    });
    assert(year % 100 == 0 ==> year % 4 == 0);
    assert(year % 400 == 0 ==> year % 100 == 0);
}

/// The days before a year in closed form.
pub proof fn lemma_days_before_year(year: int)
    ensures
        days_before_year(year) == 365 * (year - 1970) + leaps(year - 1) - leaps(1969),
    decreases
            if year >= 1970 {
                year - 1970
            } else {
                1970 - year
            },
{
    if year > 1970 {
        lemma_days_before_year(year - 1);
        lemma_leaps(year - 1);
    } else if year < 1970 {
        lemma_days_before_year(year + 1);
        lemma_leaps(year);
    }
}

/// The characters of a text.
fn characters(text: &str) -> (s: Vec<char>)
    ensures
        s@ == text@,
{
    let mut s: Vec<char> = Vec::new();
    for c in it: text.chars()
        invariant
            s@ == it.seq().take(it.index()),
    {
        s.push(c);
    }
    s
}

fn two_digits_at(s: &Vec<char>, i: usize) -> (number: Option<i64>)
    ensures
        match number {
            Some(n) => two_digits(s@, i as int) == Some(n as int) && 0 <= n <= 99,
            None => two_digits(s@, i as int) is None,
        },
{
    if i < s.len() && s.len() - i >= 2 && '0' <= s[i] && s[i] <= '9' && '0' <= s[i + 1] && s[i + 1]
        <= '9' {
        Some(10 * (s[i] as i64 - '0' as i64) + (s[i + 1] as i64 - '0' as i64))
    } else {
        None
    }
}

fn leap(year: i64) -> (yes: bool)
    requires
        year >= 0,
    ensures
        yes == is_leap(year as int),
{
    year % 4 == 0 && (year % 100 != 0 || year % 400 == 0)
}

fn month_days(year: i64, month: i64) -> (days: i64)
    requires
        year >= 0,
    ensures
        days == days_in_month(year as int, month as int),
        28 <= days <= 31,
{
    if month == 2 {
        if leap(year) {
            29
        } else {
            28
        }
    } else if month == 4 || month == 6 || month == 9 || month == 11 {
        30
    } else {
        31
    }
}

/// Four centuries hold 97 leap years.
proof fn lemma_four_centuries(n: int)
    ensures
        leaps(n + 400) == leaps(n) + 97,
{
    assert((n + 400) / 4 == n / 4 + 100);
    assert((n + 400) / 100 == n / 100 + 4);
    assert((n + 400) / 400 == n / 400 + 1);
}

fn year_to_days(year: i64) -> (days: i64)
    requires
        0 <= year <= 9999,
    ensures
        days == days_before_year(year as int),
        -800_000 <= days <= 2_999_000,
{
    // Shifted by four centuries, so that no division is of a negative number.
    let shifted: i64 = year + 399;
    let fourth: i64 = shifted / 4;
    let hundredth: i64 = shifted / 100;
    let four_hundredth: i64 = shifted / 400;
    proof {
        lemma_days_before_year(year as int);
        lemma_four_centuries(year - 1);
        assert(leaps(1969) == 477);
        assert(leaps(shifted as int) == fourth - hundredth + four_hundredth);
    }
    365 * (year - 1970) + (fourth - hundredth + four_hundredth - 97) - 477
}

fn date_to_days(year: i64, month: i64, day: i64) -> (days: Option<i64>)
    requires
        0 <= year <= 9999,
        0 <= month <= 99,
        0 <= day <= 99,
    ensures
        match days {
            Some(n) => days_of_date(year as int, month as int, day as int) == Some(n as int)
                && -800_000 <= n <= 3_000_000,
            None => days_of_date(year as int, month as int, day as int) is None,
        },
{
    if month < 1 || month > 12 || day < 1 || day > month_days(year, month) {
        return None;
    }
    let mut before: i64 = 0;
    let mut m: i64 = 1;
    while m < month
        invariant
            1 <= m <= month <= 12,
            0 <= year,
            before == days_before_month(year as int, m as int),
            0 <= before <= 31 * (m - 1),
        decreases month - m,
    {
        before = before + month_days(year, m);
        m = m + 1;
    }
    Some(year_to_days(year) + before + day - 1)
}

/// Reads an RFC 3339 timestamp as whole seconds since the Unix epoch. `None`
/// for any other text, and for an instant before the epoch.
pub fn parse_rfc3339_to_epoch_secs(text: &str) -> (seconds: Option<u64>)
    ensures
        seconds == epoch_seconds(text@),
{
    let s = characters(text);
    let (date, time) = match (
        two_digits_at(&s, 0),
        two_digits_at(&s, 2),
        two_digits_at(&s, 5),
        two_digits_at(&s, 8),
        two_digits_at(&s, 11),
        two_digits_at(&s, 14),
        two_digits_at(&s, 17),
    ) {
        (
            Some(century),
            Some(year),
            Some(month),
            Some(day),
            Some(hour),
            Some(minute),
            Some(second),
        ) => {
            if s[4] != '-' || s[7] != '-' || (s[10] != 'T' && s[10] != 't') || s[13] != ':' || s[16]
                != ':' || hour > 23 || minute > 59 || second > 60 {
                return None;
            }
            match date_to_days(100 * century + year, month, day) {
                Some(days) => (days, 3600 * hour + 60 * minute + second),
                None => return None,
            }
        },
        _ => return None,
    };
    let mut end: usize = 19;
    if s.len() > 19 && s[19] == '.' {
        end = 20;
        while end < s.len() && '0' <= s[end] && s[end] <= '9'
            invariant
                20 <= end <= s@.len(),
                digits_end(s@, 20) == digits_end(s@, end as int),
            decreases s@.len() - end,
        {
            end = end + 1;
        }
        if end == 20 {
            return None;
        }
    }
    let east = if end < s.len() && s.len() - end == 1 && (s[end] == 'Z' || s[end] == 'z') {
        0
    } else if end < s.len() && s.len() - end == 6 && (s[end] == '+' || s[end] == '-') && s[end + 3]
        == ':' {
        match (two_digits_at(&s, end + 1), two_digits_at(&s, end + 4)) {
            (Some(hour), Some(minute)) => {
                if hour > 23 || minute > 59 {
                    return None;
                }
                if s[end] == '+' {
                    3600 * hour + 60 * minute
                } else {
                    -(3600 * hour + 60 * minute)
                }
            },
            _ => return None,
        }
    } else {
        return None;
    };
    let t: i64 = 86400 * date + time - east;
    if t >= 0 {
        Some(t as u64)
    } else {
        None
    }
}

} // verus!
