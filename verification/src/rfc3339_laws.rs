//! What holds of every timestamp.
//!
//! The laws take a timestamp apart: a date is a day of the Gregorian calendar,
//! counted by the closed form for civil dates; a plain UTC timestamp is its date
//! and time; a fraction changes nothing; an offset is subtracted. No other text
//! is a timestamp.

use vstd::prelude::*;

use crate::rfc3339::{
    date_days, days_of_date, digits_end, epoch_seconds, fraction_end, lemma_days_before_year,
    lemma_leaps, offset_seconds, time_seconds, timestamp, two_digits,
};

verus! {

/// Whether all characters from one place up to another are decimal digits.
pub open spec fn all_digits(s: Seq<char>, from: int, to: int) -> bool {
    forall|i: int| from <= i < to ==> '0' <= #[trigger] s[i] && s[i] <= '9'
}

/// The number that the digits from one place up to another write.
pub open spec fn decimal(s: Seq<char>, from: int, to: int) -> int
    decreases to - from,
{
    if from >= to {
        0
    } else {
        10 * decimal(s, from, to - 1) + (s[to - 1] as int - '0' as int)
    }
}

/// The dates are those of the Gregorian calendar: 31 days in January, March,
/// May, July, August, October and December, 30 in April, June, September and
/// November, and 28 in February, or 29 where the year is divisible by 4 but not
/// by 100, or by 400.
pub proof fn law_dates_of_the_calendar(year: int, month: int, day: int)
    ensures
        days_of_date(year, month, day) is Some <==> {
            &&& 1 <= day
            &&& {
                ||| day <= 31 && (month == 1 || month == 3 || month == 5 || month == 7 || month == 8
                    || month == 10 || month == 12)
                ||| day <= 30 && (month == 4 || month == 6 || month == 9 || month == 11)
                ||| day <= 28 && month == 2
                ||| day == 29 && month == 2 && (year % 400 == 0 || year % 4 == 0 && year % 100 != 0)
            }
        },
{
    assert(year % 400 == 0 ==> year % 4 == 0);
}

/// The days from 1 January 1970 to a date, by the closed form for civil dates:
/// years are counted from 1 March, so that the leap day comes last and the
/// months before a date hold `(153 * m + 2) / 5` days.
pub proof fn law_days_of_a_date(year: int, month: int, day: int)
    requires
        days_of_date(year, month, day) is Some,
    ensures
        ({
            let y = if month > 2 {
                year
            } else {
                year - 1
            };
            let m = if month > 2 {
                month - 3
            } else {
                month + 9
            };
            days_of_date(year, month, day) == Some(
                365 * y + y / 4 - y / 100 + y / 400 + (153 * m + 2) / 5 + day - 1 - 719468,
            )
        }),
{
    reveal_with_fuel(crate::rfc3339::days_before_month, 13);
    lemma_days_before_year(year);
    lemma_leaps(year);
    assert(month == 1 || month == 2 || month == 3 || month == 4 || month == 5 || month == 6 || month
        == 7 || month == 8 || month == 9 || month == 10 || month == 11 || month == 12);
}

/// The day after a date, in the same month, in the next month or in the next
/// year, is one day later.
pub proof fn law_days_follow_each_other(year: int, month: int, day: int)
    requires
        days_of_date(year, month, day) is Some,
    ensures
        ({
            let next = if days_of_date(year, month, day + 1) is Some {
                days_of_date(year, month, day + 1)
            } else if month < 12 {
                days_of_date(year, month + 1, 1)
            } else {
                days_of_date(year + 1, 1, 1)
            };
            next == Some(days_of_date(year, month, day)->0 + 1)
        }),
{
    reveal_with_fuel(crate::rfc3339::days_before_month, 13);
    lemma_days_before_year(year);
    lemma_days_before_year(year + 1);
    lemma_leaps(year);
    assert(month == 1 || month == 2 || month == 3 || month == 4 || month == 5 || month == 6 || month
        == 7 || month == 8 || month == 9 || month == 10 || month == 11 || month == 12);
}

/// Two digits, by their value.
proof fn lemma_two_digits(s: Seq<char>, i: int)
    requires
        0 <= i,
        i + 2 <= s.len(),
    ensures
        two_digits(s, i) is Some <==> all_digits(s, i, i + 2),
        two_digits(s, i) matches Some(n) ==> n == decimal(s, i, i + 2) && 0 <= n <= 99,
{
    reveal_with_fuel(decimal, 3);
    if all_digits(s, i, i + 2) {
        assert('0' <= s[i] && s[i] <= '9');
        assert('0' <= s[i + 1] && s[i + 1] <= '9');
    }
}

/// Four digits, by their value.
proof fn lemma_four_digits(s: Seq<char>)
    requires
        4 <= s.len(),
    ensures
        two_digits(s, 0) is Some && two_digits(s, 2) is Some <==> all_digits(s, 0, 4),
        two_digits(s, 0) matches Some(century) ==> (two_digits(s, 2) matches Some(year) ==> 100
            * century + year == decimal(s, 0, 4)),
{
    reveal_with_fuel(decimal, 5);
    lemma_two_digits(s, 0);
    lemma_two_digits(s, 2);
    if all_digits(s, 0, 4) {
        assert(all_digits(s, 0, 2));
        assert(all_digits(s, 2, 4));
    }
}

/// What date and time of a text of at least 19 characters are.
proof fn lemma_fields(s: Seq<char>)
    requires
        19 <= s.len(),
    ensures
        date_days(s) is Some <==> {
            &&& all_digits(s, 0, 4) && s[4] == '-'
            &&& all_digits(s, 5, 7) && s[7] == '-'
            &&& all_digits(s, 8, 10)
            &&& days_of_date(decimal(s, 0, 4), decimal(s, 5, 7), decimal(s, 8, 10)) is Some
        },
        date_days(s) is Some ==> date_days(s) == days_of_date(
            decimal(s, 0, 4),
            decimal(s, 5, 7),
            decimal(s, 8, 10),
        ),
        time_seconds(s) is Some <==> {
            &&& all_digits(s, 11, 13) && s[13] == ':' && decimal(s, 11, 13) <= 23
            &&& all_digits(s, 14, 16) && s[16] == ':' && decimal(s, 14, 16) <= 59
            &&& all_digits(s, 17, 19) && decimal(s, 17, 19) <= 60
        },
        time_seconds(s) matches Some(t) ==> t == 3600 * decimal(s, 11, 13) + 60 * decimal(s, 14, 16)
            + decimal(s, 17, 19),
{
    lemma_four_digits(s);
    lemma_two_digits(s, 5);
    lemma_two_digits(s, 8);
    lemma_two_digits(s, 11);
    lemma_two_digits(s, 14);
    lemma_two_digits(s, 17);
}

/// A plain UTC timestamp: `YYYY-MM-DDThh:mm:ssZ`, where the letters may be
/// small, the date is one of the calendar, and the time runs to 23:59:60.
pub proof fn law_utc_timestamps(s: Seq<char>)
    requires
        s.len() == 20,
    ensures
        timestamp(s) is Some <==> {
            &&& all_digits(s, 0, 4) && s[4] == '-'
            &&& all_digits(s, 5, 7) && s[7] == '-'
            &&& all_digits(s, 8, 10) && (s[10] == 'T' || s[10] == 't')
            &&& all_digits(s, 11, 13) && s[13] == ':' && decimal(s, 11, 13) <= 23
            &&& all_digits(s, 14, 16) && s[16] == ':' && decimal(s, 14, 16) <= 59
            &&& all_digits(s, 17, 19) && decimal(s, 17, 19) <= 60
            &&& s[19] == 'Z' || s[19] == 'z'
            &&& days_of_date(decimal(s, 0, 4), decimal(s, 5, 7), decimal(s, 8, 10)) is Some
        },
        timestamp(s) matches Some(t) ==> t == 86400 * days_of_date(
            decimal(s, 0, 4),
            decimal(s, 5, 7),
            decimal(s, 8, 10),
        )->0 + 3600 * decimal(s, 11, 13) + 60 * decimal(s, 14, 16) + decimal(s, 17, 19),
{
    lemma_fields(s);
}

/// Where a run of digits ends.
proof fn lemma_digits_end(s: Seq<char>, i: int, end: int)
    requires
        0 <= i <= end <= s.len(),
        all_digits(s, i, end),
        end < s.len() ==> !('0' <= s[end] && s[end] <= '9'),
    ensures
        digits_end(s, i) == end,
    decreases end - i,
{
    if i < end {
        assert('0' <= s[i] && s[i] <= '9');
        lemma_digits_end(s, i + 1, end);
    }
}

/// A run of digits is made of digits and ends before another character.
proof fn lemma_digits_run(s: Seq<char>, i: int)
    requires
        0 <= i <= s.len(),
    ensures
        ({
            let end = digits_end(s, i);
            &&& i <= end <= s.len()
            &&& all_digits(s, i, end)
            &&& end < s.len() ==> !('0' <= s[end] && s[end] <= '9')
        }),
    decreases s.len() - i,
{
    if i < s.len() && '0' <= s[i] && s[i] <= '9' {
        lemma_digits_run(s, i + 1);
    }
}

/// The date and the time are read from the first 19 characters alone.
proof fn lemma_head(s: Seq<char>, other: Seq<char>)
    requires
        19 <= s.len(),
        19 <= other.len(),
        s.take(19) == other.take(19),
    ensures
        date_days(s) == date_days(other),
        time_seconds(s) == time_seconds(other),
        s[10] == other[10],
{
    assert(forall|i: int| 0 <= i < 19 ==> #[trigger] s[i] == s.take(19)[i]);
    assert(forall|i: int| 0 <= i < 19 ==> #[trigger] other[i] == other.take(19)[i]);
    assert(forall|i: int| 0 <= i < 19 ==> #[trigger] s[i] == other[i]);
}

/// A fraction of a second, of any number of digits, changes nothing.
pub proof fn law_fraction_is_dropped(head: Seq<char>, digits: Seq<char>, tail: Seq<char>)
    requires
        head.len() == 19,
        digits.len() > 0,
        all_digits(digits, 0, digits.len() as int),
        tail.len() > 0 ==> tail[0] != '.' && !('0' <= tail[0] && tail[0] <= '9'),
    ensures
        timestamp(head + seq!['.'] + digits + tail) == timestamp(head + tail),
{
    let long = head + seq!['.'] + digits + tail;
    let short = head + tail;
    let end: int = 20 + digits.len() as int;
    assert(long.take(19) =~= short.take(19));
    lemma_head(long, short);
    assert(long[19] == '.');
    assert(forall|i: int| 20 <= i < end ==> #[trigger] long[i] == digits[i - 20]);
    assert(forall|i: int| 0 <= i < tail.len() ==> #[trigger] long[end + i] == tail[i]);
    assert(forall|i: int| 0 <= i < tail.len() ==> #[trigger] short[19 + i] == tail[i]);
    if tail.len() > 0 {
        assert(long[end] == tail[0]);
    }
    lemma_digits_end(long, 20, end);
    if short.len() > 19 {
        assert(short[19] == tail[0]);
    }
    assert(fraction_end(long) == Some(end));
    assert(fraction_end(short) == Some(19int));
    if tail.len() == 1 {
        assert(long[end] == short[19]);
    } else if tail.len() == 6 {
        assert(long[end + 0int] == tail[0] && short[19 + 0int] == tail[0]);
        assert(long[end + 1int] == tail[1] && short[19 + 1int] == tail[1]);
        assert(long[end + 2int] == tail[2] && short[19 + 2int] == tail[2]);
        assert(long[end + 3int] == tail[3] && short[19 + 3int] == tail[3]);
        assert(long[end + 4int] == tail[4] && short[19 + 4int] == tail[4]);
        assert(long[end + 5int] == tail[5] && short[19 + 5int] == tail[5]);
    }
    assert(offset_seconds(long, end) == offset_seconds(short, 19));
}

/// An offset `+hh:mm` or `-hh:mm`, up to 23:59, in place of `Z`: the same
/// instant comes that much earlier east of UTC, and later west of it.
pub proof fn law_offset_is_subtracted(head: Seq<char>, zone: Seq<char>)
    requires
        head.len() == 19,
        zone.len() == 6,
        zone[0] != '.',
    ensures
        timestamp(head + zone) is Some <==> {
            &&& timestamp(head + seq!['Z']) is Some
            &&& zone[0] == '+' || zone[0] == '-'
            &&& all_digits(zone, 1, 3) && zone[3] == ':' && decimal(zone, 1, 3) <= 23
            &&& all_digits(zone, 4, 6) && decimal(zone, 4, 6) <= 59
        },
        timestamp(head + zone) matches Some(t) ==> {
            let east = 3600 * decimal(zone, 1, 3) + 60 * decimal(zone, 4, 6);
            &&& zone[0] == '+' ==> timestamp(head + seq!['Z']) == Some(t + east)
            &&& zone[0] == '-' ==> timestamp(head + seq!['Z']) == Some(t - east)
        },
{
    let s = head + zone;
    let utc = head + seq!['Z'];
    assert(s.take(19) =~= utc.take(19));
    lemma_head(s, utc);
    lemma_two_digits(zone, 1);
    lemma_two_digits(zone, 4);
    assert(s[19] == zone[0] && s[20] == zone[1] && s[21] == zone[2] && s[22] == zone[3] && s[23]
        == zone[4] && s[24] == zone[5]);
    assert(utc[19] == 'Z');
    assert(two_digits(s, 20) == two_digits(zone, 1));
    assert(two_digits(s, 23) == two_digits(zone, 4));
}

/// No other text is a timestamp: 19 characters of date and time are followed by
/// `Z` or an offset, or by a point, digits, and then `Z` or an offset.
pub proof fn law_shape_of_timestamps(s: Seq<char>)
    ensures
        timestamp(s) is Some ==> s.len() >= 20 && exists|end: int|
            {
                &&& end == 19 || s[19] == '.' && 20 < end && all_digits(s, 20, end)
                &&& {
                    ||| s.len() == end + 1 && (#[trigger] s[end] == 'Z' || s[end] == 'z')
                    ||| s.len() == end + 6 && (s[end] == '+' || s[end] == '-')
                }
            },
{
    if timestamp(s) is Some {
        let end = fraction_end(s)->0;
        if end != 19 {
            lemma_digits_run(s, 20);
        }
        assert(s[end] == 'Z' || s[end] == 'z' || s[end] == '+' || s[end] == '-');
    }
}

/// A timestamp is read as its whole seconds since the epoch; before the epoch
/// nothing is read.
pub proof fn law_epoch_seconds(s: Seq<char>)
    ensures
        match timestamp(s) {
            Some(t) => if t >= 0 {
                epoch_seconds(s) matches Some(seconds) && seconds == t
            } else {
                epoch_seconds(s) is None
            },
            None => epoch_seconds(s) is None,
        },
{
    if let Some(t) = timestamp(s) {
        law_shape_of_timestamps(s);
        lemma_fields(s);
        lemma_four_digits(s);
        lemma_two_digits(s, 0);
        lemma_two_digits(s, 2);
        let (year, month, day) = (decimal(s, 0, 4), decimal(s, 5, 7), decimal(s, 8, 10));
        law_days_of_a_date(year, month, day);
        law_dates_of_the_calendar(year, month, day);
        let end = fraction_end(s)->0;
        if s.len() == end + 6 {
            lemma_two_digits(s, end + 1);
            lemma_two_digits(s, end + 4);
        }
        lemma_two_digits(s, 11);
        lemma_two_digits(s, 14);
        lemma_two_digits(s, 17);
        assert(0 <= year <= 9999);
        assert(t < 0x1_0000_0000_0000);
    }
}

} // verus!
