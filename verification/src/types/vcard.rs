//! Dates and times of contact cards, of which parts may be left out.
//!
//! A date is written `19850412`, `1985-04-12`, `1985-04`, `1985`, `--0412`,
//! `--04-12`, `--04` or `---12`. A time is written `102200`, `1022`, `10`,
//! `-2200`, `--00`, or with colons between its parts, and may be followed by
//! `Z` or by an offset from UTC such as `-0800`.
use crate::parser::{ParserError, ParserErrorView};
use crate::text::{string_of_range, to_chars};
use crate::types::duration::{decimal, digit_char, is_digit};
use vstd::prelude::*;

verus! {

/// A date of which the year, the month or the day may be left out.
#[derive(Debug, Clone, Copy, PartialEq, Eq, Structural, Default)]
pub struct PartialDate {
    pub year: Option<i32>,
    pub month: Option<u32>,
    pub day: Option<u32>,
}

/// A time of day of which parts may be left out, with an optional offset
/// from UTC.
#[derive(Debug, Clone, Copy, PartialEq, Eq, Structural, Default)]
pub struct PartialTime {
    pub hour: Option<u8>,
    pub minute: Option<u8>,
    pub second: Option<u8>,
    pub offset_hour: Option<i8>,
    pub offset_minute: Option<i8>,
}

/// A date and a time.
#[derive(Debug, Clone, Copy, PartialEq, Eq, Structural, Default)]
pub struct PartialDateTime {
    pub date: PartialDate,
    pub time: PartialTime,
}

/// A date, a time or both.
#[derive(Debug, Clone, Copy, PartialEq, Eq, Structural, Default)]
pub struct PartialDateAndOrTime {
    pub date: Option<PartialDate>,
    pub time: Option<PartialTime>,
}

/// The number that the `n` digits at the place `i` spell; nothing where the
/// text holds no `n` digits there.
#[verifier::opaque]
pub open spec fn number_at(s: Seq<char>, i: int, n: int) -> Option<nat> {
    if 0 <= i && i + n <= s.len() && forall|k: int| i <= k < i + n ==> is_digit(#[trigger] s[k]) {
        Some(decimal(s, i, i + n))
    } else {
        None
    }
}

/// Whether the character `c` stands at the place `i`.
pub open spec fn char_at(s: Seq<char>, i: int, c: char) -> bool {
    0 <= i < s.len() && s[i] == c
}

fn digits_at(s: &Vec<char>, i: usize, n: usize) -> (r: Option<u32>)
    requires
        n <= 4,
    ensures
        match r {
            Some(v) => number_at(s@, i as int, n as int) == Some(v as nat) && v <= 9999,
            None => number_at(s@, i as int, n as int) is None,
        },
{
    reveal(number_at);
    if i > s.len() || n > s.len() - i {
        return None;
    }
    let mut k: usize = i;
    let mut v: u32 = 0;
    while k < i + n
        invariant
            i <= k <= i + n <= s.len(),
            n <= 4,
            forall|j: int| i <= j < k ==> is_digit(#[trigger] s@[j]),
            v == decimal(s@, i as int, k as int),
            v <= 9999,
            k - i == 0 ==> v == 0,
            k - i == 1 ==> v <= 9,
            k - i == 2 ==> v <= 99,
            k - i == 3 ==> v <= 999,
        decreases i + n - k,
    {
        let c = s[k];
        if !(c >= '0' && c <= '9') {
            proof {
                reveal(number_at);
                assert(!is_digit(s@[k as int]));
            }
            return None;
        }
        v = v * 10 + (c as u32 - '0' as u32);
        k += 1;
    }
    proof {
        reveal(number_at);
    }
    Some(v)
}

fn is_char(s: &Vec<char>, i: usize, c: char) -> (r: bool)
    ensures
        r == char_at(s@, i as int, c),
{
    i < s.len() && s[i] == c
}

/// A date as it is read, before its parts are checked.
pub struct DateParts {
    pub year: Option<nat>,
    pub month: Option<nat>,
    pub day: Option<nat>,
}

/// The form `1985` or `19850412`.
pub open spec fn basic_date(s: Seq<char>) -> Option<DateParts> {
    if s.len() == 4 && number_at(s, 0, 4) is Some {
        Some(DateParts { year: number_at(s, 0, 4), month: None, day: None })
    } else if s.len() == 8 && number_at(s, 0, 4) is Some && number_at(s, 4, 2) is Some
        && number_at(s, 6, 2) is Some {
        Some(
            DateParts {
                year: number_at(s, 0, 4),
                month: number_at(s, 4, 2),
                day: number_at(s, 6, 2),
            },
        )
    } else {
        None
    }
}

/// The form `1985-04` or `1985-04-12`.
pub open spec fn extended_date(s: Seq<char>) -> Option<DateParts> {
    if s.len() == 7 && number_at(s, 0, 4) is Some && char_at(s, 4, '-') && number_at(s, 5, 2)
        is Some {
        Some(DateParts { year: number_at(s, 0, 4), month: number_at(s, 5, 2), day: None })
    } else if s.len() == 10 && number_at(s, 0, 4) is Some && char_at(s, 4, '-') && number_at(
        s,
        5,
        2,
    ) is Some && char_at(s, 7, '-') && number_at(s, 8, 2) is Some {
        Some(
            DateParts {
                year: number_at(s, 0, 4),
                month: number_at(s, 5, 2),
                day: number_at(s, 8, 2),
            },
        )
    } else {
        None
    }
}

/// The forms that start with a dash: a year or a second dash, then, where
/// the text goes on, a month or a dash and an optional day.
pub open spec fn truncated_date(s: Seq<char>) -> Option<DateParts> {
    if !char_at(s, 0, '-') {
        None
    } else {
        let year = number_at(s, 1, 4);
        let p: int = if year is Some {
            5
        } else {
            2
        };
        if year is None && !char_at(s, 1, '-') {
            None
        } else if p == s.len() {
            Some(DateParts { year, month: None, day: None })
        } else {
            let month = number_at(s, p, 2);
            let q: int = if month is Some {
                p + 2
            } else {
                p + 1
            };
            if month is None && !char_at(s, p, '-') {
                None
            } else if q == s.len() {
                Some(DateParts { year, month, day: None })
            } else if number_at(s, q, 2) is Some && q + 2 == s.len() {
                Some(DateParts { year, month, day: number_at(s, q, 2) })
            } else {
                None
            }
        }
    }
}

/// The form `--04-12`.
pub open spec fn truncated_extended_date(s: Seq<char>) -> Option<DateParts> {
    if s.len() == 7 && char_at(s, 0, '-') && char_at(s, 1, '-') && number_at(s, 2, 2) is Some
        && char_at(s, 4, '-') && number_at(s, 5, 2) is Some {
        Some(DateParts { year: None, month: number_at(s, 2, 2), day: number_at(s, 5, 2) })
    } else {
        None
    }
}

/// The parts of the date that `s` spells, in the first of the four forms
/// that fits.
pub open spec fn matched_date(s: Seq<char>) -> Option<DateParts> {
    if basic_date(s) is Some {
        basic_date(s)
    } else if extended_date(s) is Some {
        extended_date(s)
    } else if truncated_date(s) is Some {
        truncated_date(s)
    } else {
        truncated_extended_date(s)
    }
}

/// The date that `s` spells: its parts, where the month is at most 12 and
/// the day at most 31.
pub open spec fn partial_date_of(s: Seq<char>) -> Option<DateParts> {
    match matched_date(s) {
        None => None,
        Some(d) => if (d.month is Some && d.month->0 > 12) || (d.day is Some && d.day->0 > 31) {
            None
        } else {
            Some(d)
        },
    }
}

/// The parts of a date as plain values.
pub open spec fn date_parts(d: PartialDate) -> DateParts {
    DateParts {
        year: match d.year {
            Some(y) => Some(y as nat),
            None => None,
        },
        month: match d.month {
            Some(m) => Some(m as nat),
            None => None,
        },
        day: match d.day {
            Some(x) => Some(x as nat),
            None => None,
        },
    }
}

/// Whether the year of a date, where it has one, has at most four digits.
pub open spec fn year_fits(d: PartialDate) -> bool {
    match d.year {
        Some(y) => 0 <= y <= 9999,
        None => true,
    }
}

fn as_year(v: Option<u32>) -> (r: Option<i32>)
    requires
        v matches Some(n) ==> n <= 9999,
    ensures
        match (r, v) {
            (Some(a), Some(b)) => a == b,
            (None, None) => true,
            _ => false,
        },
{
    match v {
        Some(n) => Some(n as i32),
        None => None,
    }
}

fn read_basic(s: &Vec<char>) -> (r: Option<PartialDate>)
    ensures
        match r {
            Some(d) => basic_date(s@) == Some(date_parts(d)) && year_fits(d),
            None => basic_date(s@) is None,
        },
{
    let year = digits_at(s, 0, 4);
    if year.is_none() {
        return None;
    }
    if s.len() == 4 {
        return Some(PartialDate { year: as_year(year), month: None, day: None });
    }
    let month = digits_at(s, 4, 2);
    let day = digits_at(s, 6, 2);
    if s.len() == 8 && month.is_some() && day.is_some() {
        Some(PartialDate { year: as_year(year), month, day })
    } else {
        None
    }
}

fn read_extended(s: &Vec<char>) -> (r: Option<PartialDate>)
    ensures
        match r {
            Some(d) => extended_date(s@) == Some(date_parts(d)) && year_fits(d),
            None => extended_date(s@) is None,
        },
{
    let year = digits_at(s, 0, 4);
    let month = digits_at(s, 5, 2);
    if year.is_none() || !is_char(s, 4, '-') || month.is_none() {
        return None;
    }
    if s.len() == 7 {
        return Some(PartialDate { year: as_year(year), month, day: None });
    }
    let day = digits_at(s, 8, 2);
    if s.len() == 10 && is_char(s, 7, '-') && day.is_some() {
        Some(PartialDate { year: as_year(year), month, day })
    } else {
        None
    }
}

fn read_truncated(s: &Vec<char>) -> (r: Option<PartialDate>)
    ensures
        match r {
            Some(d) => truncated_date(s@) == Some(date_parts(d)) && year_fits(d),
            None => truncated_date(s@) is None,
        },
{
    if !is_char(s, 0, '-') {
        return None;
    }
    let year = digits_at(s, 1, 4);
    if year.is_none() && !is_char(s, 1, '-') {
        return None;
    }
    let p: usize = if year.is_some() {
        5
    } else {
        2
    };
    if p == s.len() {
        return Some(PartialDate { year: as_year(year), month: None, day: None });
    }
    let month = digits_at(s, p, 2);
    if month.is_none() && !is_char(s, p, '-') {
        return None;
    }
    let q: usize = if month.is_some() {
        p + 2
    } else {
        p + 1
    };
    if q == s.len() {
        return Some(PartialDate { year: as_year(year), month, day: None });
    }
    let day = digits_at(s, q, 2);
    if day.is_some() && q + 2 == s.len() {
        Some(PartialDate { year: as_year(year), month, day })
    } else {
        None
    }
}

fn read_truncated_extended(s: &Vec<char>) -> (r: Option<PartialDate>)
    ensures
        match r {
            Some(d) => truncated_extended_date(s@) == Some(date_parts(d)) && year_fits(d),
            None => truncated_extended_date(s@) is None,
        },
{
    let month = digits_at(s, 2, 2);
    let day = digits_at(s, 5, 2);
    if s.len() == 7 && is_char(s, 0, '-') && is_char(s, 1, '-') && month.is_some() && is_char(
        s,
        4,
        '-',
    ) && day.is_some() {
        Some(PartialDate { year: None, month, day })
    } else {
        None
    }
}

fn read_date(s: &Vec<char>) -> (r: Option<PartialDate>)
    ensures
        match r {
            Some(d) => partial_date_of(s@) == Some(date_parts(d)) && date_writable(d),
            None => partial_date_of(s@) is None,
        },
{
    let matched = match read_basic(s) {
        Some(d) => Some(d),
        None => match read_extended(s) {
            Some(d) => Some(d),
            None => match read_truncated(s) {
                Some(d) => Some(d),
                None => read_truncated_extended(s),
            },
        },
    };
    match matched {
        None => None,
        Some(d) => {
            let month_fits = match d.month {
                Some(m) => m <= 12,
                None => true,
            };
            let day_fits = match d.day {
                Some(x) => x <= 31,
                None => true,
            };
            if month_fits && day_fits {
                Some(d)
            } else {
                None
            }
        },
    }
}

/// Whether a date can be written: its year has at most four digits, its
/// month and day at most two.
pub open spec fn date_writable(d: PartialDate) -> bool {
    &&& year_fits(d)
    &&& (d.month matches Some(m) ==> m <= 99)
    &&& (d.day matches Some(x) ==> x <= 99)
}

/// A time as it is read, before its parts are checked.
pub struct TimeParts {
    pub hour: Option<nat>,
    pub minute: Option<nat>,
    pub second: Option<nat>,
    pub offset_hour: Option<int>,
    pub offset_minute: Option<int>,
}

/// The offset that stands at the place `p` and ends the text: `Z`, or a sign
/// with two digits for the hours and, behind the separator where `colon` is
/// set, two more for the minutes; or nothing where the text ends at `p`.
/// The first component says whether the text fits.
pub open spec fn zone_at(s: Seq<char>, p: int, colon: bool) -> Option<(Option<int>, Option<int>)> {
    let sign: int = if char_at(s, p, '-') {
        -1
    } else {
        1
    };
    let signed = (char_at(s, p, '-') || char_at(s, p, '+')) && number_at(s, p + 1, 2) is Some;
    let hours = sign * number_at(s, p + 1, 2)->0;
    let q: int = if colon {
        p + 4
    } else {
        p + 3
    };
    if char_at(s, p, 'Z') && p + 1 == s.len() {
        Some((Some(0int), Some(0int)))
    } else if signed && (!colon || char_at(s, p + 3, ':')) && number_at(s, q, 2) is Some && q + 2
        == s.len() {
        Some((Some(hours), Some(sign * number_at(s, q, 2)->0)))
    } else if signed && p + 3 == s.len() {
        Some((Some(hours), None))
    } else if p == s.len() {
        Some((None, None))
    } else {
        None
    }
}

/// The time that `s` spells in the form without colons (`colon` unset) or
/// with colons: hours or a dash; then, where they fit, minutes or a dash
/// and, where they fit, seconds; then the offset. More parts are preferred
/// to fewer.
pub open spec fn matched_time(s: Seq<char>, colon: bool) -> Option<TimeParts> {
    let hour = number_at(s, 0, 2);
    let p: int = if hour is Some {
        2
    } else {
        1
    };
    let sep: int = if colon {
        1
    } else {
        0
    };
    let minute = number_at(s, p + sep, 2);
    let q: int = if minute is Some {
        p + sep + 2
    } else {
        p + sep + 1
    };
    let has_minute_part = (!colon || char_at(s, p, ':')) && (minute is Some || char_at(
        s,
        p + sep,
        '-',
    ));
    let second = number_at(s, q + sep, 2);
    let has_second = (!colon || char_at(s, q, ':')) && second is Some;
    if hour is None && !char_at(s, 0, '-') {
        None
    } else if has_minute_part && has_second && zone_at(s, q + sep + 2, colon) is Some {
        let zone = zone_at(s, q + sep + 2, colon)->0;
        Some(TimeParts { hour, minute, second, offset_hour: zone.0, offset_minute: zone.1 })
    } else if has_minute_part && zone_at(s, q, colon) is Some {
        let zone = zone_at(s, q, colon)->0;
        Some(TimeParts { hour, minute, second: None, offset_hour: zone.0, offset_minute: zone.1 })
    } else if zone_at(s, p, colon) is Some {
        let zone = zone_at(s, p, colon)->0;
        Some(
            TimeParts {
                hour,
                minute: None,
                second: None,
                offset_hour: zone.0,
                offset_minute: zone.1,
            },
        )
    } else {
        None
    }
}

/// Whether the parts of a time are in range and fit together: hours up to
/// 23, minutes and seconds up to 59, an offset between -12 and 14 hours with
/// minutes up to 59, and no seconds behind hours without minutes.
pub open spec fn time_in_range(t: TimeParts) -> bool {
    &&& (t.offset_hour matches Some(h) ==> -12 <= h <= 14)
    &&& (t.offset_minute matches Some(m) ==> -59 <= m <= 59)
    &&& (t.hour matches Some(h) ==> h <= 23)
    &&& (t.minute matches Some(m) ==> m <= 59)
    &&& (t.second matches Some(x) ==> x <= 59)
    &&& !(t.hour is Some && t.minute is None && t.second is Some)
}

/// The time that `s` spells: the form without colons is tried first, then
/// the form with colons; the parts of the first form that fits must be in
/// range.
pub open spec fn partial_time_of(s: Seq<char>) -> Option<TimeParts> {
    let matched = if matched_time(s, false) is Some {
        matched_time(s, false)
    } else {
        matched_time(s, true)
    };
    match matched {
        None => None,
        Some(t) => if time_in_range(t) {
            Some(t)
        } else {
            None
        },
    }
}

/// The parts of a time as plain values.
pub open spec fn time_parts(t: PartialTime) -> TimeParts {
    TimeParts {
        hour: match t.hour {
            Some(h) => Some(h as nat),
            None => None,
        },
        minute: match t.minute {
            Some(m) => Some(m as nat),
            None => None,
        },
        second: match t.second {
            Some(x) => Some(x as nat),
            None => None,
        },
        offset_hour: match t.offset_hour {
            Some(h) => Some(h as int),
            None => None,
        },
        offset_minute: match t.offset_minute {
            Some(m) => Some(m as int),
            None => None,
        },
    }
}

/// An offset as it is read: hours and minutes, each of at most two digits
/// and with the sign of the offset.
struct Zone {
    hour: Option<i8>,
    minute: Option<i8>,
}

fn read_zone(s: &Vec<char>, p: usize, colon: bool) -> (r: Option<Zone>)
    requires
        s.len() < 1000,
        p <= s.len() + 8,
    ensures
        match r {
            Some(z) => zone_at(s@, p as int, colon) == Some(
                (
                    match z.hour {
                        Some(h) => Some(h as int),
                        None => None,
                    },
                    match z.minute {
                        Some(m) => Some(m as int),
                        None => None,
                    },
                ),
            ),
            None => zone_at(s@, p as int, colon) is None,
        },
{
    if is_char(s, p, 'Z') && p + 1 == s.len() {
        return Some(Zone { hour: Some(0), minute: Some(0) });
    }
    let negative = is_char(s, p, '-');
    let hours = two_at(s, p + 1);
    let signed = (negative || is_char(s, p, '+')) && hours.is_some();
    let q: usize = if colon {
        p + 4
    } else {
        p + 3
    };
    let minutes = two_at(s, q);
    if signed {
        let h = hours.unwrap() as i8;
        let hour: i8 = if negative {
            -h
        } else {
            h
        };
        assert(hour as int == (if negative {
            -1int
        } else {
            1int
        }) * (hours->0 as int)) by (nonlinear_arith)
            requires
                hour as int == (if negative {
                    -(hours->0 as int)
                } else {
                    hours->0 as int
                }),
        ;
        if (!colon || is_char(s, p + 3, ':')) && minutes.is_some() && q + 2 == s.len() {
            let m = minutes.unwrap() as i8;
            let minute: i8 = if negative {
                -m
            } else {
                m
            };
            assert(minute as int == (if negative {
                -1int
            } else {
                1int
            }) * (minutes->0 as int)) by (nonlinear_arith)
                requires
                    minute as int == (if negative {
                        -(minutes->0 as int)
                    } else {
                        minutes->0 as int
                    }),
            ;
            return Some(Zone { hour: Some(hour), minute: Some(minute) });
        }
        if p + 3 == s.len() {
            return Some(Zone { hour: Some(hour), minute: None });
        }
    }
    if p == s.len() {
        Some(Zone { hour: None, minute: None })
    } else {
        None
    }
}

fn as_part(v: Option<u32>) -> (r: Option<u8>)
    requires
        v matches Some(n) ==> n <= 99,
    ensures
        match (r, v) {
            (Some(a), Some(b)) => a == b,
            (None, None) => true,
            _ => false,
        },
{
    match v {
        Some(n) => Some(n as u8),
        None => None,
    }
}

fn two_at(s: &Vec<char>, i: usize) -> (r: Option<u32>)
    ensures
        match r {
            Some(v) => number_at(s@, i as int, 2) == Some(v as nat) && v <= 99,
            None => number_at(s@, i as int, 2) is None,
        },
{
    match digits_at(s, i, 2) {
        Some(v) => {
            proof {
                lemma_two_digits(s@, i as int);
            }
            Some(v)
        },
        None => None,
    }
}

proof fn lemma_two_digits(s: Seq<char>, i: int)
    requires
        number_at(s, i, 2) is Some,
    ensures
        number_at(s, i, 2)->0 <= 99,
{
    reveal(number_at);
    assert(is_digit(s[i]));
    assert(is_digit(s[i + 1]));
    assert(decimal(s, i, i) == 0);
    assert(decimal(s, i, i + 1) == decimal(s, i, i) * 10 + (s[i] as u32 - '0' as u32) as nat);
    assert(decimal(s, i, i + 2) == decimal(s, i, i + 1) * 10 + (s[i + 1] as u32 - '0' as u32)
        as nat);
}

#[verifier::rlimit(40)]
fn read_time(s: &Vec<char>, colon: bool) -> (r: Option<PartialTime>)
    requires
        s.len() < 1000,
    ensures
        match r {
            Some(t) => matched_time(s@, colon) == Some(time_parts(t)),
            None => matched_time(s@, colon) is None,
        },
{
    let hour = two_at(s, 0);
    if hour.is_none() && !is_char(s, 0, '-') {
        return None;
    }
    let p: usize = if hour.is_some() {
        2
    } else {
        1
    };
    let sep: usize = if colon {
        1
    } else {
        0
    };
    let minute = two_at(s, p + sep);
    let q: usize = if minute.is_some() {
        p + sep + 2
    } else {
        p + sep + 1
    };
    let has_minute_part = (!colon || is_char(s, p, ':')) && (minute.is_some() || is_char(
        s,
        p + sep,
        '-',
    ));
    let second = two_at(s, q + sep);
    let has_second = (!colon || is_char(s, q, ':')) && second.is_some();
    if has_minute_part && has_second {
        match read_zone(s, q + sep + 2, colon) {
            Some(z) => {
                return Some(
                    PartialTime {
                        hour: as_part(hour),
                        minute: as_part(minute),
                        second: as_part(second),
                        offset_hour: z.hour,
                        offset_minute: z.minute,
                    },
                );
            },
            None => {},
        }
    }
    if has_minute_part {
        match read_zone(s, q, colon) {
            Some(z) => {
                return Some(
                    PartialTime {
                        hour: as_part(hour),
                        minute: as_part(minute),
                        second: None,
                        offset_hour: z.hour,
                        offset_minute: z.minute,
                    },
                );
            },
            None => {},
        }
    }
    match read_zone(s, p, colon) {
        Some(z) => Some(
            PartialTime {
                hour: as_part(hour),
                minute: None,
                second: None,
                offset_hour: z.hour,
                offset_minute: z.minute,
            },
        ),
        None => None,
    }
}

fn time_fits(t: &PartialTime) -> (r: bool)
    ensures
        r == time_in_range(time_parts(*t)),
{
    let offset_hour_fits = match t.offset_hour {
        Some(h) => -12 <= h && h <= 14,
        None => true,
    };
    let offset_minute_fits = match t.offset_minute {
        Some(m) => -59 <= m && m <= 59,
        None => true,
    };
    let hour_fits = match t.hour {
        Some(h) => h <= 23,
        None => true,
    };
    let minute_fits = match t.minute {
        Some(m) => m <= 59,
        None => true,
    };
    let second_fits = match t.second {
        Some(x) => x <= 59,
        None => true,
    };
    offset_hour_fits && offset_minute_fits && hour_fits && minute_fits && second_fits && !(
    t.hour.is_some() && t.minute.is_none() && t.second.is_some())
}

fn read_partial_time(s: &Vec<char>) -> (r: Option<PartialTime>)
    ensures
        match r {
            Some(t) => partial_time_of(s@) == Some(time_parts(t)),
            None => partial_time_of(s@) is None,
        },
{
    if s.len() >= 1000 {
        proof {
            lemma_long_text_is_no_time(s@);
        }
        return None;
    }
    let matched = match read_time(s, false) {
        Some(t) => Some(t),
        None => read_time(s, true),
    };
    match matched {
        None => None,
        Some(t) => if time_fits(&t) {
            Some(t)
        } else {
            None
        },
    }
}

proof fn lemma_long_text_is_no_time(s: Seq<char>)
    requires
        s.len() > 30,
    ensures
        partial_time_of(s) is None,
{
    reveal(number_at);
}

impl PartialDate {
    /// Reads a date: see [`partial_date_of`]. A text that spells no date is
    /// given back as the error.
    pub fn parse(value: &str) -> (r: Result<PartialDate, ParserError>)
        ensures
            match r {
                Ok(d) => partial_date_of(value@) == Some(date_parts(d)) && date_writable(d),
                Err(e) => partial_date_of(value@) is None && e@
                    == ParserErrorView::InvalidPropertyValue(value@),
            },
    {
        let s = to_chars(value);
        match read_date(&s) {
            Some(d) => Ok(d),
            None => Err(ParserError::InvalidPropertyValue(value.to_owned())),
        }
    }
}

impl PartialTime {
    /// Reads a time: see [`partial_time_of`]. A text that spells no time is
    /// given back as the error.
    pub fn parse(value: &str) -> (r: Result<PartialTime, ParserError>)
        ensures
            match r {
                Ok(t) => partial_time_of(value@) == Some(time_parts(t)),
                Err(e) => partial_time_of(value@) is None && e@
                    == ParserErrorView::InvalidPropertyValue(value@),
            },
    {
        let s = to_chars(value);
        match read_partial_time(&s) {
            Some(t) => Ok(t),
            None => Err(ParserError::InvalidPropertyValue(value.to_owned())),
        }
    }
}

/// The place of the first `T` in a text, or its length.
pub open spec fn split_place(s: Seq<char>) -> int {
    crate::property::find_char(s, 0, 'T')
}

/// The date and time that `s` spells: a date in front of the first `T` and
/// a time behind it.
pub open spec fn partial_datetime_of(s: Seq<char>) -> Option<(DateParts, TimeParts)> {
    let t = split_place(s);
    if t >= s.len() {
        None
    } else {
        match (partial_date_of(s.subrange(0, t)), partial_time_of(s.subrange(t + 1, s.len() as int))) {
            (Some(d), Some(x)) => Some((d, x)),
            _ => None,
        }
    }
}

/// The date, the time or both that `s` spells. Without a `T` the text is a
/// date; else a date stands in front of the first `T`, unless nothing does,
/// and a time behind it, unless nothing does.
pub open spec fn partial_date_and_or_time_of(s: Seq<char>) -> Option<
    (Option<DateParts>, Option<TimeParts>),
> {
    let t = split_place(s);
    if t >= s.len() {
        match partial_date_of(s) {
            Some(d) => Some((Some(d), None)),
            None => None,
        }
    } else {
        let front = s.subrange(0, t);
        let back = s.subrange(t + 1, s.len() as int);
        if front.len() > 0 && partial_date_of(front) is None {
            None
        } else if back.len() > 0 && partial_time_of(back) is None {
            None
        } else {
            Some(
                (
                    if front.len() > 0 {
                        partial_date_of(front)
                    } else {
                        None
                    },
                    if back.len() > 0 {
                        partial_time_of(back)
                    } else {
                        None
                    },
                ),
            )
        }
    }
}

/// The text that is reported where `s` spells no date with a time: all of
/// it where it has no `T`, else what stands in front of the `T` where that is
/// no date, else what stands behind it.
pub open spec fn partial_datetime_fault(s: Seq<char>) -> Seq<char> {
    let t = split_place(s);
    if t >= s.len() {
        s
    } else if partial_date_of(s.subrange(0, t)) is None {
        s.subrange(0, t)
    } else {
        s.subrange(t + 1, s.len() as int)
    }
}

/// The text that is reported where `s` spells neither a date nor a time nor
/// both: all of it where it has no `T`, else what stands in front of the `T`
/// where that is there and is no date, else what stands behind it.
pub open spec fn partial_date_and_or_time_fault(s: Seq<char>) -> Seq<char> {
    let t = split_place(s);
    if t >= s.len() {
        s
    } else if t > 0 && partial_date_of(s.subrange(0, t)) is None {
        s.subrange(0, t)
    } else {
        s.subrange(t + 1, s.len() as int)
    }
}

fn find_t(s: &Vec<char>) -> (r: usize)
    ensures
        r == split_place(s@),
        r <= s.len(),
{
    let mut i: usize = 0;
    while i < s.len() && s[i] != 'T'
        invariant
            i <= s.len(),
            crate::property::find_char(s@, i as int, 'T') == crate::property::find_char(s@, 0, 'T'),
        decreases s.len() - i,
    {
        i += 1;
    }
    i
}

impl PartialDateTime {
    /// Reads a date and a time: see [`partial_datetime_of`].
    pub fn parse(value: &str) -> (r: Result<PartialDateTime, ParserError>)
        ensures
            match r {
                Ok(v) => partial_datetime_of(value@) == Some(
                    (date_parts(v.date), time_parts(v.time)),
                ),
                Err(e) => partial_datetime_of(value@) is None && e@
                    == ParserErrorView::InvalidPropertyValue(partial_datetime_fault(value@)),
            },
    {
        let s = to_chars(value);
        let t = find_t(&s);
        if t >= s.len() {
            return Err(ParserError::InvalidPropertyValue(value.to_owned()));
        }
        let front = string_of_range(&s, 0, t);
        let back = string_of_range(&s, t + 1, s.len());
        let date = match PartialDate::parse(front.as_str()) {
            Ok(d) => d,
            Err(e) => {
                return Err(e);
            },
        };
        match PartialTime::parse(back.as_str()) {
            Ok(time) => Ok(PartialDateTime { date, time }),
            Err(e) => Err(e),
        }
    }
}

impl PartialDateAndOrTime {
    /// Reads a date, a time or both: see [`partial_date_and_or_time_of`].
    pub fn parse(value: &str) -> (r: Result<PartialDateAndOrTime, ParserError>)
        ensures
            match r {
                Ok(v) => partial_date_and_or_time_of(value@) == Some(
                    (
                        match v.date {
                            Some(d) => Some(date_parts(d)),
                            None => None,
                        },
                        match v.time {
                            Some(t) => Some(time_parts(t)),
                            None => None,
                        },
                    ),
                ),
                Err(e) => partial_date_and_or_time_of(value@) is None && e@
                    == ParserErrorView::InvalidPropertyValue(
                    partial_date_and_or_time_fault(value@),
                ),
            },
    {
        let s = to_chars(value);
        let t = find_t(&s);
        if t >= s.len() {
            return match PartialDate::parse(value) {
                Ok(d) => Ok(PartialDateAndOrTime { date: Some(d), time: None }),
                Err(e) => Err(e),
            };
        }
        let front = string_of_range(&s, 0, t);
        let back = string_of_range(&s, t + 1, s.len());
        let date = if t > 0 {
            match PartialDate::parse(front.as_str()) {
                Ok(d) => Some(d),
                Err(e) => {
                    return Err(e);
                },
            }
        } else {
            None
        };
        let time = if t + 1 < s.len() {
            match PartialTime::parse(back.as_str()) {
                Ok(x) => Some(x),
                Err(e) => {
                    return Err(e);
                },
            }
        } else {
            None
        };
        Ok(PartialDateAndOrTime { date, time })
    }
}

/// The two digits of a number below 100.
pub open spec fn two_digits(n: nat) -> Seq<char> {
    seq![digit_char(n / 10), digit_char(n % 10)]
}

/// The four digits of a number below 10000.
pub open spec fn four_digits(n: nat) -> Seq<char> {
    seq![
        digit_char(n / 1000),
        digit_char((n / 100) % 10),
        digit_char((n / 10) % 10),
        digit_char(n % 10),
    ]
}

fn digit(n: u32) -> (r: char)
    requires
        n <= 9,
    ensures
        r == digit_char(n as nat),
{
    ((48 + n) as u8) as char
}

fn push_two(out: &mut String, n: u32)
    requires
        n <= 99,
    ensures
        final(out)@ == old(out)@ + two_digits(n as nat),
{
    out.push(digit(n / 10));
    out.push(digit(n % 10));
    assert(out@ =~= old(out)@ + two_digits(n as nat));
}

fn push_four(out: &mut String, n: u32)
    requires
        n <= 9999,
    ensures
        final(out)@ == old(out)@ + four_digits(n as nat),
{
    out.push(digit(n / 1000));
    out.push(digit((n / 100) % 10));
    out.push(digit((n / 10) % 10));
    out.push(digit(n % 10));
    assert(out@ =~= old(out)@ + four_digits(n as nat));
}

/// The text of a part that may be left out: its two digits behind `lead`,
/// or `absent`.
pub open spec fn part_or(part: Option<nat>, lead: Seq<char>, absent: Seq<char>) -> Seq<char> {
    match part {
        Some(n) => lead + two_digits(n),
        None => absent,
    }
}

/// The text of a date. With a year the parts are written with dashes
/// between them (`1985-04-12`), without a year behind two dashes (`--0412`),
/// where a third dash stands for a month that is left out.
pub open spec fn partial_date_text(d: DateParts) -> Seq<char> {
    match d.year {
        Some(y) => four_digits(y) + part_or(d.month, seq!['-'], Seq::empty()) + part_or(
            d.day,
            seq!['-'],
            Seq::empty(),
        ),
        None => seq!['-', '-'] + part_or(d.month, Seq::empty(), seq!['-']) + part_or(
            d.day,
            Seq::empty(),
            Seq::empty(),
        ),
    }
}

/// The size of a number.
pub open spec fn magnitude(n: int) -> nat {
    if n < 0 {
        (-n) as nat
    } else {
        n as nat
    }
}

/// The text of an offset from UTC: `Z` for no offset at all, else a sign,
/// the hours and, where they are given, the minutes.
pub open spec fn zone_text(hour: Option<int>, minute: Option<int>) -> Seq<char> {
    if hour == Some(0int) && minute == Some(0int) {
        seq!['Z']
    } else if hour is Some || minute is Some {
        let h: int = match hour {
            Some(x) => x,
            None => 0,
        };
        seq![if h >= 0 {
            '+'
        } else {
            '-'
        }] + two_digits(magnitude(h)) + (match minute {
            Some(m) => two_digits(magnitude(m)),
            None => Seq::empty(),
        })
    } else {
        Seq::empty()
    }
}

/// The text of a time: hours, minutes and seconds without anything between
/// them, where a dash stands for hours that are left out and a second dash
/// for minutes that are left out with them; then the offset.
pub open spec fn partial_time_text(t: TimeParts) -> Seq<char> {
    (match t.hour {
        Some(h) => two_digits(h) + part_or(t.minute, Seq::empty(), Seq::empty()),
        None => seq!['-'] + part_or(t.minute, Seq::empty(), seq!['-']),
    }) + part_or(t.second, Seq::empty(), Seq::empty()) + zone_text(t.offset_hour, t.offset_minute)
}

/// Whether a time can be written: its parts have at most two digits, the
/// hours and minutes of its offset have the same sign, and no seconds stand
/// behind hours without minutes.
pub open spec fn time_writable(t: PartialTime) -> bool {
    &&& (t.hour matches Some(h) ==> h <= 99)
    &&& (t.minute matches Some(m) ==> m <= 99)
    &&& (t.second matches Some(x) ==> x <= 99)
    &&& (t.offset_hour matches Some(h) ==> -99 <= h <= 99)
    &&& (t.offset_minute matches Some(m) ==> -99 <= m <= 99)
    &&& (t.offset_hour is Some && t.offset_minute is Some ==> (t.offset_hour->0 >= 0
        && t.offset_minute->0 >= 0) || (t.offset_hour->0 <= 0 && t.offset_minute->0 <= 0))
    &&& !(t.hour is Some && t.minute is None && t.second is Some)
}

fn push_part_or(out: &mut String, part: Option<u32>, lead: Option<char>, absent: Option<char>)
    requires
        part matches Some(n) ==> n <= 99,
    ensures
        final(out)@ == old(out)@ + part_or(
            match part {
                Some(n) => Some(n as nat),
                None => None,
            },
            match lead {
                Some(c) => seq![c],
                None => Seq::empty(),
            },
            match absent {
                Some(c) => seq![c],
                None => Seq::empty(),
            },
        ),
{
    match part {
        Some(n) => {
            match lead {
                Some(c) => {
                    out.push(c);
                },
                None => {},
            }
            push_two(out, n);
            assert(out@ =~= old(out)@ + ((match lead {
                Some(c) => seq![c],
                None => Seq::empty(),
            }) + two_digits(n as nat)));
        },
        None => {
            match absent {
                Some(c) => {
                    out.push(c);
                },
                None => {},
            }
            assert(out@ =~= old(out)@ + (match absent {
                Some(c) => seq![c],
                None => Seq::<char>::empty(),
            }));
        },
    }
}

fn widen(v: Option<u8>) -> (r: Option<u32>)
    ensures
        match (r, v) {
            (Some(a), Some(b)) => a == b,
            (None, None) => true,
            _ => false,
        },
{
    match v {
        Some(n) => Some(n as u32),
        None => None,
    }
}

fn size(n: i8) -> (r: u32)
    requires
        -99 <= n <= 99,
    ensures
        r == magnitude(n as int),
        r <= 99,
{
    if n < 0 {
        (-n) as u32
    } else {
        n as u32
    }
}

impl PartialDate {
    /// The value type of a date.
    pub fn value_type(&self) -> (r: &'static str)
        ensures
            r@ == "DATE"@,
    {
        "DATE"
    }

    /// The text of the date: see [`partial_date_text`].
    pub fn value(&self) -> (r: String)
        requires
            date_writable(*self),
        ensures
            r@ == partial_date_text(date_parts(*self)),
    {
        let mut out = String::new();
        match self.year {
            Some(y) => {
                push_four(&mut out, y as u32);
                push_part_or(&mut out, self.month, Some('-'), None);
                push_part_or(&mut out, self.day, Some('-'), None);
            },
            None => {
                out.push('-');
                out.push('-');
                push_part_or(&mut out, self.month, None, Some('-'));
                push_part_or(&mut out, self.day, None, None);
            },
        }
        assert(out@ =~= partial_date_text(date_parts(*self)));
        out
    }
}

fn push_zone(out: &mut String, hour: Option<i8>, minute: Option<i8>)
    requires
        hour matches Some(h) ==> -99 <= h <= 99,
        minute matches Some(m) ==> -99 <= m <= 99,
    ensures
        final(out)@ == old(out)@ + zone_text(
            match hour {
                Some(h) => Some(h as int),
                None => None,
            },
            match minute {
                Some(m) => Some(m as int),
                None => None,
            },
        ),
{
    let utc = match (hour, minute) {
        (Some(h), Some(m)) => h == 0 && m == 0,
        _ => false,
    };
    if utc {
        out.push('Z');
        assert(out@ =~= old(out)@ + seq!['Z']);
    } else if hour.is_some() || minute.is_some() {
        let h: i8 = match hour {
            Some(x) => x,
            None => 0,
        };
        if h >= 0 {
            out.push('+');
        } else {
            out.push('-');
        }
        push_two(out, size(h));
        match minute {
            Some(m) => {
                push_two(out, size(m));
            },
            None => {},
        }
        assert(out@ =~= old(out)@ + (seq![if h >= 0 {
            '+'
        } else {
            '-'
        }] + two_digits(magnitude(h as int)) + (match minute {
            Some(m) => two_digits(magnitude(m as int)),
            None => Seq::empty(),
        })));
    } else {
        assert(out@ =~= old(out)@ + Seq::<char>::empty());
    }
}

impl PartialTime {
    /// The value type of a time.
    pub fn value_type(&self) -> (r: &'static str)
        ensures
            r@ == "TIME"@,
    {
        "TIME"
    }

    /// The text of the time: see [`partial_time_text`].
    pub fn value(&self) -> (r: String)
        requires
            time_writable(*self),
        ensures
            r@ == partial_time_text(time_parts(*self)),
    {
        let mut out = String::new();
        match self.hour {
            Some(h) => {
                push_two(&mut out, h as u32);
                push_part_or(&mut out, widen(self.minute), None, None);
            },
            None => {
                out.push('-');
                push_part_or(&mut out, widen(self.minute), None, Some('-'));
            },
        }
        let ghost front = out@;
        push_part_or(&mut out, widen(self.second), None, None);
        push_zone(&mut out, self.offset_hour, self.offset_minute);
        proof {
            let t = time_parts(*self);
            assert(front =~= (match t.hour {
                Some(h) => two_digits(h) + part_or(t.minute, Seq::empty(), Seq::empty()),
                None => seq!['-'] + part_or(t.minute, Seq::empty(), seq!['-']),
            }));
            assert(out@ =~= partial_time_text(t));
        }
        out
    }
}

impl PartialDateTime {
    /// The value type of a date with a time.
    pub fn value_type(&self) -> (r: &'static str)
        ensures
            r@ == "DATE-TIME"@,
    {
        "DATE-TIME"
    }

    /// The text of the date and the time, with a `T` between them.
    pub fn value(&self) -> (r: String)
        requires
            date_writable(self.date),
            time_writable(self.time),
        ensures
            r@ == partial_date_text(date_parts(self.date)) + seq!['T'] + partial_time_text(
                time_parts(self.time),
            ),
    {
        let mut out = self.date.value();
        out.push('T');
        let time = self.time.value();
        out.append(time.as_str());
        assert(out@ =~= partial_date_text(date_parts(self.date)) + seq!['T'] + partial_time_text(
            time_parts(self.time),
        ));
        out
    }
}

impl PartialDateAndOrTime {
    /// The value type of a date, a time or both.
    pub fn value_type(&self) -> (r: &'static str)
        ensures
            r@ == "DATE-AND-OR-TIME"@,
    {
        "DATE-AND-OR-TIME"
    }

    /// The text of the value: the date, where there is one, a `T`, and the
    /// time, where there is one.
    pub fn value(&self) -> (r: String)
        requires
            self.date matches Some(d) ==> date_writable(d),
            self.time matches Some(t) ==> time_writable(t),
        ensures
            r@ == (match self.date {
                Some(d) => partial_date_text(date_parts(d)),
                None => Seq::empty(),
            }) + seq!['T'] + (match self.time {
                Some(t) => partial_time_text(time_parts(t)),
                None => Seq::empty(),
            }),
    {
        let mut out = match &self.date {
            Some(d) => d.value(),
            None => String::new(),
        };
        let ghost front = out@;
        out.push('T');
        match &self.time {
            Some(t) => {
                let time = t.value();
                out.append(time.as_str());
                assert(out@ =~= front + seq!['T'] + partial_time_text(time_parts(*t)));
            },
            None => {
                assert(out@ =~= front + seq!['T'] + Seq::<char>::empty());
            },
        }
        out
    }
}

} // verus!
