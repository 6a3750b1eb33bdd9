//! Durations and their text form.
//!
//! A duration is written as an optional sign, the letter `P`, and then either a
//! number of weeks (`P2W`) or a number of days followed by an optional time part
//! (`P1DT2H30M`). Every part may be left out.
use crate::text::to_chars;
use vstd::prelude::*;

verus! {

/// The longest duration that can be held, in seconds.
pub const MAX_DURATION_SECONDS: i64 = 9_223_372_036_854_775;

/// A signed span of time in whole seconds.
#[derive(Debug, Clone, Copy, PartialEq, Eq, Structural, Hash)]
pub struct Duration {
    seconds: i64,
}

impl View for Duration {
    type V = int;

    /// The length in seconds.
    open spec fn view(&self) -> int {
        self.value()
    }
}

impl Duration {
    #[verifier::type_invariant]
    spec fn inv(self) -> bool {
        -MAX_DURATION_SECONDS <= self.seconds <= MAX_DURATION_SECONDS
    }

    /// The length in seconds.
    pub closed spec fn value(&self) -> int {
        self.seconds as int
    }

    /// The duration of `seconds` seconds, if it can be held.
    pub fn seconds(seconds: i64) -> (r: Option<Duration>)
        ensures
            r is Some <==> -MAX_DURATION_SECONDS <= seconds <= MAX_DURATION_SECONDS,
            r matches Some(d) ==> d.value() == seconds,
    {
        if -MAX_DURATION_SECONDS <= seconds && seconds <= MAX_DURATION_SECONDS {
            Some(Duration { seconds })
        } else {
            None
        }
    }

    /// The empty duration.
    pub fn zero() -> (r: Duration)
        ensures
            r.value() == 0,
    {
        Duration { seconds: 0 }
    }

    /// The length in seconds.
    pub fn num_seconds(&self) -> (r: i64)
        ensures
            r == self.value(),
            -MAX_DURATION_SECONDS <= r <= MAX_DURATION_SECONDS,
    {
        proof {
            use_type_invariant(self);
        }
        self.seconds
    }
}

/// A text that is no duration, or a duration too long to be held.
#[derive(Debug, PartialEq, Eq)]
pub struct InvalidDuration(pub String);

impl View for InvalidDuration {
    type V = Seq<char>;

    open spec fn view(&self) -> Seq<char> {
        self.0@
    }
}

/// Whether `c` is one of the ten digits.
pub open spec fn is_digit(c: char) -> bool {
    '0' <= c && c <= '9'
}

/// The place behind the digits that start at `from`.
pub open spec fn digits_end(s: Seq<char>, from: int) -> int
    decreases s.len() - from,
{
    if from < 0 || from >= s.len() || !is_digit(s[from]) {
        from
    } else {
        digits_end(s, from + 1)
    }
}

/// The number that the digits `s[from..to]` spell.
pub open spec fn decimal(s: Seq<char>, from: int, to: int) -> nat
    decreases to - from,
{
    if to <= from {
        0
    } else {
        decimal(s, from, to - 1) * 10 + (s[to - 1] as u32 - '0' as u32) as nat
    }
}

/// Reads one part of a duration at `pos`: digits followed by the letter
/// `unit`. Gives the number and the place behind the letter, or nothing and
/// `pos` itself where no such part stands there.
pub open spec fn read_part(s: Seq<char>, pos: int, unit: char) -> (Option<nat>, int) {
    let end = digits_end(s, pos);
    if pos < end && end < s.len() && s[end] == unit {
        (Some(decimal(s, pos, end)), end + 1)
    } else {
        (None, pos)
    }
}

/// The number that a part stands for; a part that is left out counts as zero.
pub open spec fn part_value(part: Option<nat>) -> nat {
    match part {
        Some(n) => n,
        None => 0,
    }
}

/// The time part of a duration, read at `pos`: hours, minutes and seconds, in
/// this order, each of which may be left out. Gives its length in seconds and
/// the place behind it.
pub open spec fn time_parts(s: Seq<char>, pos: int) -> (nat, int) {
    let (hours, after_hours) = read_part(s, pos, 'H');
    let (minutes, after_minutes) = read_part(s, after_hours, 'M');
    let (seconds, after_seconds) = read_part(s, after_minutes, 'S');
    (
        part_value(hours) * 3600 + part_value(minutes) * 60 + part_value(seconds),
        after_seconds,
    )
}

/// The length in seconds of the unsigned duration that `s` spells from `pos`
/// on, where `pos` stands behind the letter `P`; nothing where the rest of `s`
/// is no duration.
pub open spec fn magnitude(s: Seq<char>, pos: int) -> Option<nat> {
    let (weeks, after_weeks) = read_part(s, pos, 'W');
    if weeks is Some {
        if after_weeks == s.len() {
            Some(part_value(weeks) * 604800)
        } else {
            None
        }
    } else {
        let (days, after_days) = read_part(s, pos, 'D');
        if after_days == s.len() {
            Some(part_value(days) * 86400)
        } else if s[after_days] == 'T' {
            let (time, end) = time_parts(s, after_days + 1);
            if end == s.len() {
                Some(part_value(days) * 86400 + time)
            } else {
                None
            }
        } else {
            None
        }
    }
}

/// The length in seconds of the duration that `s` spells; nothing where `s` is
/// no duration.
pub open spec fn duration_value(s: Seq<char>) -> Option<int> {
    let signed = s.len() > 0 && (s[0] == '+' || s[0] == '-');
    let start: int = if signed {
        1
    } else {
        0
    };
    if start >= s.len() || s[start] != 'P' {
        None
    } else {
        match magnitude(s, start + 1) {
            None => None,
            Some(m) => if s[0] == '-' {
                Some(-(m as int))
            } else {
                Some(m as int)
            },
        }
    }
}

proof fn lemma_digits_end(s: Seq<char>, from: int)
    requires
        0 <= from <= s.len(),
    ensures
        from <= digits_end(s, from) <= s.len(),
        forall|j: int| from <= j < digits_end(s, from) ==> is_digit(#[trigger] s[j]),
    decreases s.len() - from,
{
    if from < s.len() && is_digit(s[from]) {
        lemma_digits_end(s, from + 1);
    }
}

proof fn lemma_decimal_grows(s: Seq<char>, from: int, mid: int, to: int)
    requires
        0 <= from <= mid <= to <= s.len(),
        forall|j: int| from <= j < to ==> is_digit(#[trigger] s[j]),
    ensures
        decimal(s, from, mid) <= decimal(s, from, to),
    decreases to - mid,
{
    if mid < to {
        lemma_decimal_grows(s, from, mid, to - 1);
    }
}

/// One part of a duration as it was read.
enum Part {
    /// No part stands at the place.
    Absent,
    /// A part with this number ends in front of this place.
    Present(u64, usize),
    /// A part stands at the place and its number is too large.
    TooLarge,
}

fn read_part_at(s: &Vec<char>, pos: usize, unit: char) -> (r: Part)
    requires
        pos <= s.len(),
    ensures
        match r {
            Part::Absent => read_part(s@, pos as int, unit) == (None::<nat>, pos as int),
            Part::Present(n, next) => read_part(s@, pos as int, unit) == (
                Some(n as nat),
                next as int,
            ) && n <= MAX_DURATION_SECONDS && pos < next <= s.len(),
            Part::TooLarge => read_part(s@, pos as int, unit).0 is Some && part_value(
                read_part(s@, pos as int, unit).0,
            ) > MAX_DURATION_SECONDS,
        },
{
    let mut end: usize = pos;
    let mut value: u64 = 0;
    let mut fits = true;
    proof {
        lemma_digits_end(s@, pos as int);
    }
    while end < s.len() && s[end] >= '0' && s[end] <= '9'
        invariant
            pos <= end <= s.len(),
            digits_end(s@, end as int) == digits_end(s@, pos as int),
            forall|j: int| pos <= j < end ==> is_digit(#[trigger] s@[j]),
            fits ==> value == decimal(s@, pos as int, end as int) && value <= MAX_DURATION_SECONDS,
            !fits ==> exists|k: int|
                pos <= k <= end && decimal(s@, pos as int, k) > MAX_DURATION_SECONDS,
        decreases s.len() - end,
    {
        let digit = (s[end] as u32 - '0' as u32) as u64;
        end += 1;
        if fits {
            let grown = value * 10 + digit;
            if grown > MAX_DURATION_SECONDS as u64 {
                fits = false;
                assert(decimal(s@, pos as int, end as int) == grown);
            } else {
                value = grown;
            }
        }
    }
    if pos < end && end < s.len() && s[end] == unit {
        if fits {
            Part::Present(value, end + 1)
        } else {
            proof {
                let k = choose|k: int|
                    pos <= k <= end && decimal(s@, pos as int, k) > MAX_DURATION_SECONDS;
                lemma_decimal_grows(s@, pos as int, k, end as int);
            }
            Part::TooLarge
        }
    } else {
        Part::Absent
    }
}

/// A part that may be left out: its number, or zero, and the place behind it;
/// nothing where its number is too large.
fn optional_part(s: &Vec<char>, pos: usize, unit: char) -> (r: Option<(u64, usize)>)
    requires
        pos <= s.len(),
    ensures
        match r {
            Some((n, next)) => part_value(read_part(s@, pos as int, unit).0) == n && read_part(
                s@,
                pos as int,
                unit,
            ).1 == next && n <= MAX_DURATION_SECONDS && pos <= next <= s.len(),
            None => part_value(read_part(s@, pos as int, unit).0) > MAX_DURATION_SECONDS,
        },
{
    match read_part_at(s, pos, unit) {
        Part::Absent => Some((0, pos)),
        Part::Present(n, next) => Some((n, next)),
        Part::TooLarge => None,
    }
}

/// The time part at `pos`: see [`time_parts`]. Nothing where one of its
/// numbers is too large.
fn read_time(s: &Vec<char>, pos: usize) -> (r: Option<(i128, usize)>)
    requires
        pos <= s.len(),
    ensures
        match r {
            Some((t, end)) => time_parts(s@, pos as int) == (t as nat, end as int) && 0 <= t
                <= 3661 * MAX_DURATION_SECONDS && end <= s.len(),
            None => time_parts(s@, pos as int).0 > MAX_DURATION_SECONDS,
        },
{
    let (hours, after_hours) = match optional_part(s, pos, 'H') {
        Some(p) => p,
        None => {
            return None;
        },
    };
    let (minutes, after_minutes) = match optional_part(s, after_hours, 'M') {
        Some(p) => p,
        None => {
            return None;
        },
    };
    let (seconds, after_seconds) = match optional_part(s, after_minutes, 'S') {
        Some(p) => p,
        None => {
            return None;
        },
    };
    Some((hours as i128 * 3600 + minutes as i128 * 60 + seconds as i128, after_seconds))
}

/// The unsigned duration behind the letter `P`: see [`magnitude`]. The outer
/// `None` stands for a number that is too large.
fn read_magnitude(s: &Vec<char>, pos: usize) -> (r: Option<Option<i128>>)
    requires
        pos <= s.len(),
    ensures
        match r {
            Some(Some(m)) => magnitude(s@, pos as int) == Some(m as nat) && 0 <= m,
            Some(None) => magnitude(s@, pos as int) is None,
            None => match magnitude(s@, pos as int) {
                Some(m) => m > MAX_DURATION_SECONDS,
                None => true,
            },
        },
{
    let n = s.len();
    match read_part_at(s, pos, 'W') {
        Part::TooLarge => None,
        Part::Present(weeks, next) => {
            if next == n {
                Some(Some(weeks as i128 * 604800))
            } else {
                Some(None)
            }
        },
        Part::Absent => {
            let (days, after_days) = match optional_part(s, pos, 'D') {
                Some(p) => p,
                None => {
                    return None;
                },
            };
            if after_days == n {
                Some(Some(days as i128 * 86400))
            } else if s[after_days] == 'T' {
                match read_time(s, after_days + 1) {
                    None => None,
                    Some((time, end)) => {
                        if end == n {
                            Some(Some(days as i128 * 86400 + time))
                        } else {
                            Some(None)
                        }
                    },
                }
            } else {
                Some(None)
            }
        },
    }
}

/// Reads a duration: see [`duration_value`]. A text that is no duration is
/// given back as the error, and so is one that spells more than
/// [`MAX_DURATION_SECONDS`] seconds.
pub fn parse_duration(string: &str) -> (r: Result<Duration, InvalidDuration>)
    ensures
        match r {
            Ok(d) => duration_value(string@) == Some(d.value()) && -MAX_DURATION_SECONDS
                <= d.value() <= MAX_DURATION_SECONDS,
            Err(e) => e@ == string@ && match duration_value(string@) {
                None => true,
                Some(v) => v < -MAX_DURATION_SECONDS || v > MAX_DURATION_SECONDS,
            },
        },
{
    let s = to_chars(string);
    let n = s.len();
    let signed = n > 0 && (s[0] == '+' || s[0] == '-');
    let start: usize = if signed {
        1
    } else {
        0
    };
    if start >= n || s[start] != 'P' {
        return Err(InvalidDuration(string.to_owned()));
    }
    let negative = s[0] == '-';
    match read_magnitude(&s, start + 1) {
        Some(Some(total)) => {
            if total > MAX_DURATION_SECONDS as i128 {
                Err(InvalidDuration(string.to_owned()))
            } else if negative {
                Ok(Duration { seconds: -(total as i64) })
            } else {
                Ok(Duration { seconds: total as i64 })
            }
        },
        _ => Err(InvalidDuration(string.to_owned())),
    }
}

/// The character of the digit `d`.
pub open spec fn digit_char(d: nat) -> char {
    (('0' as u32 + d) as u32) as char
}

/// The decimal digits of `n`, without leading zeros.
pub open spec fn digits(n: nat) -> Seq<char>
    decreases n,
{
    if n < 10 {
        seq![digit_char(n)]
    } else {
        digits(n / 10).push(digit_char(n % 10))
    }
}

/// One part of a duration: the digits of `n` and the letter `unit`, or
/// nothing where `n` is zero.
pub open spec fn part_text(n: nat, unit: char) -> Seq<char> {
    if n == 0 {
        Seq::empty()
    } else {
        digits(n).push(unit)
    }
}

/// The text of a duration of `v` seconds: a minus sign where it is negative,
/// the letter `P`, and then whole weeks where it is a number of weeks, else
/// days and, behind the letter `T`, hours, minutes and seconds; parts that are
/// zero are left out, and the empty duration is written `PT0S`.
pub open spec fn duration_text(v: int) -> Seq<char> {
    let m: nat = if v < 0 {
        (-v) as nat
    } else {
        v as nat
    };
    let sign: Seq<char> = if v < 0 {
        seq!['-']
    } else {
        Seq::empty()
    };
    let rest = m % 86400;
    sign + seq!['P'] + (if m == 0 {
        seq!['T', '0', 'S']
    } else if m % 604800 == 0 {
        part_text(m / 604800, 'W')
    } else {
        part_text(m / 86400, 'D') + (if rest == 0 {
            Seq::empty()
        } else {
            seq!['T'] + part_text(rest / 3600, 'H') + part_text((rest % 3600) / 60, 'M')
                + part_text(rest % 60, 'S')
        })
    })
}

/// Appends the decimal digits of `n` to `out`.
fn push_digits(out: &mut String, n: u64)
    ensures
        final(out)@ == old(out)@ + digits(n as nat),
{
    let mut stack: Vec<char> = Vec::new();
    let mut rest: u64 = n;
    assert(digits(n as nat) =~= digits(rest as nat) + stack@.reverse());
    while rest >= 10
        invariant
            digits(n as nat) == digits(rest as nat) + stack@.reverse(),
        decreases rest,
    {
        let ghost before = stack@;
        let ghost r0 = rest;
        let d = rest % 10;
        let c = ((48 + d) as u8) as char;
        assert(c == digit_char(d as nat));
        stack.push(c);
        rest = rest / 10;
        proof {
            assert(stack@.reverse() =~= seq![c] + before.reverse());
            assert(digits(r0 as nat) =~= digits(rest as nat).push(c));
            assert(digits(rest as nat) + stack@.reverse() =~= digits(r0 as nat) + before.reverse());
        }
    }
    let first = ((48 + rest) as u8) as char;
    assert(first == digit_char(rest as nat));
    out.push(first);
    let ghost base = out@;
    let ghost all = stack@;
    proof {
        assert(digits(n as nat) =~= seq![first] + all.reverse());
        assert(all.reverse().take(0) =~= Seq::<char>::empty());
        assert(out@ =~= base + all.reverse().take(0));
        assert(stack@ =~= all.take(stack.len() as int));
    }
    while stack.len() > 0
        invariant
            stack.len() <= all.len(),
            stack@ == all.take(stack.len() as int),
            out@ == base + all.reverse().take(all.len() - stack.len()),
        decreases stack.len(),
    {
        let ghost k = all.len() - stack.len();
        let c = stack.pop().unwrap();
        out.push(c);
        proof {
            assert(c == all[stack.len() as int]);
            assert(all.reverse()[k] == c);
            assert(all.reverse().take(k + 1) =~= all.reverse().take(k).push(c));
            assert(stack@ =~= all.take(stack.len() as int));
        }
    }
    proof {
        assert(all.reverse().take(all.len() as int) =~= all.reverse());
        assert(out@ =~= old(out)@ + digits(n as nat));
    }
}

/// Appends one part of a duration to `out`: see [`part_text`].
fn push_part(out: &mut String, n: u64, unit: char)
    ensures
        final(out)@ == old(out)@ + part_text(n as nat, unit),
{
    if n > 0 {
        push_digits(out, n);
        out.push(unit);
        assert(out@ =~= old(out)@ + part_text(n as nat, unit));
    } else {
        assert(out@ =~= old(out)@ + part_text(n as nat, unit));
    }
}

impl Duration {
    /// The text of the duration: see [`duration_text`].
    pub fn format(&self) -> (r: String)
        ensures
            r@ == duration_text(self.value()),
    {
        proof {
            use_type_invariant(self);
        }
        let mut out = String::new();
        let m: u64 = if self.seconds < 0 {
            out.push('-');
            (-self.seconds) as u64
        } else {
            self.seconds as u64
        };
        let ghost sign = out@;
        out.push('P');
        if m == 0 {
            out.push('T');
            out.push('0');
            out.push('S');
            assert(out@ =~= sign + seq!['P'] + seq!['T', '0', 'S']);
        } else if m % 604800 == 0 {
            push_part(&mut out, m / 604800, 'W');
            assert(out@ =~= sign + seq!['P'] + part_text((m / 604800) as nat, 'W'));
        } else {
            let rest = m % 86400;
            push_part(&mut out, m / 86400, 'D');
            if rest != 0 {
                out.push('T');
                push_part(&mut out, rest / 3600, 'H');
                push_part(&mut out, (rest % 3600) / 60, 'M');
                push_part(&mut out, rest % 60, 'S');
                assert(out@ =~= sign + seq!['P'] + (part_text((m / 86400) as nat, 'D') + (seq!['T']
                    + part_text((rest / 3600) as nat, 'H') + part_text(
                    ((rest % 3600) / 60) as nat,
                    'M',
                ) + part_text((rest % 60) as nat, 'S'))));
            } else {
                assert(out@ =~= sign + seq!['P'] + (part_text((m / 86400) as nat, 'D')
                    + Seq::<char>::empty()));
            }
        }
        out
    }
}

} // verus!
