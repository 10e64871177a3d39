//! `HH:MM:SS(.mmm)` / `MM:SS(.mmm)` / `SS(.mmm)` timecodes.

use crate::text::{chars_of, string_from_chars};
use crate::time::Time;
use vstd::prelude::*;

verus! {

/// Why a timecode was refused.
#[derive(Clone, Debug, PartialEq, Eq)]
pub enum TimecodeError {
    Empty,
    Malformed(String),
    Overflow(String),
}

/// The kind of a refusal, without the offending text.
#[derive(Clone, Copy, Debug, PartialEq, Eq, Structural)]
pub enum TimecodeFault {
    Empty,
    Malformed,
    Overflow,
}

/// Unicode `White_Space`, the characters `str::trim` removes.
pub open spec fn is_white_space(c: char) -> bool {
    ||| ('\t' <= c && c <= '\r')
    ||| c == ' '
    ||| c == '\u{85}'
    ||| c == '\u{A0}'
    ||| c == '\u{1680}'
    ||| ('\u{2000}' <= c && c <= '\u{200A}')
    ||| c == '\u{2028}'
    ||| c == '\u{2029}'
    ||| c == '\u{202F}'
    ||| c == '\u{205F}'
    ||| c == '\u{3000}'
}

/// The first index at or after `i` that is not white space (or `s.len()`).
pub open spec fn content_start(s: Seq<char>, i: int) -> int
    decreases s.len() - i,
{
    if i < 0 || i >= s.len() {
        s.len() as int
    } else if is_white_space(s[i]) {
        content_start(s, i + 1)
    } else {
        i
    }
}

/// One past the last index before `j` (and after `lo`) that is not white
/// space (or `lo`).
pub open spec fn content_end(s: Seq<char>, lo: int, j: int) -> int
    decreases j - lo,
{
    if j <= lo || j > s.len() {
        lo
    } else if is_white_space(s[j - 1]) {
        content_end(s, lo, j - 1)
    } else {
        j
    }
}

/// `s` without leading and trailing white space.
pub open spec fn trimmed(s: Seq<char>) -> Seq<char> {
    let a = content_start(s, 0);
    s.subrange(a, content_end(s, a, s.len() as int))
}

/// The first index at or after `i` holding `c` (or `s.len()`).
pub open spec fn index_from(s: Seq<char>, c: char, i: int) -> int
    decreases s.len() - i,
{
    if i < 0 || i >= s.len() {
        s.len() as int
    } else if s[i] == c {
        i
    } else {
        index_from(s, c, i + 1)
    }
}

/// How many times `c` occurs at or after `i`.
pub open spec fn count_from(s: Seq<char>, c: char, i: int) -> nat
    decreases s.len() - i,
{
    if i < 0 || i >= s.len() {
        0
    } else {
        (if s[i] == c {
            1nat
        } else {
            0nat
        }) + count_from(s, c, i + 1)
    }
}

/// The part of `s` before its first `c`.
pub open spec fn before_first(s: Seq<char>, c: char) -> Seq<char> {
    s.subrange(0, index_from(s, c, 0))
}

/// The part of `s` after its first `c` (empty when there is none).
pub open spec fn after_first(s: Seq<char>, c: char) -> Seq<char> {
    let i = index_from(s, c, 0);
    if i < s.len() {
        s.subrange(i + 1, s.len() as int)
    } else {
        Seq::empty()
    }
}

pub open spec fn is_digit(c: char) -> bool {
    '0' <= c && c <= '9'
}

pub open spec fn all_digits(s: Seq<char>) -> bool {
    forall|i: int| 0 <= i < s.len() ==> is_digit(#[trigger] s[i])
}

/// The decimal number the digits of `s` spell.
pub open spec fn digits_value(s: Seq<char>) -> nat
    decreases s.len(),
{
    if s.len() == 0 {
        0
    } else {
        digits_value(s.drop_last()) * 10 + ((s.last() as int) - ('0' as int)) as nat
    }
}

/// A component is one or more ASCII digits whose value fits in `i64`.
pub open spec fn component_value(s: Seq<char>) -> Option<int> {
    if s.len() > 0 && all_digits(s) && digits_value(s) <= i64::MAX {
        Some(digits_value(s) as int)
    } else {
        None
    }
}

/// `10^n`.
pub open spec fn pow10(n: nat) -> nat
    decreases n,
{
    if n == 0 {
        1
    } else {
        10 * pow10((n - 1) as nat)
    }
}

/// The milliseconds that the seconds component `sec` spells.
pub open spec fn seconds_millis(sec: Seq<char>) -> Result<int, TimecodeFault> {
    let dot = index_from(sec, '.', 0);
    let whole = sec.subrange(0, dot);
    let fraction = after_first(sec, '.');
    if dot < sec.len() && (fraction.len() == 0 || fraction.len() > 3 || !all_digits(fraction)) {
        Err(TimecodeFault::Malformed)
    } else {
        let millis = if dot < sec.len() {
            digits_value(fraction) * pow10((3 - fraction.len()) as nat)
        } else {
            0
        };
        match component_value(whole) {
            None => Err(TimecodeFault::Malformed),
            Some(seconds) => if seconds * 1000 + millis > i64::MAX {
                Err(TimecodeFault::Overflow)
            } else {
                Ok(seconds * 1000 + millis)
            },
        }
    }
}

/// `total + component * unit`, or the reason it cannot be formed.
pub open spec fn add_component(
    total: Result<int, TimecodeFault>,
    component: Seq<char>,
    unit: int,
) -> Result<int, TimecodeFault> {
    match total {
        Err(f) => Err(f),
        Ok(total) => match component_value(component) {
            None => Err(TimecodeFault::Malformed),
            Some(value) => if total + value * unit > i64::MAX {
                Err(TimecodeFault::Overflow)
            } else {
                Ok(total + value * unit)
            },
        },
    }
}

/// The value in milliseconds of a timecode: after trimming, one to three
/// `:`-separated non-negative integer components (hours, minutes, seconds,
/// the last ones first), the seconds optionally followed by `.` and one to
/// three fraction digits.
pub open spec fn timecode_millis(input: Seq<char>) -> Result<int, TimecodeFault> {
    let t = trimmed(input);
    let colons = count_from(t, ':', 0);
    if t.len() == 0 {
        Err(TimecodeFault::Empty)
    } else if colons > 2 {
        Err(TimecodeFault::Malformed)
    } else if colons == 0 {
        seconds_millis(t)
    } else if colons == 1 {
        add_component(seconds_millis(after_first(t, ':')), before_first(t, ':'), 60_000)
    } else {
        let rest = after_first(t, ':');
        add_component(
            add_component(seconds_millis(after_first(rest, ':')), before_first(rest, ':'), 60_000),
            before_first(t, ':'),
            3_600_000,
        )
    }
}

fn is_white_space_char(c: char) -> (b: bool)
    ensures
        b == is_white_space(c),
{
    ('\t' <= c && c <= '\r') || c == ' ' || c == '\u{85}' || c == '\u{A0}' || c == '\u{1680}' || (
    '\u{2000}' <= c && c <= '\u{200A}') || c == '\u{2028}' || c == '\u{2029}' || c == '\u{202F}'
        || c == '\u{205F}' || c == '\u{3000}'
}

/// The characters of `v` in `[lo, hi)`.
fn slice_chars(v: &Vec<char>, lo: usize, hi: usize) -> (r: Vec<char>)
    requires
        lo <= hi <= v@.len(),
    ensures
        r@ == v@.subrange(lo as int, hi as int),
{
    let mut r: Vec<char> = Vec::new();
    let mut i = lo;
    while i < hi
        invariant
            lo <= i <= hi <= v@.len(),
            r@ == v@.subrange(lo as int, i as int),
        decreases hi - i,
    {
        r.push(v[i]);
        i = i + 1;
    }
    r
}

/// `v` without leading and trailing white space.
pub(crate) fn trim_chars(v: &Vec<char>) -> (r: Vec<char>)
    ensures
        r@ == trimmed(v@),
{
    let n = v.len();
    let mut a: usize = 0;
    while a < n && is_white_space_char(v[a])
        invariant
            a <= n == v@.len(),
            content_start(v@, a as int) == content_start(v@, 0),
        decreases n - a,
    {
        a = a + 1;
    }
    let mut b: usize = n;
    while b > a && is_white_space_char(v[b - 1])
        invariant
            a <= b <= n == v@.len(),
            content_end(v@, a as int, b as int) == content_end(v@, a as int, n as int),
        decreases b - a,
    {
        b = b - 1;
    }
    slice_chars(v, a, b)
}

/// The first index of `c` in `v` (or its length).
fn index_of(v: &Vec<char>, c: char) -> (r: usize)
    ensures
        r == index_from(v@, c, 0),
        r <= v@.len(),
{
    let n = v.len();
    let mut i: usize = 0;
    while i < n && v[i] != c
        invariant
            i <= n == v@.len(),
            index_from(v@, c, i as int) == index_from(v@, c, 0),
        decreases n - i,
    {
        i = i + 1;
    }
    i
}

/// How many times `c` occurs in `v`.
fn count_of(v: &Vec<char>, c: char) -> (r: usize)
    ensures
        r == count_from(v@, c, 0),
{
    let n = v.len();
    let mut i: usize = 0;
    let mut count: usize = 0;
    while i < n
        invariant
            i <= n == v@.len(),
            count + count_from(v@, c, i as int) == count_from(v@, c, 0),
            count <= i,
        decreases n - i,
    {
        if v[i] == c {
            count = count + 1;
        }
        i = i + 1;
    }
    count
}

/// Splits `v` at its first `c`: the part before and the part after.
fn split_first(v: &Vec<char>, c: char) -> (r: (Vec<char>, Vec<char>))
    ensures
        r.0@ == before_first(v@, c),
        r.1@ == after_first(v@, c),
{
    let i = index_of(v, c);
    let head = slice_chars(v, 0, i);
    let tail = if i < v.len() {
        slice_chars(v, i + 1, v.len())
    } else {
        Vec::new()
    };
    (head, tail)
}

proof fn lemma_digits_value_below(s: Seq<char>)
    requires
        all_digits(s),
    ensures
        digits_value(s) < pow10(s.len()),
    decreases s.len(),
{
    if s.len() > 0 {
        let init = s.drop_last();
        assert(all_digits(init)) by {
            assert forall|i: int| 0 <= i < init.len() implies is_digit(#[trigger] init[i]) by {
                assert(init[i] == s[i]);
            }
        }
        lemma_digits_value_below(init);
        assert(is_digit(s[s.len() - 1]));
        assert(pow10(s.len()) == 10 * pow10(init.len()));
    }
}

proof fn lemma_digits_value_grows(s: Seq<char>)
    requires
        s.len() > 0,
        is_digit(s.last()),
    ensures
        digits_value(s) >= digits_value(s.drop_last()) * 10,
{
}

/// Whether `v` is all digits, and their value capped at `i64::MAX + 1`.
fn digits(v: &Vec<char>) -> (r: (bool, u64))
    ensures
        r.0 == all_digits(v@),
        r.0 ==> r.1 == (if digits_value(v@) > i64::MAX {
            i64::MAX as int + 1
        } else {
            digits_value(v@) as int
        }),
{
    let n = v.len();
    let mut i: usize = 0;
    let mut value: u64 = 0;
    let cap: u64 = 0x8000_0000_0000_0000;
    while i < n
        invariant
            i <= n == v@.len(),
            cap == 0x8000_0000_0000_0000,
            all_digits(v@.subrange(0, i as int)),
            value == (if digits_value(v@.subrange(0, i as int)) > i64::MAX {
                i64::MAX as int + 1
            } else {
                digits_value(v@.subrange(0, i as int)) as int
            }),
        decreases n - i,
    {
        let c = v[i];
        if !('0' <= c && c <= '9') {
            assert(!is_digit(v@[i as int]));
            assert(!all_digits(v@)) by {
                assert(!is_digit(v@[i as int]));
            }
            return (false, 0);
        }
        let ghost prefix = v@.subrange(0, i as int);
        let ghost next = v@.subrange(0, i + 1);
        assert(next.drop_last() == prefix);
        assert(next.last() == c);
        assert(all_digits(next)) by {
            assert forall|j: int| 0 <= j < next.len() implies is_digit(#[trigger] next[j]) by {
                if j < i {
                    assert(next[j] == prefix[j]);
                }
            }
        }
        let d = (c as u32 - '0' as u32) as u64;
        assert(d as int == (c as int) - ('0' as int));
        assert(d <= 9);
        assert(digits_value(next) == digits_value(prefix) * 10 + d);
        if value >= cap {
            proof { lemma_digits_value_grows(next); }
            value = cap;
        } else {
            let grown = value as u128 * 10 + d as u128;
            value = if grown >= cap as u128 {
                cap
            } else {
                grown as u64
            };
        }
        i = i + 1;
    }
    assert(v@.subrange(0, n as int) == v@);
    (true, value)
}

/// `Some(value)` when `v` is a component (see [`component_value`]).
fn parse_component(v: &Vec<char>) -> (r: Option<i64>)
    ensures
        match component_value(v@) {
            Some(x) => r == Some(x as i64),
            None => r is None,
        },
{
    let (ok, value) = digits(v);
    if v.len() == 0 || !ok || value > i64::MAX as u64 {
        return None;
    }
    Some(value as i64)
}

/// Milliseconds of the seconds component (see [`seconds_millis`]).
fn parse_seconds(sec: &Vec<char>) -> (r: Result<i64, TimecodeFault>)
    ensures
        match seconds_millis(sec@) {
            Ok(x) => r == Ok::<i64, TimecodeFault>(x as i64),
            Err(f) => r == Err::<i64, TimecodeFault>(f),
        },
        r is Ok ==> r->Ok_0 >= 0,
{
    let dot = index_of(sec, '.');
    let whole = slice_chars(sec, 0, dot);
    let (_, fraction) = split_first(sec, '.');
    let mut millis: i64 = 0;
    if dot < sec.len() {
        let (ok, value) = digits(&fraction);
        if fraction.len() == 0 || fraction.len() > 3 || !ok {
            return Err(TimecodeFault::Malformed);
        }
        proof {
            lemma_digits_value_below(fraction@);
            reveal_with_fuel(pow10, 4);
        }
        let scale: i64 = if fraction.len() == 1 {
            100
        } else if fraction.len() == 2 {
            10
        } else {
            1
        };
        assert(scale == pow10((3 - fraction@.len()) as nat)) by {
            reveal_with_fuel(pow10, 3);
        }
        assert(0 <= value * scale <= 999) by (nonlinear_arith)
            requires
                fraction@.len() == 1 ==> value < 10 && scale == 100,
                fraction@.len() == 2 ==> value < 100 && scale == 10,
                fraction@.len() == 3 ==> value < 1000 && scale == 1,
                1 <= fraction@.len() <= 3,
                value >= 0,
        ;
        millis = value as i64 * scale;
    }
    match parse_component(&whole) {
        None => Err(TimecodeFault::Malformed),
        Some(seconds) => {
            if seconds > (i64::MAX - millis) / 1000 {
                assert(seconds * 1000 + millis > i64::MAX) by (nonlinear_arith)
                    requires
                        seconds > (i64::MAX - millis) / 1000,
                        0 <= millis <= 999,
                ;
                Err(TimecodeFault::Overflow)
            } else {
                assert(seconds * 1000 + millis <= i64::MAX) by (nonlinear_arith)
                    requires
                        seconds <= (i64::MAX - millis) / 1000,
                        0 <= millis <= 999,
                        seconds >= 0,
                ;
                Ok(seconds * 1000 + millis)
            }
        },
    }
}

/// `total + component * unit` (see [`add_component`]).
fn add_parsed(total: Result<i64, TimecodeFault>, component: &Vec<char>, unit: i64) -> (r: Result<
    i64,
    TimecodeFault,
>)
    requires
        unit == 60_000 || unit == 3_600_000,
        total is Ok ==> total->Ok_0 >= 0,
    ensures
        match add_component(
            match total {
                Ok(x) => Ok::<int, TimecodeFault>(x as int),
                Err(f) => Err::<int, TimecodeFault>(f),
            },
            component@,
            unit as int,
        ) {
            Ok(x) => r == Ok::<i64, TimecodeFault>(x as i64) && x >= 0,
            Err(f) => r == Err::<i64, TimecodeFault>(f),
        },
{
    let total = match total {
        Ok(total) => total,
        Err(f) => return Err(f),
    };
    match parse_component(component) {
        None => Err(TimecodeFault::Malformed),
        Some(value) => {
            let limit = (i64::MAX - total) / unit;
            if value > limit {
                assert(total + value * unit > i64::MAX) by (nonlinear_arith)
                    requires
                        value > limit,
                        limit == (i64::MAX - total) / (unit as int),
                        unit > 0,
                        total >= 0,
                ;
                Err(TimecodeFault::Overflow)
            } else {
                assert(0 <= total + value * unit <= i64::MAX) by (nonlinear_arith)
                    requires
                        value <= limit,
                        limit == (i64::MAX - total) / (unit as int),
                        unit > 0,
                        total >= 0,
                        value >= 0,
                ;
                Ok(total + value * unit)
            }
        },
    }
}

/// The outcome of [`parse_timecode`] as a [`TimecodeFault`] and a millisecond
/// count.
pub open spec fn timecode_result_matches(input: Seq<char>, r: Result<Time, TimecodeError>) -> bool {
    match r {
        Ok(t) => timecode_millis(input) == Ok::<int, TimecodeFault>(t.value as int) && t.timescale
            == 1000,
        Err(TimecodeError::Empty) => timecode_millis(input) == Err::<int, TimecodeFault>(
            TimecodeFault::Empty,
        ),
        Err(TimecodeError::Malformed(text)) => timecode_millis(input) == Err::<int, TimecodeFault>(
            TimecodeFault::Malformed,
        ) && text@ == trimmed(input),
        Err(TimecodeError::Overflow(text)) => timecode_millis(input) == Err::<int, TimecodeFault>(
            TimecodeFault::Overflow,
        ) && text@ == trimmed(input),
    }
}

/// Parses a `HH:MM:SS(.mmm)` / `MM:SS(.mmm)` / `SS(.mmm)` timecode into an
/// exact [`Time`] on a millisecond timescale (see [`timecode_millis`]).
pub fn parse_timecode(input: &str) -> (r: Result<Time, TimecodeError>)
    ensures
        timecode_result_matches(input@, r),
{
    let chars = chars_of(input);
    let t = trim_chars(&chars);
    if t.len() == 0 {
        return Err(TimecodeError::Empty);
    }
    let colons = count_of(&t, ':');
    let outcome = if colons > 2 {
        Err(TimecodeFault::Malformed)
    } else if colons == 0 {
        parse_seconds(&t)
    } else if colons == 1 {
        let (minutes, seconds) = split_first(&t, ':');
        add_parsed(parse_seconds(&seconds), &minutes, 60_000)
    } else {
        let (hours, rest) = split_first(&t, ':');
        let (minutes, seconds) = split_first(&rest, ':');
        add_parsed(add_parsed(parse_seconds(&seconds), &minutes, 60_000), &hours, 3_600_000)
    };
    match outcome {
        Ok(total) => Ok(Time::new(total, 1000)),
        Err(TimecodeFault::Empty) => Err(TimecodeError::Empty),
        Err(TimecodeFault::Malformed) => Err(TimecodeError::Malformed(string_from_chars(t.as_slice()))),
        Err(TimecodeFault::Overflow) => Err(TimecodeError::Overflow(string_from_chars(t.as_slice()))),
    }
}

} // verus!
