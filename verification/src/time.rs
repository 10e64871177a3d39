//! Exact rational timeline time.
//!
//! A [`Time`] is `value / timescale` seconds. Times are compared and added
//! without floating point; sums are kept in lowest terms.

use crate::gcd::{gcd, gcd_u64, lemma_gcd_divides, spec_gcd};
use std::cmp::Ordering;
use vstd::prelude::*;

verus! {

/// A frame rate `numerator / denominator` frames per second.
#[derive(Clone, Copy, Debug, PartialEq, Eq, Structural)]
pub struct Rational {
    pub numerator: u32,
    pub denominator: u32,
}

impl Rational {
    pub fn new(numerator: u32, denominator: u32) -> (r: Self)
        ensures
            r.numerator == numerator,
            r.denominator == denominator,
    {
        Rational { numerator, denominator }
    }

    /// A frame rate is usable only when both of its terms are non-zero.
    pub open spec fn spec_is_valid(self) -> bool {
        self.numerator != 0 && self.denominator != 0
    }

    #[verifier::when_used_as_spec(spec_is_valid)]
    pub fn is_valid(self) -> (b: bool)
        ensures
            b == self.spec_is_valid(),
    {
        self.numerator != 0 && self.denominator != 0
    }
}

/// Exact timeline time, represented as `value / timescale` seconds.
#[derive(Clone, Copy, Debug, Default, PartialEq, Eq, Structural)]
pub struct Time {
    pub value: i64,
    pub timescale: u32,
}

/// Why a time calculation could not be carried out.
#[derive(Clone, Copy, Debug, PartialEq, Eq, Structural)]
pub enum TimeError {
    ZeroTimescale,
    InvalidFrameRate,
    Overflow,
}

/// `|v|` as a natural number.
pub open spec fn magnitude(v: int) -> nat {
    if v < 0 {
        (-v) as nat
    } else {
        v as nat
    }
}

/// Whether `a` and `b` denote the same instant (cross-multiplied, so it is
/// exact for any pair of valid times).
pub open spec fn same_instant(a: Time, b: Time) -> bool {
    a.value * b.timescale == b.value * a.timescale
}

/// Whether `a` is strictly earlier than `b` (for valid times).
pub open spec fn is_before(a: Time, b: Time) -> bool {
    a.value * b.timescale < b.value * a.timescale
}

/// Whether a time lies in `i64`/`u32` range once given as integers.
pub open spec fn fits_i64(v: int) -> bool {
    i64::MIN <= v <= i64::MAX
}

/// The lowest-terms form of a time: the zero time becomes `0/1`, an invalid
/// time is left alone, and otherwise both terms are divided by their gcd.
pub open spec fn spec_reduced(t: Time) -> Time {
    if t.timescale == 0 {
        t
    } else if t.value == 0 {
        Time { value: 0, timescale: 1 }
    } else {
        let d = spec_gcd(magnitude(t.value as int), t.timescale as nat);
        let q = magnitude(t.value as int) / d;
        Time {
            value: (if t.value < 0 {
                -q
            } else {
                q as int
            }) as i64,
            timescale: ((t.timescale as nat) / d) as u32,
        }
    }
}

/// The sum of two times, in lowest terms, over the least common multiple of
/// their timescales.
pub open spec fn spec_checked_add(a: Time, b: Time) -> Result<Time, TimeError> {
    if a.timescale == 0 || b.timescale == 0 {
        Err(TimeError::ZeroTimescale)
    } else {
        let g = spec_gcd(a.timescale as nat, b.timescale as nat);
        let timescale = a.timescale * ((b.timescale as nat) / g);
        let value = a.value * ((b.timescale as nat) / g) + b.value * ((a.timescale as nat) / g);
        if timescale > u32::MAX {
            Err(TimeError::Overflow)
        } else if !fits_i64(value) {
            Err(TimeError::Overflow)
        } else {
            Ok(spec_reduced(Time { value: value as i64, timescale: timescale as u32 }))
        }
    }
}

/// `a - b`: the sum of `a` and the negation of `b`. Negating `i64::MIN`
/// overflows before anything else is looked at.
pub open spec fn spec_checked_sub(a: Time, b: Time) -> Result<Time, TimeError> {
    if b.value == i64::MIN {
        Err(TimeError::Overflow)
    } else {
        spec_checked_add(a, Time { value: -b.value as i64, timescale: b.timescale })
    }
}

/// `value` frames at `frame_rate`, as a time with the frame rate's numerator
/// as its timescale.
pub open spec fn spec_frames(value: i64, frame_rate: Rational) -> Result<Time, TimeError> {
    if !frame_rate.spec_is_valid() {
        Err(TimeError::InvalidFrameRate)
    } else if !fits_i64(value * frame_rate.denominator) {
        Err(TimeError::Overflow)
    } else {
        Ok(Time { value: (value * frame_rate.denominator) as i64, timescale: frame_rate.numerator })
    }
}

/// The time `0/1`.
pub open spec fn zero_time() -> Time {
    Time { value: 0, timescale: 1 }
}

/// How `a` relates to `b` in time, or why they cannot be compared.
pub open spec fn exact_order(a: Time, b: Time) -> Result<Ordering, TimeError> {
    if !a.spec_is_valid() || !b.spec_is_valid() {
        Err(TimeError::ZeroTimescale)
    } else if is_before(a, b) {
        Ok(Ordering::Less)
    } else if same_instant(a, b) {
        Ok(Ordering::Equal)
    } else {
        Ok(Ordering::Greater)
    }
}

/// `(a.value * b.timescale, b.value * a.timescale)`, computed without overflow.
fn cross_products(a: Time, b: Time) -> (r: (i128, i128))
    ensures
        r.0 == a.value * b.timescale,
        r.1 == b.value * a.timescale,
{
    let av = a.value as i128;
    let bv = b.value as i128;
    let at = a.timescale as i128;
    let bt = b.timescale as i128;
    assert(-0x8000_0000_0000_0000 * 0xffff_ffff <= av * bt <= 0x7fff_ffff_ffff_ffff * 0xffff_ffff)
        by (nonlinear_arith)
        requires
            -0x8000_0000_0000_0000 <= av <= 0x7fff_ffff_ffff_ffff,
            0 <= bt <= 0xffff_ffff,
    ;
    assert(-0x8000_0000_0000_0000 * 0xffff_ffff <= bv * at <= 0x7fff_ffff_ffff_ffff * 0xffff_ffff)
        by (nonlinear_arith)
        requires
            -0x8000_0000_0000_0000 <= bv <= 0x7fff_ffff_ffff_ffff,
            0 <= at <= 0xffff_ffff,
    ;
    (av * bt, bv * at)
}

/// Whether `a` is strictly earlier than `b`; both must be valid.
pub fn earlier(a: Time, b: Time) -> (r: bool)
    ensures
        r == is_before(a, b),
{
    let (left, right) = cross_products(a, b);
    left < right
}

/// Splits `value` into `magnitude / divisor` with the sign of `value`.
fn divide_keeping_sign(value: i64, divisor: u64) -> (q: i64)
    requires
        divisor > 0,
        magnitude(value as int) % (divisor as nat) == 0,
    ensures
        q == (if value < 0 {
            -(magnitude(value as int) / (divisor as nat))
        } else {
            (magnitude(value as int) / (divisor as nat)) as int
        }),
{
    let wide = value as i128;
    let abs: u64 = if wide < 0 {
        (-wide) as u64
    } else {
        wide as u64
    };
    let quotient = abs / divisor;
    assert(quotient <= abs);
    if value < 0 {
        let negated: i128 = -(quotient as i128);
        negated as i64
    } else {
        quotient as i64
    }
}

impl Time {
    pub fn new(value: i64, timescale: u32) -> (t: Self)
        ensures
            t.value == value,
            t.timescale == timescale,
    {
        Time { value, timescale }
    }

    /// The time `0/1`.
    pub fn zero() -> (t: Self)
        ensures
            t == zero_time(),
    {
        Time { value: 0, timescale: 1 }
    }

    /// `value` samples at `sample_rate` samples per second.
    pub fn samples(value: i64, sample_rate: u32) -> (t: Self)
        ensures
            t.value == value,
            t.timescale == sample_rate,
    {
        Self::new(value, sample_rate)
    }

    /// `value` frames at `frame_rate`: `value * denominator / numerator`
    /// seconds. Fails on an invalid frame rate or when the scaled value does
    /// not fit in `i64`.
    pub fn frames(value: i64, frame_rate: Rational) -> (r: Result<Self, TimeError>)
        ensures
            r == spec_frames(value, frame_rate),
    {
        if !frame_rate.is_valid() {
            return Err(TimeError::InvalidFrameRate);
        }
        let wide_value = value as i128;
        let wide_den = frame_rate.denominator as i128;
        assert(-0x8000_0000_0000_0000 * 0xffff_ffff <= wide_value * wide_den <= 0x7fff_ffff_ffff_ffff * 0xffff_ffff)
            by (nonlinear_arith)
            requires
                -0x8000_0000_0000_0000 <= wide_value <= 0x7fff_ffff_ffff_ffff,
                0 < wide_den <= 0xffff_ffff,
        ;
        let scaled = wide_value * wide_den;
        if scaled < i64::MIN as i128 || scaled > i64::MAX as i128 {
            return Err(TimeError::Overflow);
        }
        Ok(Self::new(scaled as i64, frame_rate.numerator))
    }

    pub open spec fn spec_is_valid(self) -> bool {
        self.timescale != 0
    }

    /// A time is valid when its timescale is non-zero.
    #[verifier::when_used_as_spec(spec_is_valid)]
    pub fn is_valid(self) -> (b: bool)
        ensures
            b == self.spec_is_valid(),
    {
        self.timescale != 0
    }

    /// The same instant in lowest terms (see [`spec_reduced`]).
    pub fn reduced(self) -> (r: Self)
        ensures
            r == spec_reduced(self),
    {
        if !self.is_valid() || self.value == 0 {
            return if self.is_valid() {
                Self::zero()
            } else {
                self
            };
        }
        let wide = self.value as i128;
        let abs: u64 = if wide < 0 {
            (-wide) as u64
        } else {
            wide as u64
        };
        assert(abs as nat == magnitude(self.value as int));
        let divisor = gcd_u64(abs, self.timescale as u64);
        proof {
            lemma_gcd_divides(abs as nat, self.timescale as nat);
        }
        let value = divide_keeping_sign(self.value, divisor);
        let timescale = (self.timescale as u64 / divisor) as u32;
        Self::new(value, timescale)
    }

    /// `self + other`, exact and in lowest terms (see [`spec_checked_add`]).
    pub fn checked_add(self, other: Self) -> (r: Result<Self, TimeError>)
        ensures
            r == spec_checked_add(self, other),
    {
        if !self.is_valid() || !other.is_valid() {
            return Err(TimeError::ZeroTimescale);
        }
        let g = gcd(self.timescale, other.timescale);
        proof {
            lemma_gcd_divides(self.timescale as nat, other.timescale as nat);
        }
        let left_factor = other.timescale / g;
        let right_factor = self.timescale / g;
        let timescale = match self.timescale.checked_mul(left_factor) {
            Some(timescale) => timescale,
            None => return Err(TimeError::Overflow),
        };
        let a = self.value as i128;
        let b = other.value as i128;
        let lf = left_factor as i128;
        let rf = right_factor as i128;
        assert(-0x8000_0000_0000_0000 * 0xffff_ffff <= a * lf <= 0x7fff_ffff_ffff_ffff * 0xffff_ffff)
            by (nonlinear_arith)
            requires
                -0x8000_0000_0000_0000 <= a <= 0x7fff_ffff_ffff_ffff,
                0 <= lf <= 0xffff_ffff,
        ;
        assert(-0x8000_0000_0000_0000 * 0xffff_ffff <= b * rf <= 0x7fff_ffff_ffff_ffff * 0xffff_ffff)
            by (nonlinear_arith)
            requires
                -0x8000_0000_0000_0000 <= b <= 0x7fff_ffff_ffff_ffff,
                0 <= rf <= 0xffff_ffff,
        ;
        let value = a * lf + b * rf;
        if value < i64::MIN as i128 || value > i64::MAX as i128 {
            return Err(TimeError::Overflow);
        }
        Ok(Self::new(value as i64, timescale).reduced())
    }

    /// Compares two times exactly by cross-multiplication (see [`exact_order`]).
    pub fn cmp_exact(self, other: Self) -> (r: Result<Ordering, TimeError>)
        ensures
            r == exact_order(self, other),
    {
        if !self.is_valid() || !other.is_valid() {
            return Err(TimeError::ZeroTimescale);
        }
        let (left, right) = cross_products(self, other);
        if left < right {
            Ok(Ordering::Less)
        } else if left == right {
            Ok(Ordering::Equal)
        } else {
            Ok(Ordering::Greater)
        }
    }

    /// `self - other` (see [`spec_checked_sub`]).
    pub fn checked_sub(self, other: Self) -> (r: Result<Self, TimeError>)
        ensures
            r == spec_checked_sub(self, other),
    {
        if other.value == i64::MIN {
            return Err(TimeError::Overflow);
        }
        self.checked_add(Self::new(-other.value, other.timescale))
    }
}

/// A span of timeline time.
#[derive(Clone, Copy, Debug, PartialEq, Eq, Structural)]
pub struct TimeRange {
    pub start: Time,
    pub duration: Time,
}

impl TimeRange {
    /// `start + duration`.
    pub fn end(self) -> (r: Result<Time, TimeError>)
        ensures
            r == spec_checked_add(self.start, self.duration),
    {
        self.start.checked_add(self.duration)
    }
}

} // verus!
