//! Greatest common divisors, as used to keep timeline times in lowest terms.

use vstd::arithmetic::div_mod::*;
use vstd::arithmetic::mul::*;
use vstd::prelude::*;

verus! {

/// Euclid's definition: `gcd(a, 0) = a` and `gcd(a, b) = gcd(b, a mod b)`.
pub open spec fn spec_gcd(a: nat, b: nat) -> nat
    decreases b,
{
    if b == 0 {
        a
    } else {
        spec_gcd(b, a % b)
    }
}

/// `d * k` is a multiple of `d`, for every integer `k`.
pub proof fn lemma_multiple_of(d: int, k: int)
    requires
        d > 0,
    ensures
        (d * k) % d == 0,
{
    lemma_mul_is_commutative(d, k);
    lemma_mod_multiples_basic(k, d);
}

/// A multiple of `d` is `d` times its quotient.
pub proof fn lemma_exact_quotient(n: int, d: int)
    requires
        d > 0,
        n % d == 0,
    ensures
        n == d * (n / d),
{
    lemma_fundamental_div_mod(n, d);
}

/// Multiples of `d` are closed under `a + q * b` and `a - q * b`.
pub proof fn lemma_multiples_combine(a: int, b: int, q: int, d: int)
    requires
        d > 0,
        a % d == 0,
        b % d == 0,
    ensures
        (a + q * b) % d == 0,
        (a - q * b) % d == 0,
{
    lemma_exact_quotient(a, d);
    lemma_exact_quotient(b, d);
    let x = a / d;
    let y = b / d;
    assert(a + q * b == d * (x + q * y)) by (nonlinear_arith)
        requires
            a == d * x,
            b == d * y,
    ;
    assert(a - q * b == d * (x - q * y)) by (nonlinear_arith)
        requires
            a == d * x,
            b == d * y,
    ;
    lemma_multiple_of(d, x + q * y);
    lemma_multiple_of(d, x - q * y);
}

/// A positive multiple of `d` is at least `d`.
pub proof fn lemma_divisor_at_most(d: int, n: int)
    requires
        d > 0,
        n > 0,
        n % d == 0,
    ensures
        d <= n,
{
    lemma_exact_quotient(n, d);
    let q = n / d;
    if q <= 0 {
        assert(d * q <= 0) by (nonlinear_arith)
            requires
                d > 0,
                q <= 0,
        ;
    } else {
        assert(d <= d * q) by (nonlinear_arith)
            requires
                d > 0,
                q >= 1,
        ;
    }
}

/// The gcd divides both arguments, and is positive unless both are zero.
pub proof fn lemma_gcd_divides(a: nat, b: nat)
    ensures
        (a > 0 || b > 0) ==> spec_gcd(a, b) > 0,
        spec_gcd(a, b) > 0 ==> a % spec_gcd(a, b) == 0 && b % spec_gcd(a, b) == 0,
        spec_gcd(a, b) == 0 ==> a == 0 && b == 0,
    decreases b,
{
    if b == 0 {
        if a > 0 {
            lemma_mod_self_0(a as int);
        }
    } else {
        let r = a % b;
        lemma_gcd_divides(b, r);
        let g = spec_gcd(a, b);
        assert(g == spec_gcd(b, r));
        if g > 0 {
            lemma_fundamental_div_mod(a as int, b as int);
            lemma_multiples_combine(r as int, b as int, (a / b) as int, g as int);
            assert(r + (a / b) * b == a) by (nonlinear_arith)
                requires
                    a == b * (a / b) + r,
            ;
        }
    }
}

/// Every common divisor of `a` and `b` divides their gcd.
pub proof fn lemma_gcd_greatest(a: nat, b: nat, d: nat)
    requires
        d > 0,
        a % d == 0,
        b % d == 0,
    ensures
        spec_gcd(a, b) % d == 0,
    decreases b,
{
    if b != 0 {
        let r = a % b;
        lemma_fundamental_div_mod(a as int, b as int);
        assert(r == a - (a / b) * b) by (nonlinear_arith)
            requires
                a == b * (a / b) + r,
        ;
        lemma_multiples_combine(a as int, b as int, (a / b) as int, d as int);
        lemma_gcd_greatest(b, r, d);
    }
}

/// The gcd does not depend on the order of its arguments.
pub proof fn lemma_gcd_commutes(a: nat, b: nat)
    ensures
        spec_gcd(a, b) == spec_gcd(b, a),
{
    lemma_gcd_divides(a, b);
    lemma_gcd_divides(b, a);
    let g = spec_gcd(a, b);
    let h = spec_gcd(b, a);
    if a > 0 || b > 0 {
        lemma_gcd_greatest(a, b, h);
        lemma_gcd_greatest(b, a, g);
        lemma_divisor_at_most(h as int, g as int);
        lemma_divisor_at_most(g as int, h as int);
    }
}

/// The gcd of a positive number and `1` is `1`.
pub proof fn lemma_gcd_one(a: nat)
    ensures
        spec_gcd(a, 1) == 1,
{
    assert(a % 1 == 0);
    assert(spec_gcd(1, 0) == 1);
}

/// Dividing both arguments by their gcd leaves numbers whose gcd is `1`.
pub proof fn lemma_gcd_of_quotients(a: nat, b: nat)
    requires
        a > 0 || b > 0,
    ensures
        spec_gcd(a, b) > 0,
        spec_gcd(a / spec_gcd(a, b), b / spec_gcd(a, b)) == 1,
{
    lemma_gcd_divides(a, b);
    let g = spec_gcd(a, b);
    let x = a / g;
    let y = b / g;
    lemma_exact_quotient(a as int, g as int);
    lemma_exact_quotient(b as int, g as int);
    assert(x > 0 || y > 0) by (nonlinear_arith)
        requires
            a == g * x,
            b == g * y,
            a > 0 || b > 0,
    ;
    lemma_gcd_divides(x, y);
    let h = spec_gcd(x, y);
    lemma_exact_quotient(x as int, h as int);
    lemma_exact_quotient(y as int, h as int);
    let x2 = x / h;
    let y2 = y / h;
    // `g * h` divides both `a` and `b`, so it divides `g`.
    assert(a == (g * h) * x2 && b == (g * h) * y2) by (nonlinear_arith)
        requires
            a == g * x,
            b == g * y,
            x == h * x2,
            y == h * y2,
    ;
    assert(g * h > 0) by (nonlinear_arith)
        requires
            g > 0,
            h > 0,
    ;
    lemma_multiple_of((g * h) as int, x2 as int);
    lemma_multiple_of((g * h) as int, y2 as int);
    lemma_gcd_greatest(a, b, (g * h) as nat);
    lemma_divisor_at_most((g * h) as int, g as int);
    assert(h <= 1) by (nonlinear_arith)
        requires
            g * h <= g,
            g > 0,
            h > 0,
    ;
}

/// Euclid's algorithm on 32-bit values.
pub fn gcd(left: u32, right: u32) -> (g: u32)
    ensures
        g == spec_gcd(left as nat, right as nat),
{
    let mut left = left;
    let mut right = right;
    let ghost initial = spec_gcd(left as nat, right as nat);
    while right != 0
        invariant
            spec_gcd(left as nat, right as nat) == initial,
        decreases right,
    {
        let remainder = left % right;
        left = right;
        right = remainder;
    }
    left
}

/// Euclid's algorithm on 64-bit values.
pub fn gcd_u64(left: u64, right: u64) -> (g: u64)
    ensures
        g == spec_gcd(left as nat, right as nat),
{
    let mut left = left;
    let mut right = right;
    let ghost initial = spec_gcd(left as nat, right as nat);
    while right != 0
        invariant
            spec_gcd(left as nat, right as nat) == initial,
        decreases right,
    {
        let remainder = left % right;
        left = right;
        right = remainder;
    }
    left
}

} // verus!
