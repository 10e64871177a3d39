//! Laws of exact time arithmetic.

use crate::gcd::{lemma_exact_quotient, lemma_gcd_commutes, lemma_gcd_divides, lemma_gcd_of_quotients, lemma_gcd_one, spec_gcd};
use crate::time::{
    exact_order, fits_i64, magnitude, same_instant, spec_checked_add, spec_checked_sub, spec_reduced, zero_time,
    Time,
};
use vstd::prelude::*;

verus! {

/// Facts about the reduced form of a valid, non-zero time, named by its parts.
proof fn lemma_reduced_parts(t: Time)
    requires
        t.timescale != 0,
        t.value != 0,
    ensures
        ({
            let m = magnitude(t.value as int);
            let d = spec_gcd(m, t.timescale as nat);
            let r = spec_reduced(t);
            &&& d > 0
            &&& m == d * (m / d)
            &&& t.timescale == d * ((t.timescale as nat) / d)
            &&& magnitude(r.value as int) == m / d
            &&& r.timescale == (t.timescale as nat) / d
            &&& (r.value < 0 <==> t.value < 0)
            &&& r.value != 0
            &&& r.timescale != 0
        }),
{
    let m = magnitude(t.value as int);
    let ts = t.timescale as nat;
    lemma_gcd_divides(m, ts);
    let d = spec_gcd(m, ts);
    lemma_exact_quotient(m as int, d as int);
    lemma_exact_quotient(ts as int, d as int);
    let q = m / d;
    let s = ts / d;
    assert(q <= m && q >= 1) by (nonlinear_arith)
        requires
            m == d * q,
            d > 0,
            m > 0,
    ;
    assert(s <= ts && s >= 1) by (nonlinear_arith)
        requires
            ts == d * s,
            d > 0,
            ts > 0,
    ;
}

/// Reducing a valid time keeps the instant it denotes and keeps it valid.
pub proof fn law_reduced_same_instant(t: Time)
    requires
        t.timescale != 0,
    ensures
        spec_reduced(t).timescale != 0,
        same_instant(spec_reduced(t), t),
{
    if t.value != 0 {
        lemma_reduced_parts(t);
        let m = magnitude(t.value as int);
        let d = spec_gcd(m, t.timescale as nat);
        let r = spec_reduced(t);
        let q = m / d;
        let s = (t.timescale as nat) / d;
        let rv = r.value as int;
        let v = t.value as int;
        assert(rv == (if v < 0 { -q } else { q as int }));
        assert(v == (if v < 0 { -m } else { m as int }));
        assert(rv * (t.timescale as int) == v * (r.timescale as int)) by (nonlinear_arith)
            requires
                m == d * q,
                t.timescale == d * s,
                r.timescale == s,
                rv == (if v < 0 { -q } else { q as int }),
                v == (if v < 0 { -m } else { m as int }),
        ;
    }
}

/// A reduced valid time is in lowest terms: the gcd of its magnitude and its
/// timescale is `1`.
pub proof fn law_reduced_lowest_terms(t: Time)
    requires
        t.timescale != 0,
    ensures
        spec_gcd(magnitude(spec_reduced(t).value as int), spec_reduced(t).timescale as nat) == 1,
{
    if t.value == 0 {
        lemma_gcd_one(0);
    } else {
        lemma_reduced_parts(t);
        lemma_gcd_of_quotients(magnitude(t.value as int), t.timescale as nat);
    }
}

/// Reducing twice is the same as reducing once.
pub proof fn law_reduced_idempotent(t: Time)
    ensures
        spec_reduced(spec_reduced(t)) == spec_reduced(t),
{
    if t.timescale != 0 && t.value != 0 {
        lemma_reduced_parts(t);
        law_reduced_lowest_terms(t);
        let r = spec_reduced(t);
        let m = magnitude(r.value as int);
        assert(m / 1 == m);
        assert((r.timescale as nat) / 1 == r.timescale as nat);
    }
}

/// A successful sum denotes exactly `a + b`:
/// `r = (a.value * b.timescale + b.value * a.timescale) / (a.timescale * b.timescale)`.
pub proof fn law_add_exact(a: Time, b: Time)
    requires
        spec_checked_add(a, b) is Ok,
    ensures
        ({
            let r = spec_checked_add(a, b)->Ok_0;
            &&& r.timescale != 0
            &&& r.value * (a.timescale * b.timescale) == (a.value * b.timescale + b.value
                * a.timescale) * r.timescale
        }),
{
    let ta = a.timescale as nat;
    let tb = b.timescale as nat;
    lemma_gcd_divides(ta, tb);
    let g = spec_gcd(ta, tb);
    lemma_exact_quotient(ta as int, g as int);
    lemma_exact_quotient(tb as int, g as int);
    let x = ta / g;
    let y = tb / g;
    let ts = ta * y;
    let v = a.value * y + b.value * x;
    let sum = Time { value: v as i64, timescale: ts as u32 };
    assert(ts > 0) by (nonlinear_arith)
        requires
            ts == ta * y,
            ta > 0,
            tb > 0,
            tb == g * y,
            g > 0,
    ;
    assert(sum.value == v && sum.timescale == ts);
    law_reduced_same_instant(sum);
    let r = spec_reduced(sum);
    assert(r.value * ts == v * r.timescale);
    let rv = r.value as int;
    let rt = r.timescale as int;
    assert(ta * tb == g * ts) by (nonlinear_arith)
        requires
            ts == ta * y,
            tb == g * y,
    ;
    assert(a.value * tb + b.value * ta == g * v) by (nonlinear_arith)
        requires
            v == a.value * y + b.value * x,
            ta == g * x,
            tb == g * y,
    ;
    assert(rv * (g * ts) == (g * v) * rt) by (nonlinear_arith)
        requires
            rv * ts == v * rt,
    ;
}

/// Addition commutes.
pub proof fn law_add_commutes(a: Time, b: Time)
    ensures
        spec_checked_add(a, b) == spec_checked_add(b, a),
{
    if a.timescale != 0 && b.timescale != 0 {
        let ta = a.timescale as nat;
        let tb = b.timescale as nat;
        lemma_gcd_commutes(ta, tb);
        lemma_gcd_divides(ta, tb);
        let g = spec_gcd(ta, tb);
        lemma_exact_quotient(ta as int, g as int);
        lemma_exact_quotient(tb as int, g as int);
        let x = ta / g;
        let y = tb / g;
        assert(ta * y == tb * x) by (nonlinear_arith)
            requires
                ta == g * x,
                tb == g * y,
        ;
    }
}

/// Adding zero to a valid time gives that time in lowest terms.
pub proof fn law_add_zero(a: Time)
    requires
        a.timescale != 0,
    ensures
        spec_checked_add(a, zero_time()) == Ok::<Time, crate::time::TimeError>(spec_reduced(a)),
{
    lemma_gcd_one(a.timescale as nat);
    let ta = a.timescale as nat;
    assert(ta / 1 == ta);
    assert(1nat / 1 == 1);
    let sum = Time { value: (a.value * 1 + 0 * ta) as i64, timescale: (ta * 1) as u32 };
    assert(sum == a);
}

/// A valid time minus itself is zero (unless negating its value overflows).
pub proof fn law_sub_self(a: Time)
    requires
        a.timescale != 0,
        a.value != i64::MIN,
    ensures
        spec_checked_sub(a, a) == Ok::<Time, crate::time::TimeError>(zero_time()),
{
    let ta = a.timescale as nat;
    assert(ta % ta == 0);
    assert(spec_gcd(ta, 0) == ta);
    assert(spec_gcd(ta, ta) == ta);
    assert(ta / ta == 1) by (nonlinear_arith)
        requires
            ta > 0,
    ;
    let neg = Time { value: -a.value as i64, timescale: a.timescale };
    assert(a.value * 1 + neg.value * 1 == 0);
    assert(fits_i64(0));
}

/// Exact comparison is antisymmetric: `a` is before `b` exactly when `b` is
/// after `a`, and they are the same instant in both directions.
pub proof fn law_order_antisymmetric(a: Time, b: Time)
    requires
        a.timescale != 0,
        b.timescale != 0,
    ensures
        (exact_order(a, b) == Ok::<std::cmp::Ordering, crate::time::TimeError>(
            std::cmp::Ordering::Less,
        )) == (exact_order(b, a) == Ok::<std::cmp::Ordering, crate::time::TimeError>(
            std::cmp::Ordering::Greater,
        )),
        (exact_order(a, b) == Ok::<std::cmp::Ordering, crate::time::TimeError>(
            std::cmp::Ordering::Equal,
        )) == (exact_order(b, a) == Ok::<std::cmp::Ordering, crate::time::TimeError>(
            std::cmp::Ordering::Equal,
        )),
{
}

/// A valid time compares equal to its reduced form.
pub proof fn law_reduced_compares_equal(t: Time)
    requires
        t.timescale != 0,
    ensures
        exact_order(spec_reduced(t), t) == Ok::<std::cmp::Ordering, crate::time::TimeError>(
            std::cmp::Ordering::Equal,
        ),
{
    law_reduced_same_instant(t);
}

} // verus!
