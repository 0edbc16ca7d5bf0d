//! IEEE-754 binary32 numbers, held as their bit patterns.
//!
//! A pattern is a `u32`: one sign bit, eight bits of exponent field and
//! twenty-three bits of fraction field. This module gives the finite
//! non-negative patterns their exact values, as natural numbers counted in
//! units of 2^-149 (the smallest positive number of the format), and says
//! what it means for a pattern to be the nearest one to a rational number.

use vstd::prelude::*;
use vstd::arithmetic::power2::{lemma_pow2_adds, lemma_pow2_pos, lemma_pow2_unfold, lemma2_to64, pow2};

verus! {

/// The pattern of `0.0`.
pub const ZERO: u32 = 0;

/// The pattern of `1.0`.
pub const ONE: u32 = 0x3f80_0000;

/// The pattern of positive infinity: every pattern below it is a finite
/// non-negative number.
pub const INFINITY: u32 = 0x7f80_0000;

/// The eight bits of exponent field.
pub open spec fn exponent_field(bits: u32) -> nat {
    (bits as nat / 0x80_0000) % 0x100
}

/// The twenty-three bits of fraction field.
pub open spec fn fraction_field(bits: u32) -> nat {
    bits as nat % 0x80_0000
}

/// The sign bit is set.
pub open spec fn is_negative(bits: u32) -> bool {
    bits as nat / 0x8000_0000 == 1
}

/// The pattern is a number: neither an infinity nor a NaN.
pub open spec fn is_finite(bits: u32) -> bool {
    exponent_field(bits) != 0xff
}

/// The absolute value of a finite pattern, in units of 2^-149.
///
/// With an exponent field of zero the fraction field counts the units
/// directly; otherwise the significand has an implicit leading bit and is
/// scaled by a power of two.
pub open spec fn magnitude(bits: u32) -> nat {
    let e = exponent_field(bits);
    let f = fraction_field(bits);
    if e == 0 {
        f
    } else {
        (0x80_0000 + f) * pow2((e - 1) as nat)
    }
}

/// The distance from a finite pattern to the next one above it, in units
/// of 2^-149.
pub open spec fn step(bits: u32) -> nat {
    let e = exponent_field(bits);
    if e == 0 {
        1
    } else {
        pow2((e - 1) as nat)
    }
}

/// The distance between a finite non-negative pattern and the rational
/// `num / den`, scaled by `den * 2^149` so that it is an integer.
pub open spec fn error_to(bits: u32, num: nat, den: nat) -> int {
    let d = den * magnitude(bits) - num * pow2(149);
    if d >= 0 {
        d
    } else {
        -d
    }
}

/// `bits` is a finite non-negative number, and no other such number is
/// closer to the rational `num / den`.
pub open spec fn is_nearest(bits: u32, num: nat, den: nat) -> bool {
    &&& bits < INFINITY
    &&& forall|other: u32|
        other < INFINITY ==> error_to(bits, num, den) <= #[trigger] error_to(other, num, den)
}

/// A pattern below [`INFINITY`] is exactly a finite number with a clear
/// sign bit.
pub proof fn lemma_below_infinity(bits: u32)
    ensures
        bits < INFINITY <==> is_finite(bits) && !is_negative(bits),
{
}

/// The fields of a pattern that is put together from an exponent field
/// and a fraction field.
pub proof fn lemma_fields(bits: u32, e: nat, f: nat)
    requires
        bits == e * 0x80_0000 + f,
        e < 0x100,
        f < 0x80_0000,
    ensures
        exponent_field(bits) == e,
        fraction_field(bits) == f,
{
}

/// Going from a pattern to the next one adds one step to the magnitude.
pub proof fn lemma_magnitude_successor(bits: u32)
    requires
        bits + 1 < INFINITY,
    ensures
        magnitude((bits + 1) as u32) == magnitude(bits) + step(bits),
        step(bits) > 0,
{
    let e = exponent_field(bits);
    let f = fraction_field(bits);
    let next = (bits + 1) as u32;
    assert(bits == e * 0x80_0000 + f);
    if e > 0 {
        lemma_pow2_pos((e - 1) as nat);
    }
    if f + 1 < 0x80_0000 {
        lemma_fields(next, e, f + 1);
        if e > 0 {
            let p = pow2((e - 1) as nat);
            assert((0x80_0000 + (f + 1)) * p == (0x80_0000 + f) * p + p) by (nonlinear_arith);
        }
    } else {
        lemma_fields(next, e + 1, 0);
        if e == 0 {
            lemma2_to64();
        } else {
            let p = pow2((e - 1) as nat);
            lemma_pow2_unfold(e);
            assert(pow2(e) == 2 * p);
            assert(0x80_0000 * (2 * p) == (0x80_0000 + 0x7f_ffff) * p + p) by (nonlinear_arith);
        }
    }
}

/// Among finite non-negative patterns, a larger pattern is a larger number.
pub proof fn lemma_magnitude_increases(a: u32, b: u32)
    requires
        a < b < INFINITY,
    ensures
        magnitude(a) < magnitude(b),
    decreases b - a,
{
    let below = (b - 1) as u32;
    lemma_magnitude_successor(below);
    if a < below {
        lemma_magnitude_increases(a, below);
    }
}

/// The magnitude of a pattern with a non-zero exponent field `e`, written
/// with its whole significand `m` (the fraction field and the implicit
/// leading bit).
pub proof fn lemma_magnitude_normal(bits: u32, e: nat, m: nat)
    requires
        1 <= e < 0xff,
        0x80_0000 <= m < 0x100_0000,
        bits + 0x80_0000 == e * 0x80_0000 + m,
    ensures
        bits < INFINITY,
        exponent_field(bits) == e,
        magnitude(bits) == m * pow2((e - 1) as nat),
        step(bits) == pow2((e - 1) as nat),
{
    lemma_fields(bits, e, (m - 0x80_0000) as nat);
}

proof fn lemma_scale_order(den: nat, x: nat, y: nat)
    requires
        x < y,
        den > 0,
    ensures
        den * x < den * y,
{
    assert(den * x < den * y) by (nonlinear_arith)
        requires
            x < y,
            den > 0,
    ;
}

/// Where a pattern is at least as close to `num / den` as the next one
/// above it, every pattern further up is at least as far away as that
/// next one.
proof fn lemma_error_above(bits: u32, other: u32, num: nat, den: nat)
    requires
        bits < other < INFINITY,
        den > 0,
        error_to(bits, num, den) <= error_to((bits + 1) as u32, num, den),
    ensures
        error_to((bits + 1) as u32, num, den) <= error_to(other, num, den),
{
    let next = (bits + 1) as u32;
    lemma_magnitude_increases(bits, next);
    lemma_scale_order(den, magnitude(bits), magnitude(next));
    if next < other {
        lemma_magnitude_increases(next, other);
        lemma_scale_order(den, magnitude(next), magnitude(other));
    }
}

/// Where a pattern is at least as close to `num / den` as the next one
/// below it, every pattern further down is at least as far away as that
/// next one.
proof fn lemma_error_below(bits: u32, other: u32, num: nat, den: nat)
    requires
        other < bits < INFINITY,
        den > 0,
        error_to(bits, num, den) <= error_to((bits - 1) as u32, num, den),
    ensures
        error_to((bits - 1) as u32, num, den) <= error_to(other, num, den),
{
    let previous = (bits - 1) as u32;
    lemma_magnitude_increases(previous, bits);
    lemma_scale_order(den, magnitude(previous), magnitude(bits));
    if other < previous {
        lemma_magnitude_increases(other, previous);
        lemma_scale_order(den, magnitude(other), magnitude(previous));
    }
}

/// A pattern that is at least as close to `num / den` as both of its
/// neighbours is a nearest one.
pub proof fn lemma_nearest_by_neighbours(bits: u32, num: nat, den: nat)
    requires
        bits < INFINITY,
        den > 0,
        bits > 0 ==> error_to(bits, num, den) <= error_to((bits - 1) as u32, num, den),
        bits + 1 < INFINITY ==> error_to(bits, num, den) <= error_to(
            (bits + 1) as u32,
            num,
            den,
        ),
    ensures
        is_nearest(bits, num, den),
{
    assert forall|other: u32| other < INFINITY implies error_to(bits, num, den)
        <= #[trigger] error_to(other, num, den) by {
        if other < bits {
            lemma_error_below(bits, other, num, den);
        } else if other > bits {
            lemma_error_above(bits, other, num, den);
        }
    }
}

/// A pattern that is closer to `num / den` than both of its neighbours is
/// the only nearest one.
pub proof fn lemma_only_nearest_by_neighbours(bits: u32, num: nat, den: nat)
    requires
        bits < INFINITY,
        den > 0,
        bits > 0 ==> error_to(bits, num, den) < error_to((bits - 1) as u32, num, den),
        bits + 1 < INFINITY ==> error_to(bits, num, den) < error_to((bits + 1) as u32, num, den),
    ensures
        is_nearest(bits, num, den),
        forall|other: u32| is_nearest(other, num, den) ==> other == bits,
{
    lemma_nearest_by_neighbours(bits, num, den);
    assert forall|other: u32| is_nearest(other, num, den) implies other == bits by {
        if other < bits {
            lemma_error_below(bits, other, num, den);
        } else if other > bits {
            lemma_error_above(bits, other, num, den);
        }
        assert(error_to(other, num, den) <= error_to(bits, num, den));
    }
}

/// Rounding to nearest: the pattern with exponent field `e` and whole
/// significand `m` is the only nearest one to `num / den` when the
/// quotient lies less than half a step away from it. At the lower edge of
/// a binade, where the step below is narrower, the quotient must not lie
/// below the pattern.
pub proof fn lemma_round_to_nearest(bits: u32, e: nat, m: nat, num: nat, den: nat)
    requires
        1 <= e <= 150,
        0x80_0000 <= m < 0x100_0000,
        bits + 0x80_0000 == e * 0x80_0000 + m,
        den > 0,
        -(den as int) < 2 * (den * m - num * pow2((150 - e) as nat)) < den,
        m == 0x80_0000 ==> den * m <= num * pow2((150 - e) as nat),
    ensures
        is_nearest(bits, num, den),
        forall|other: u32| is_nearest(other, num, den) ==> other == bits,
{
    let p = pow2((e - 1) as nat);
    let q = pow2((150 - e) as nat);
    let d = den * m - num * q;
    let target = num * pow2(149);
    lemma_magnitude_normal(bits, e, m);
    lemma_pow2_pos((e - 1) as nat);
    lemma_pow2_adds((150 - e) as nat, (e - 1) as nat);
    assert(pow2(149) == q * p);
    assert(den * (m * p) - num * (q * p) == d * p) by (nonlinear_arith)
        requires
            d == den * m - num * q,
    ;
    // the pattern above
    let next = (bits + 1) as u32;
    lemma_magnitude_successor(bits);
    assert(den * (m * p + p) - num * (q * p) == (d + den) * p) by (nonlinear_arith)
        requires
            d == den * m - num * q,
    ;
    assert(d * p < (d + den) * p && -(d * p) < (d + den) * p) by (nonlinear_arith)
        requires
            p > 0,
            den > 0,
            -den < 2 * d,
    ;
    // the pattern below
    let previous = (bits - 1) as u32;
    if d <= 0 {
        lemma_magnitude_increases(previous, bits);
        lemma_scale_order(den, magnitude(previous), magnitude(bits));
        assert(d * p <= 0) by (nonlinear_arith)
            requires
                d <= 0,
                p > 0,
        ;
    } else {
        lemma_magnitude_normal(previous, e, (m - 1) as nat);
        assert(den * ((m - 1) * p) - num * (q * p) == (d - den) * p) by (nonlinear_arith)
            requires
                d == den * m - num * q,
        ;
        assert(d * p < (den - d) * p && (d - den) * p == -((den - d) * p) && 0 < d * p)
            by (nonlinear_arith)
            requires
                p > 0,
                d > 0,
                2 * d < den,
        ;
    }
    lemma_only_nearest_by_neighbours(bits, num, den);
}

} // verus!
