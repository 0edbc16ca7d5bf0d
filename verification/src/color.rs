//! Colour channels: from eight bits to a number between zero and one.
//!
//! A channel value `c` stands for the fraction `c / 255`. The normalised
//! channel is the binary32 number nearest to that fraction, which is what
//! a correctly rounded floating-point division of `c` by `255` gives.

use vstd::prelude::*;
use vstd::arithmetic::div_mod::lemma_mod_multiples_basic;
use vstd::arithmetic::power2::{lemma_pow2_unfold, lemma2_to64, pow2};
use crate::single::{
    is_nearest, lemma_only_nearest_by_neighbours, lemma_round_to_nearest, ONE, ZERO,
};

verus! {

/// The binary32 number nearest to `c / 255`, as a bit pattern.
pub open spec fn channel_bits(c: u8) -> u32 {
    choose|bits: u32| is_nearest(bits, c as nat, 255)
}

/// The four channels of a colour, each normalised.
pub open spec fn rgba_bits(color: [u8; 4]) -> [u32; 4] {
    [
        channel_bits(color[0]),
        channel_bits(color[1]),
        channel_bits(color[2]),
        channel_bits(color[3]),
    ]
}

/// The exponent field of the binary32 number nearest to `c / 255`, for a
/// channel that is not zero: one less for each halving of the channel.
pub open spec fn channel_exponent(c: u8) -> nat {
    if c == 255 {
        127
    } else if c >= 128 {
        126
    } else if c >= 64 {
        125
    } else if c >= 32 {
        124
    } else if c >= 16 {
        123
    } else if c >= 8 {
        122
    } else if c >= 4 {
        121
    } else if c >= 2 {
        120
    } else {
        119
    }
}

/// The quotient of `n` by 255, rounded to the nearest integer. A
/// remainder of exactly one half cannot occur, 255 being odd.
pub open spec fn rounded_quotient(n: int) -> int {
    if n % 255 >= 128 {
        n / 255 + 1
    } else {
        n / 255
    }
}

/// The pattern with exponent field `e` and the whole significand `m`.
pub open spec fn pattern(e: nat, m: int) -> u32 {
    ((e - 1) * 0x80_0000 + m) as u32
}

/// Rounding the scaled channel: where a power of two `scale` brings
/// `c / 255` to a quotient of exactly twenty-four bits, that quotient,
/// rounded, is the significand of the one nearest number.
proof fn lemma_scaled_channel(c: u8, e: nat, scale: nat)
    requires
        119 <= e <= 127,
        scale == pow2((150 - e) as nat),
        scale % 0x80_0000 == 0,
        255 * 0x80_0000 <= c * scale < 255 * 0x100_0000,
        e == 127 ==> scale == 0x80_0000,
        e < 127 ==> scale >= 0x100_0000,
    ensures
        0x80_0000 <= rounded_quotient(c * scale) < 0x100_0000,
        is_nearest(pattern(e, rounded_quotient(c * scale)), c as nat, 255),
        forall|other: u32|
            is_nearest(other, c as nat, 255) ==> other == pattern(
                e,
                rounded_quotient(c * scale),
            ),
        pattern(e, rounded_quotient(c * scale)) == channel_bits(c),
        ZERO < pattern(e, rounded_quotient(c * scale)) <= ONE,
        c == 255 <==> pattern(e, rounded_quotient(c * scale)) == ONE,
{
    let n = c * scale;
    let m = rounded_quotient(n);
    let t = scale as int / 0x80_0000;
    assert(n == (c * t) * 0x80_0000) by (nonlinear_arith)
        requires
            n == c * scale,
            scale == t * 0x80_0000,
    ;
    lemma_mod_multiples_basic(c * t, 0x80_0000);
    assert(0x80_0000 <= m < 0x100_0000);
    if c == 255 && e < 127 {
        assert(n >= 255 * 0x100_0000) by (nonlinear_arith)
            requires
                n == c * scale,
                c == 255,
                scale >= 0x100_0000,
        ;
    }
    if e == 127 {
        assert(c == 255 && n == 255 * 0x80_0000) by (nonlinear_arith)
            requires
                n == c * scale,
                scale == 0x80_0000,
                n >= 255 * 0x80_0000,
                c <= 255,
        ;
    }
    lemma_round_to_nearest(pattern(e, m), e, m as nat, c as nat, 255);
}

/// The scaled numerator of a channel that is not zero has a quotient by
/// 255 of exactly twenty-four bits.
proof fn lemma_channel_numerator(c: u8, scale: nat)
    requires
        c >= 1,
        scale == pow2((150 - channel_exponent(c)) as nat),
    ensures
        255 * 0x80_0000 <= c * scale < 255 * 0x100_0000,
        scale % 0x80_0000 == 0,
        channel_exponent(c) == 127 ==> scale == 0x80_0000,
        channel_exponent(c) < 127 ==> scale >= 0x100_0000,
{
    lemma2_to64();
    assert(255 * 0x80_0000 <= c * scale < 255 * 0x100_0000) by (nonlinear_arith)
        requires
            c == 255 && scale == 0x80_0000 || 128 <= c < 255 && scale == 0x100_0000 || 64 <= c
                < 128 && scale == 0x200_0000 || 32 <= c < 64 && scale == 0x400_0000 || 16 <= c
                < 32 && scale == 0x800_0000 || 8 <= c < 16 && scale == 0x1000_0000 || 4 <= c < 8
                && scale == 0x2000_0000 || 2 <= c < 4 && scale == 0x4000_0000 || c == 1 && scale
                == 0x8000_0000,
    ;
}

/// Every channel has exactly one nearest number, [`channel_bits`] is that
/// number, and it lies between zero and one. For a channel that is not
/// zero it has the exponent field [`channel_exponent`] and the rounded
/// quotient of the scaled channel by 255 as its significand.
pub proof fn lemma_channel_bits(c: u8)
    ensures
        is_nearest(channel_bits(c), c as nat, 255),
        forall|other: u32| is_nearest(other, c as nat, 255) ==> other == channel_bits(c),
        ZERO <= channel_bits(c) <= ONE,
        c == 0 <==> channel_bits(c) == ZERO,
        c == 255 <==> channel_bits(c) == ONE,
        c >= 1 ==> channel_bits(c) == pattern(
            channel_exponent(c),
            rounded_quotient(c * pow2((150 - channel_exponent(c)) as nat)),
        ),
{
    if c == 0 {
        lemma_only_nearest_by_neighbours(ZERO, 0, 255);
    } else {
        let e = channel_exponent(c);
        let scale = pow2((150 - e) as nat);
        lemma_channel_numerator(c, scale);
        lemma_scaled_channel(c, e, scale);
    }
}

/// The ends of the range are exact: channel 0 is `0.0` and channel 255 is
/// `1.0`.
pub proof fn lemma_channel_ends()
    ensures
        channel_bits(0) == ZERO,
        channel_bits(255) == ONE,
{
    lemma_channel_bits(0);
    lemma_channel_bits(255);
}

/// A larger channel is a larger number.
pub proof fn lemma_channel_bits_increase(low: u8, high: u8)
    requires
        low < high,
    ensures
        channel_bits(low) < channel_bits(high),
{
    lemma_channel_bits(low);
    lemma_channel_bits(high);
    if low > 0 {
        let low_scale = pow2((150 - channel_exponent(low)) as nat);
        let high_scale = pow2((150 - channel_exponent(high)) as nat);
        lemma_channel_numerator(low, low_scale);
        lemma_channel_numerator(high, high_scale);
        lemma_scaled_channel(low, channel_exponent(low), low_scale);
        lemma_scaled_channel(high, channel_exponent(high), high_scale);
        if channel_exponent(low) == channel_exponent(high) {
            assert(low * low_scale + low_scale <= high * high_scale) by (nonlinear_arith)
                requires
                    low < high,
                    low_scale == high_scale,
            ;
        }
    }
}

/// Normalises one eight-bit channel to the binary32 number nearest to
/// `c / 255`. There is exactly one such number for every `c`; it lies
/// between zero and one, and the two ends of the range are exact.
pub fn normalize_channel(c: u8) -> (bits: u32)
    ensures
        bits == channel_bits(c),
        is_nearest(bits, c as nat, 255),
        forall|other: u32| is_nearest(other, c as nat, 255) ==> other == bits,
        bits <= ONE,
        c == 0 <==> bits == ZERO,
        c == 255 <==> bits == ONE,
{
    if c == 0 {
        proof {
            lemma_channel_bits(0);
        }
        return ZERO;
    }
    // Scale the numerator by a power of two until the quotient by 255 has
    // exactly twenty-four bits; each doubling lowers the exponent by one.
    let mut n: u64 = c as u64 * 0x80_0000;
    let mut e: u32 = 127;
    let ghost mut scale: nat = 0x80_0000;
    proof {
        lemma2_to64();
    }
    while n < 255 * 0x80_0000
        invariant
            c >= 1,
            119 <= e <= 127,
            scale == pow2((150 - e) as nat),
            scale % 0x80_0000 == 0,
            n == c * scale,
            n < 255 * 0x100_0000,
            e == 127 ==> scale == 0x80_0000,
            e < 127 ==> scale >= 0x100_0000,
        decreases e,
    {
        proof {
            assert(n >= scale) by (nonlinear_arith)
                requires
                    n == c * scale,
                    c >= 1,
            ;
            lemma2_to64();
            assert(e > 119);
            lemma_pow2_unfold((150 - (e - 1)) as nat);
            assert(c * (2 * scale) == 2 * (c * scale)) by (nonlinear_arith);
            scale = 2 * scale;
        }
        n = n * 2;
        e = e - 1;
    }
    let q: u64 = n / 255;
    let m: u64 = if n % 255 >= 128 {
        q + 1
    } else {
        q
    };
    proof {
        lemma_scaled_channel(c, e as nat, scale);
    }
    ((e as u64 - 1) * 0x80_0000 + m) as u32
}

/// Normalises the four channels of a colour.
pub fn normalize_rgba(color: [u8; 4]) -> (bits: [u32; 4])
    ensures
        bits == rgba_bits(color),
{
    [
        normalize_channel(color[0]),
        normalize_channel(color[1]),
        normalize_channel(color[2]),
        normalize_channel(color[3]),
    ]
}

} // verus!
