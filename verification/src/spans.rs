//! Spans of time that the engine multiplies and divides with floating-point
//! numbers, and where that stays in range.
//!
//! The engine turns a span into seconds, as a 64-bit floating-point number,
//! multiplies or divides, and turns the outcome back into a span if it is no
//! greater than two to the power of 64, and into an infinite span otherwise. An
//! outcome of exactly that power does not fit a span, and there the engine
//! panics. Numbers are given by their bits; those of a number that is neither
//! negative nor undefined are no greater than [`BITS_INFINITE`].
use crate::engine::{DelayParts, BITS_ONE};
use crate::time::{ExtDuration, InGameTime, NANOS_PER_SEC};
use vstd::arithmetic::power2::{
    lemma2_to64, lemma2_to64_rest, lemma_pow2_adds, lemma_pow2_pos, lemma_pow2_strictly_increases,
    lemma_pow2_unfold, pow2,
};
use vstd::prelude::*;

verus! {

/// The bits of infinity.
pub const BITS_INFINITE: u64 = 0x7FF0_0000_0000_0000;

/// How many different bits numbers of the same exponent have.
pub const FRACTIONS: u64 = 0x10_0000_0000_0000;

/// The most seconds that a span can have and still be written as a
/// floating-point number and read back.
pub const MOST_SECS: u64 = 0xFFFF_FFFF_FFFF_FBFF;

/// Seconds that come close to two to the power of 64, yet are still below it
/// after any rounding.
pub const FAR_SECS: u64 = 0xFFFF_FFFF_0000_0000;

/// The exponent of a number, as its bits hold it: 1023 for numbers from one up
/// to below two.
pub open spec fn exponent(bits: u64) -> nat {
    (bits / FRACTIONS) as nat
}

/// The first 32 binary digits of a number.
pub open spec fn digits(bits: u64) -> nat {
    ((FRACTIONS + bits % FRACTIONS) / 0x20_0000) as nat
}

/// What the nanoseconds of a span times the [`digits`] of a number come to when
/// the span times the number is two to the power of 64 seconds.
pub open spec fn product_limit(bits: u64) -> nat
    recommends
        exponent(bits) <= 1118,
{
    NANOS_PER_SEC as nat * pow2((1118 - exponent(bits)) as nat)
}

/// Whether a span times a number stays below two to the power of 64 seconds,
/// also after rounding.
pub open spec fn product_short(nanos: nat, bits: u64) -> bool {
    ||| bits < BITS_ONE
    ||| nanos == 0
    ||| exponent(bits) <= 1118 && nanos * (digits(bits) + 2) < product_limit(bits)
}

/// Whether a span times a number goes beyond two to the power of 64 seconds,
/// also after rounding.
pub open spec fn product_long(nanos: nat, bits: u64) -> bool {
    &&& bits >= BITS_ONE
    &&& nanos > 0
    &&& exponent(bits) > 1118 || nanos * (digits(bits) - 1) > product_limit(bits)
}

/// A number of 32 digits, times two to the power of 64 and taken as seconds, in
/// nanoseconds.
pub open spec fn quotient_limit(digits: nat, exponent: nat) -> nat {
    if exponent >= 990 {
        NANOS_PER_SEC as nat * digits * pow2((exponent - 990) as nat)
    } else {
        NANOS_PER_SEC as nat * digits / pow2((990 - exponent) as nat)
    }
}

/// Whether a span over a number stays below two to the power of 64 seconds, also
/// after rounding.
pub open spec fn quotient_short(nanos: nat, bits: u64) -> bool {
    ||| bits > BITS_ONE
    ||| nanos == 0
    ||| nanos < quotient_limit((digits(bits) - 1) as nat, exponent(bits))
}

/// Whether a span over a number goes beyond two to the power of 64 seconds, also
/// after rounding.
pub open spec fn quotient_long(nanos: nat, bits: u64) -> bool {
    &&& bits <= BITS_ONE
    &&& nanos > quotient_limit(digits(bits) + 2, exponent(bits))
}

/// What the engine does to a span with a number.
#[derive(PartialEq, Eq, Structural, PartialOrd, Ord, Hash, Clone, Copy, Debug)]
pub enum Scaling {
    /// It multiplies the span.
    Times,
    /// It divides the span.
    Over,
}

/// Whether a span, and with it any shorter one, can be scaled by a number.
pub open spec fn scales_short(d: ExtDuration, by: Scaling, bits: u64) -> bool {
    match d {
        ExtDuration::Finite(t) => match by {
            Scaling::Times => product_short(t.nanos(), bits),
            Scaling::Over => quotient_short(t.nanos(), bits),
        },
        ExtDuration::Infinite => true,
    }
}

/// Whether a span can be scaled by a number: what comes of it is clearly below
/// two to the power of 64 seconds or clearly beyond.
pub open spec fn scales(d: ExtDuration, by: Scaling, bits: u64) -> bool {
    ||| scales_short(d, by, bits)
    ||| match d {
        ExtDuration::Finite(t) => match by {
            Scaling::Times => product_long(t.nanos(), bits),
            Scaling::Over => quotient_long(t.nanos(), bits),
        },
        ExtDuration::Infinite => true,
    }
}

/// A span that the engine can turn into a floating-point number and back.
pub open spec fn span_computable(d: ExtDuration) -> bool {
    match d {
        ExtDuration::Finite(t) => t.secs <= MOST_SECS,
        ExtDuration::Infinite => true,
    }
}

/// Whether a delay can be computed for any number of lines up to this one.
pub open spec fn delay_computable(parts: DelayParts, lines: nat) -> bool {
    &&& parts.factor_bits <= BITS_ONE
    &&& span_computable(parts.base_delay)
    &&& match parts.subtrahend {
        ExtDuration::Finite(t) => (t.secs + 1) * lines <= FAR_SECS,
        ExtDuration::Infinite => true,
    }
}

/// Whether every span can be scaled by a number: the number makes spans no longer,
/// or so much longer that any but an empty one goes beyond.
pub open spec fn every_span_scales(by: Scaling, bits: u64) -> bool {
    match by {
        Scaling::Times => bits < BITS_ONE || exponent(bits) > 1118,
        Scaling::Over => bits > BITS_ONE || exponent(bits) < 927,
    }
}

/// Whether any delay that lines can lead to can be scaled by a number. A delay
/// that does not shrink bit by bit is either the one at the start or the
/// smallest one.
pub open spec fn delay_scales(parts: DelayParts, by: Scaling, bits: u64) -> bool {
    ||| every_span_scales(by, bits)
    ||| scales_short(parts.base_delay, by, bits) && scales_short(parts.lowerbound, by, bits)
    ||| {
        &&& parts.constant() || parts.base_delay is Infinite
        &&& scales(parts.base_delay, by, bits)
        &&& scales(parts.lowerbound, by, bits)
    }
}

// ---------------------------------------------------------------------------
// Tests
// ---------------------------------------------------------------------------
/// Two to the power of a number that is not large.
fn power_of_two(k: u64) -> (p: u128)
    requires
        k <= 95,
    ensures
        p == pow2(k as nat),
        0 < p <= 0x8000_0000_0000_0000_0000_0000,
{
    let mut p: u128 = 1;
    proof {
        lemma2_to64();
        lemma_power_95();
    }
    for i in 0..k
        invariant
            k <= 95,
            p == pow2(i as nat),
            pow2(95) == 0x8000_0000_0000_0000_0000_0000,
    {
        proof {
            lemma_pow2_unfold((i + 1) as nat);
            lemma_pow2_strictly_increases(i as nat, 95);
        }
        p = p * 2;
    }
    proof {
        lemma_pow2_pos(k as nat);
        if k < 95 {
            lemma_pow2_strictly_increases(k as nat, 95);
        }
    }
    p
}

proof fn lemma_power_95()
    ensures
        pow2(95) == 0x8000_0000_0000_0000_0000_0000,
{
    lemma2_to64();
    lemma2_to64_rest();
    lemma_pow2_adds(64, 31);
}

fn exponent_of(bits: u64) -> (e: u64)
    ensures
        e == exponent(bits),
        e < 4096,
{
    bits / FRACTIONS
}

fn digits_of(bits: u64) -> (d: u128)
    ensures
        d == digits(bits),
        0x8000_0000 <= d < 0x1_0000_0000,
{
    ((FRACTIONS + bits % FRACTIONS) / 0x20_0000) as u128
}

/// A well-formed time has less than two to the power of 94 nanoseconds.
proof fn lemma_nanos_bound(t: InGameTime)
    requires
        t.wf(),
    ensures
        t.nanos() < 0x4000_0000_0000_0000_0000_0000,
{
}

fn is_product_short(t: InGameTime, bits: u64) -> (b: bool)
    requires
        t.wf(),
    ensures
        b == product_short(t.nanos(), bits),
{
    let nanos: u128 = t.as_nanos();
    let e: u64 = exponent_of(bits);
    if bits < BITS_ONE || nanos == 0 {
        return true;
    }
    if e > 1118 {
        return false;
    }
    let d: u128 = digits_of(bits);
    proof {
        lemma_nanos_bound(t);
    }
    assert(nanos * (d + 2) < 0x4000_0000_0000_0000_0000_0000 * 0x1_0000_0002) by (nonlinear_arith)
        requires
            nanos < 0x4000_0000_0000_0000_0000_0000,
            d < 0x1_0000_0000,
    ;
    nanos * (d + 2) < NANOS_PER_SEC * power_of_two(1118 - e)
}

fn is_product_long(t: InGameTime, bits: u64) -> (b: bool)
    requires
        t.wf(),
    ensures
        b == product_long(t.nanos(), bits),
{
    let nanos: u128 = t.as_nanos();
    let e: u64 = exponent_of(bits);
    if bits < BITS_ONE || nanos == 0 {
        return false;
    }
    if e > 1118 {
        return true;
    }
    let d: u128 = digits_of(bits);
    proof {
        lemma_nanos_bound(t);
    }
    assert(0 <= nanos * (d - 1) < 0x4000_0000_0000_0000_0000_0000 * 0x1_0000_0000) by (
        nonlinear_arith)
        requires
            nanos < 0x4000_0000_0000_0000_0000_0000,
            0x8000_0000 <= d < 0x1_0000_0000,
    ;
    nanos * (d - 1) > NANOS_PER_SEC * power_of_two(1118 - e)
}

/// The limit for a number that is at most one.
fn find_quotient_limit(digits: u128, exponent: u64) -> (limit: u128)
    requires
        digits <= 0x1_0000_0002,
        exponent <= 1023,
    ensures
        limit == quotient_limit(digits as nat, exponent as nat),
{
    let scaled: u128 = NANOS_PER_SEC * digits;
    if exponent >= 990 {
        let p: u128 = power_of_two(exponent - 990);
        proof {
            lemma2_to64();
            if exponent < 1023 {
                lemma_pow2_strictly_increases((exponent - 990) as nat, 33);
            }
            lemma2_to64_rest();
        }
        assert(scaled * p <= 1_000_000_000 * 0x1_0000_0002 * 0x2_0000_0000) by (nonlinear_arith)
            requires
                scaled <= 1_000_000_000 * 0x1_0000_0002,
                p <= 0x2_0000_0000,
        ;
        scaled * p
    } else if exponent >= 927 {
        scaled / power_of_two(990 - exponent)
    } else {
        proof {
            let p = pow2((990 - exponent) as nat);
            lemma2_to64();
            lemma2_to64_rest();
            lemma_pow2_strictly_increases(63, (990 - exponent) as nat);
            assert(scaled as nat / p == 0) by (nonlinear_arith)
                requires
                    scaled < p,
                    p > 0,
            ;
        }
        0
    }
}

fn is_quotient_short(t: InGameTime, bits: u64) -> (b: bool)
    requires
        t.wf(),
    ensures
        b == quotient_short(t.nanos(), bits),
{
    let nanos: u128 = t.as_nanos();
    if bits > BITS_ONE || nanos == 0 {
        return true;
    }
    nanos < find_quotient_limit(digits_of(bits) - 1, exponent_of(bits))
}

fn is_quotient_long(t: InGameTime, bits: u64) -> (b: bool)
    requires
        t.wf(),
    ensures
        b == quotient_long(t.nanos(), bits),
{
    if bits > BITS_ONE {
        return false;
    }
    t.as_nanos() > find_quotient_limit(digits_of(bits) + 2, exponent_of(bits))
}

/// Whether a span, and with it any shorter one, can be scaled by a number.
fn is_scalable_short(d: ExtDuration, by: Scaling, bits: u64) -> (b: bool)
    requires
        d.wf(),
    ensures
        b == scales_short(d, by, bits),
{
    match d {
        ExtDuration::Finite(t) => match by {
            Scaling::Times => is_product_short(t, bits),
            Scaling::Over => is_quotient_short(t, bits),
        },
        ExtDuration::Infinite => true,
    }
}

/// Whether a span can be scaled by a number.
pub fn is_scalable(d: ExtDuration, by: Scaling, bits: u64) -> (b: bool)
    requires
        d.wf(),
    ensures
        b == scales(d, by, bits),
{
    is_scalable_short(d, by, bits) || match d {
        ExtDuration::Finite(t) => match by {
            Scaling::Times => is_product_long(t, bits),
            Scaling::Over => is_quotient_long(t, bits),
        },
        ExtDuration::Infinite => true,
    }
}

/// Whether the engine can turn a span into a floating-point number and back.
pub fn is_span_computable(d: ExtDuration) -> (b: bool)
    ensures
        b == span_computable(d),
{
    match d {
        ExtDuration::Finite(t) => t.secs <= MOST_SECS,
        ExtDuration::Infinite => true,
    }
}

/// Whether a delay can be computed for any number of lines up to this one.
pub fn is_delay_computable(parts: &DelayParts, lines: u32) -> (b: bool)
    ensures
        b == delay_computable(*parts, lines as nat),
{
    parts.factor_bits <= BITS_ONE && is_span_computable(parts.base_delay)
        && match parts.subtrahend {
        ExtDuration::Finite(t) => {
            assert(0 <= (t.secs + 1) * lines <= 0x1_0000_0000_0000_0000 * 0xFFFF_FFFF) by (
                nonlinear_arith)
                requires
                    0 <= t.secs <= 0xFFFF_FFFF_FFFF_FFFF,
                    0 <= lines <= 0xFFFF_FFFF,
            ;
            (t.secs as u128 + 1) * lines as u128 <= FAR_SECS as u128
        },
        ExtDuration::Infinite => true,
    }
}

/// Whether any delay that lines can lead to can be scaled by a number.
pub fn is_delay_scalable(parts: &DelayParts, by: Scaling, bits: u64) -> (b: bool)
    requires
        parts.base_delay.wf(),
        parts.lowerbound.wf(),
    ensures
        b == delay_scales(*parts, by, bits),
{
    let settled = match parts.base_delay {
        ExtDuration::Infinite => true,
        ExtDuration::Finite(_) => parts.factor_bits == BITS_ONE && match parts.subtrahend {
            ExtDuration::Finite(t) => t.secs == 0 && t.subsec_nanos == 0,
            ExtDuration::Infinite => false,
        },
    };
    let every = match by {
        Scaling::Times => bits < BITS_ONE || exponent_of(bits) > 1118,
        Scaling::Over => bits > BITS_ONE || exponent_of(bits) < 927,
    };
    every || (is_scalable_short(parts.base_delay, by, bits) && is_scalable_short(
        parts.lowerbound,
        by,
        bits,
    )) || (settled && is_scalable(parts.base_delay, by, bits) && is_scalable(
        parts.lowerbound,
        by,
        bits,
    ))
}

// ---------------------------------------------------------------------------
// What is in range
// ---------------------------------------------------------------------------
/// Spans of less than almost two to the power of 60 seconds can be multiplied by
/// numbers of up to eight.
pub proof fn lemma_ordinary_product(d: ExtDuration, bits: u64)
    requires
        d matches ExtDuration::Finite(t) ==> t.secs < 0x0FFF_FFFF_FFFF_FFF0,
        bits <= 0x4020_0000_0000_0000,
    ensures
        scales_short(d, Scaling::Times, bits),
{
    if let ExtDuration::Finite(t) = d {
        if bits >= BITS_ONE && t.nanos() > 0 {
            let e = exponent(bits);
            assert(1023 <= e <= 1026);
            lemma_power_95();
            lemma_pow2_unfold(95);
            lemma_pow2_unfold(94);
            lemma_pow2_unfold(93);
            let p = pow2((1118 - e) as nat);
            assert(p >= 0x1000_0000_0000_0000_0000_0000);
            let n = t.nanos();
            let m = digits(bits);
            assert(m == 0x8000_0000 || e < 1026);
            if e == 1026 {
                assert(n * (m + 2) < 1_000_000_000 * p) by (nonlinear_arith)
                    requires
                        n < 0x1000_0000_0000_0000 * 1_000_000_000,
                        m == 0x8000_0000,
                        p >= 0x1000_0000_0000_0000_0000_0000,
                ;
            } else {
                assert(p >= 0x2000_0000_0000_0000_0000_0000);
                assert(n * (m + 2) < 1_000_000_000 * p) by (nonlinear_arith)
                    requires
                        n < 0x1000_0000_0000_0000 * 1_000_000_000,
                        m < 0x1_0000_0000,
                        p >= 0x2000_0000_0000_0000_0000_0000,
                ;
            }
        }
    }
}

} // verus!
