//! What can be read off the bit pattern of a sample.
//!
//! A sample is a 32-bit float: a sign bit, eight bits of exponent and 23 bits of
//! fraction. Without the sign, patterns are ordered as the numbers are.
use vstd::prelude::*;

verus! {

/// The bit pattern of infinity; patterns beyond it are not numbers.
pub const INFINITY: u32 = 0x7f80_0000;

/// The pattern without its sign.
pub open spec fn magnitude(bits: u32) -> u32 {
    if bits >= 0x8000_0000 {
        (bits - 0x8000_0000) as u32
    } else {
        bits
    }
}

/// Whether the pattern is not a number.
pub open spec fn is_nan(bits: u32) -> bool {
    magnitude(bits) > INFINITY
}

pub fn magnitude_of(bits: u32) -> (m: u32)
    ensures
        m == magnitude(bits),
{
    if bits >= 0x8000_0000 {
        bits - 0x8000_0000
    } else {
        bits
    }
}

/// The loudest of some samples; silence if there are none. What is not a number
/// counts for nothing.
pub open spec fn loudest(samples: Seq<u32>) -> u32
    decreases samples.len(),
{
    if samples.len() == 0 {
        0
    } else {
        let rest = loudest(samples.drop_last());
        let m = magnitude(samples.last());
        if m <= INFINITY && m > rest {
            m
        } else {
            rest
        }
    }
}

pub fn peak_of(samples: &Vec<u32>) -> (peak: u32)
    ensures
        peak == loudest(samples@),
{
    let mut peak: u32 = 0;
    let mut n: usize = 0;
    proof {
        assert(samples@.take(0) =~= Seq::<u32>::empty());
    }
    while n < samples.len()
        invariant
            n <= samples@.len(),
            peak == loudest(samples@.take(n as int)),
        decreases samples@.len() - n,
    {
        proof {
            assert(samples@.take(n + 1).drop_last() =~= samples@.take(n as int));
        }
        let m: u32 = magnitude_of(samples[n]);
        if m <= INFINITY && m > peak {
            peak = m;
        }
        n = n + 1;
    }
    proof {
        assert(samples@.take(n as int) =~= samples@);
    }
    peak
}

/// Two to the power of `n`.
pub open spec fn two_to(n: nat) -> nat
    decreases n,
{
    if n == 0 {
        1
    } else {
        2 * two_to((n - 1) as nat)
    }
}

fn power_of_two(n: u64) -> (power: u64)
    requires
        n <= 40,
    ensures
        power == two_to(n as nat),
        0 < power <= 0x100_0000_0000,
{
    let mut power: u64 = 1;
    let mut m: u64 = 0;
    proof {
        lemma_two_to_grows(0, 40);
        reveal_with_fuel(two_to, 41);
        assert(two_to(40) == 0x100_0000_0000);
    }
    while m < n
        invariant
            m <= n <= 40,
            power == two_to(m as nat),
            two_to(40) == 0x100_0000_0000,
        decreases n - m,
    {
        proof {
            lemma_two_to_grows(m as nat + 1, 40);
        }
        power = power * 2;
        m = m + 1;
    }
    proof {
        lemma_two_to_grows(n as nat, 40);
    }
    power
}

proof fn lemma_two_to_grows(m: nat, n: nat)
    requires
        m <= n,
    ensures
        0 < two_to(m) <= two_to(n),
    decreases n,
{
    if m < n {
        lemma_two_to_grows(m, (n - 1) as nat);
    } else if n > 0 {
        lemma_two_to_grows((n - 1) as nat, (n - 1) as nat);
    }
}

/// `x / unit` to the nearest whole number, halves to the even one.
pub open spec fn nearest_even(x: int, unit: int) -> int {
    let whole = x / unit;
    let rest = x % unit;
    if 2 * rest < unit || (2 * rest == unit && whole % 2 == 0) {
        whole
    } else {
        whole + 1
    }
}

/// `x / unit` to the nearest whole number, halves up.
pub open spec fn nearest_up(x: int, unit: int) -> int {
    (2 * x + unit) / (2 * unit)
}

/// How loud a sample is on the scale of 16-bit audio, where full scale is 32767.
///
/// Anything at or past full scale is clipped. Below that, the sample is
/// multiplied by full scale as floats are multiplied, which keeps 24 significant
/// bits of the product, and rounded to the nearest whole number, halves up. What
/// is under 2^-16 rounds to nothing.
pub open spec fn pcm_magnitude(bits: u32) -> int {
    let exponent = magnitude(bits) as int / 0x80_0000;
    let significand = 0x80_0000 + magnitude(bits) as int % 0x80_0000;
    if is_nan(bits) || exponent < 111 {
        0
    } else if exponent >= 127 {
        32767
    } else {
        let product = significand * 32767;
        let excess: nat = if product >= 0x40_0000_0000 {
            15
        } else {
            14
        };
        let kept = nearest_even(product, two_to(excess) as int);
        nearest_up(kept, two_to((150 - excess - exponent) as nat) as int)
    }
}

/// A sample as 16-bit audio.
pub open spec fn pcm(bits: u32) -> int {
    if bits >= 0x8000_0000 {
        -pcm_magnitude(bits)
    } else {
        pcm_magnitude(bits)
    }
}

/// A sample as 16-bit audio.
pub fn pcm16(bits: u32) -> (value: i16)
    ensures
        value == pcm(bits),
{
    let m: u32 = magnitude_of(bits);
    let exponent: u64 = m as u64 / 0x80_0000;
    let loud: i16 = if m > INFINITY || exponent < 111 {
        0
    } else if exponent >= 127 {
        32767
    } else {
        let product: u64 = (0x80_0000 + m as u64 % 0x80_0000) * 32767;
        let excess: u64 = if product >= 0x40_0000_0000 {
            15
        } else {
            14
        };
        let unit: u64 = power_of_two(excess);
        proof {
            reveal_with_fuel(two_to, 16);
        }
        let whole: u64 = product / unit;
        let rest: u64 = product % unit;
        let kept: u64 = if 2 * rest < unit || (2 * rest == unit && whole % 2 == 0) {
            whole
        } else {
            whole + 1
        };
        proof {
            assert(two_to(14) == 16384 && two_to(15) == 32768);
            if excess == 14 {
                assert(whole == product as int / 16384);
            } else {
                assert(whole == product as int / 32768);
            }
            assert(kept <= 0x100_0000);
        }
        let scale: u64 = power_of_two(150 - excess - exponent);
        proof {
            lemma_two_to_grows(9, (150 - excess - exponent) as nat);
            reveal_with_fuel(two_to, 16);
            assert(kept == nearest_even(product as int, unit as int));
            if excess == 14 {
                lemma_two_to_grows(10, (150 - excess - exponent) as nat);
                assert(product <= 0x40_0000_0000 - 1);
            }
        }
        let rounded: u64 = (2 * kept + scale) / (2 * scale);
        proof {
            lemma_rounded_fits(product as int, excess as int, kept as int, scale as int);
        }
        rounded as i16
    };
    if bits >= 0x8000_0000 {
        -loud
    } else {
        loud
    }
}

/// What is under full scale does not round past it.
proof fn lemma_rounded_fits(product: int, excess: int, kept: int, scale: int)
    requires
        0 <= product < 0x100_0000 * 32767,
        excess == 14 || excess == 15,
        excess == 14 ==> product < 0x40_0000_0000,
        kept == nearest_even(product, two_to(excess as nat) as int),
        excess == 14 ==> scale >= 1024,
        excess == 15 ==> scale >= 512,
    ensures
        0 <= nearest_up(kept, scale) <= 32767,
{
    reveal_with_fuel(two_to, 16);
    let full = if excess == 14 {
        1024int
    } else {
        512
    };
    assert(two_to(14) == 16384 && two_to(15) == 32768);
    assert(0 <= kept);
    assert(kept <= 32767 * full);
    assert((2 * kept + scale) / (2 * scale) <= 32767) by (nonlinear_arith)
        requires
            0 <= kept <= 32767 * full,
            scale >= full,
            full > 0,
    ;
    assert((2 * kept + scale) / (2 * scale) >= 0) by (nonlinear_arith)
        requires
            0 <= kept,
            scale > 0,
    ;
}

/// The loudest of some samples is as loud as one of them, or silent, and none that is a
/// number is louder. The sign does not count.
pub proof fn law_loudest_is_the_loudest(samples: Seq<u32>, n: int)
    requires
        0 <= n < samples.len(),
    ensures
        samples[n] <= 0x7f80_0000 ==> samples[n] <= loudest(samples),
        0x8000_0000 <= samples[n] <= 0xff80_0000 ==> samples[n] - 0x8000_0000 <= loudest(samples),
        loudest(samples) == 0 || exists|k: int|
            0 <= k < samples.len() && (#[trigger] samples[k] == loudest(samples) || samples[k]
                == loudest(samples) + 0x8000_0000),
        loudest(samples) <= 0x7f80_0000,
        loudest(Seq::empty()) == 0,
    decreases samples.len(),
{
    let rest = samples.drop_last();
    if rest.len() > 0 {
        law_loudest_is_the_loudest(rest, if n < rest.len() {
            n
        } else {
            0
        });
        if n < rest.len() {
            assert(rest[n] == samples[n]);
        }
        if loudest(rest) != 0 && loudest(samples) == loudest(rest) {
            let k = choose|k: int|
                0 <= k < rest.len() && (#[trigger] rest[k] == loudest(rest) || rest[k] == loudest(
                    rest,
                ) + 0x8000_0000);
            assert(samples[k] == rest[k]);
        }
    } else {
        assert(loudest(rest) == 0);
    }
    let last = samples[samples.len() - 1];
    assert(last == samples.last());
    if n == samples.len() - 1 {
        assert(samples[n] == last);
    }
}

/// A sample and its opposite are equally loud in the file; full scale and beyond is
/// 32767, what is no number is silence, and nothing is louder than full scale.
pub proof fn law_samples_are_clipped(bits: u32)
    ensures
        bits < 0x8000_0000 ==> pcm((bits + 0x8000_0000) as u32) == -pcm(bits),
        0x3f80_0000 <= bits <= 0x7f80_0000 ==> pcm(bits) == 32767,
        0x7f80_0000 < bits < 0x8000_0000 ==> pcm(bits) == 0,
        bits < 0x3780_0000 ==> pcm(bits) == 0,
        bits < 0x8000_0000 ==> 0 <= pcm(bits) <= 32767,
{
    if bits < 0x8000_0000 {
        let other = (bits + 0x8000_0000) as u32;
        assert(magnitude(other) == magnitude(bits));
        if 0x3780_0000 <= bits < 0x3f80_0000 {
            lemma_pcm_scale(bits);
        }
    }
}

/// Nothing is louder than full scale, either way.
pub(crate) proof fn lemma_pcm_range(bits: u32)
    ensures
        -32767 <= pcm(bits) <= 32767,
{
    let opposite = if bits >= 0x8000_0000 {
        (bits - 0x8000_0000) as u32
    } else {
        bits
    };
    law_samples_are_clipped(opposite);
}

/// Rounding is off by half a unit at most.
proof fn lemma_nearest_even(x: int, unit: int)
    requires
        unit > 0,
    ensures
        -unit <= 2 * (nearest_even(x, unit) * unit - x) <= unit,
{
    let (whole, rest) = (x / unit, x % unit);
    assert(x == whole * unit + rest && 0 <= rest < unit) by (nonlinear_arith)
        requires
            whole == x / unit,
            rest == x % unit,
            unit > 0,
    ;
    assert((whole + 1) * unit == whole * unit + unit) by (nonlinear_arith);
}

/// Powers of two multiply.
proof fn lemma_two_to_adds(m: nat, n: nat)
    ensures
        two_to(m + n) == two_to(m) * two_to(n),
    decreases m,
{
    let b = two_to(n) as int;
    if m > 0 {
        lemma_two_to_adds((m - 1) as nat, n);
        let a = two_to((m - 1) as nat) as int;
        assert(2 * (a * b) == (2 * a) * b) by (nonlinear_arith);
        assert((m + n - 1) as nat == (m - 1) as nat + n);
        assert(two_to(m + n) == 2 * two_to((m + n - 1) as nat));
        assert(two_to(m) == 2 * a);
    } else {
        assert(1 * b == b) by (nonlinear_arith);
    }
}

proof fn lemma_pcm_scale(bits: u32)
    requires
        0x3780_0000 <= bits < 0x3f80_0000,
    ensures
        ({
            let exponent = bits as int / 0x80_0000;
            let product = (0x80_0000 + bits as int % 0x80_0000) * 32767;
            let excess: nat = if product >= 0x40_0000_0000 {
                15
            } else {
                14
            };
            let kept = nearest_even(product, two_to(excess) as int);
            let scale = two_to((150 - excess - exponent) as nat) as int;
            &&& 111 <= exponent <= 126
            &&& pcm(bits) == nearest_up(kept, scale)
            &&& 0 <= pcm(bits) <= 32767
            &&& scale > 0
        }),
{
    reveal_with_fuel(two_to, 16);
    let exponent = bits as int / 0x80_0000;
    let product = (0x80_0000 + bits as int % 0x80_0000) * 32767;
    let excess: nat = if product >= 0x40_0000_0000 {
        15
    } else {
        14
    };
    let kept = nearest_even(product, two_to(excess) as int);
    lemma_two_to_grows(9, (150 - excess - exponent) as nat);
    if excess == 14 {
        lemma_two_to_grows(10, (150 - excess - exponent) as nat);
    }
    let scale = two_to((150 - excess - exponent) as nat) as int;
    lemma_rounded_fits(product, excess as int, kept, scale);
}

/// Between silence and full scale a sample is written as the nearest step of 32767: a
/// sample of `significand * 2^(exponent - 150)` lies within half a step, and a 512th of
/// that for the multiplication of floats, of what is written.
pub proof fn law_samples_are_scaled(bits: u32)
    requires
        0x3780_0000 <= bits < 0x3f80_0000,
    ensures
        ({
            let exponent = bits as int / 0x80_0000;
            let significand = 0x80_0000 + bits as int % 0x80_0000;
            let step = two_to((150 - exponent) as nat) as int;
            let off = pcm(bits) * step - significand * 32767;
            &&& -(step + 0x8000) <= 2 * off <= step + 0x8000
            &&& step >= 0x100_0000
        }),
{
    let exponent = bits as int / 0x80_0000;
    let product = (0x80_0000 + bits as int % 0x80_0000) * 32767;
    let excess: nat = if product >= 0x40_0000_0000 {
        15
    } else {
        14
    };
    let unit = two_to(excess) as int;
    let kept = nearest_even(product, unit);
    let scale = two_to((150 - excess - exponent) as nat) as int;
    let step = two_to((150 - exponent) as nat) as int;
    lemma_pcm_scale(bits);
    lemma_two_to_adds(excess, (150 - excess - exponent) as nat);
    reveal_with_fuel(two_to, 16);
    assert(unit == 16384 || unit == 32768);
    assert(step == unit * scale);
    lemma_two_to_grows(24, (150 - exponent) as nat);
    assert(two_to(24) == 0x100_0000) by {
        reveal_with_fuel(two_to, 25);
    }
    // The product keeps its leading bits.
    lemma_nearest_even(product, unit);
    // Rounding to a whole step.
    let loud = nearest_up(kept, scale);
    assert(-scale <= 2 * (loud * scale - kept) <= scale) by (nonlinear_arith)
        requires
            loud == (2 * kept + scale) / (2 * scale),
            scale > 0,
    ;
    let (e, f) = (loud * scale - kept, kept * unit - product);
    assert(loud * (unit * scale) - product == e * unit + f) by (nonlinear_arith)
        requires
            e == loud * scale - kept,
            f == kept * unit - product,
    ;
    assert(-(unit * scale) <= 2 * (e * unit) <= unit * scale) by (nonlinear_arith)
        requires
            -scale <= 2 * e <= scale,
            unit > 0,
    ;
}

} // verus!
