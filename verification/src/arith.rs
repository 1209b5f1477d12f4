//! Exact comparison of products that do not fit a machine word.
use vstd::prelude::*;

verus! {

/// The weight of the high half of a 128-bit number.
pub open spec fn half() -> int {
    0x1_0000_0000_0000_0000
}

/// A product of two 128-bit numbers, in two 128-bit words.
fn wide_product(x: u128, y: u128) -> (words: (u128, u128))
    ensures
        words.0 * (half() * half()) + words.1 == x * y,
{
    let h: u128 = 0x1_0000_0000_0000_0000;
    let x1: u128 = x / h;
    let x0: u128 = x % h;
    let y1: u128 = y / h;
    let y0: u128 = y % h;
    assert(x0 * y0 <= 0xffff_ffff_ffff_fffe_0000_0000_0000_0001) by (nonlinear_arith)
        requires
            0 <= x0 <= half() - 1,
            0 <= y0 <= half() - 1,
    ;
    assert(x1 * y0 <= 0xffff_ffff_ffff_fffe_0000_0000_0000_0001) by (nonlinear_arith)
        requires
            0 <= x1 <= half() - 1,
            0 <= y0 <= half() - 1,
    ;
    assert(x0 * y1 <= 0xffff_ffff_ffff_fffe_0000_0000_0000_0001) by (nonlinear_arith)
        requires
            0 <= x0 <= half() - 1,
            0 <= y1 <= half() - 1,
    ;
    assert(x1 * y1 <= 0xffff_ffff_ffff_fffe_0000_0000_0000_0001) by (nonlinear_arith)
        requires
            0 <= x1 <= half() - 1,
            0 <= y1 <= half() - 1,
    ;
    let low: u128 = x0 * y0;
    let mid: u128 = x1 * y0 + low / h;
    let cross: u128 = x0 * y1 + mid % h;
    let high: u128 = x1 * y1 + mid / h + cross / h;
    let rest: u128 = (cross % h) * h + low % h;
    assert(high * (half() * half()) + rest == x * y) by (nonlinear_arith)
        requires
            x == x1 * half() + x0,
            y == y1 * half() + y0,
            low == x0 * y0,
            low == (low / h) * half() + low % h,
            mid == x1 * y0 + low / h,
            mid == (mid / h) * half() + mid % h,
            cross == x0 * y1 + mid % h,
            cross == (cross / h) * half() + cross % h,
            high == x1 * y1 + mid / h + cross / h,
            rest == (cross % h) * half() + low % h,
    ;
    (high, rest)
}

/// Whether `a * b <= c * d`, with the products taken exactly.
pub fn product_le(a: u128, b: u128, c: u128, d: u128) -> (le: bool)
    ensures
        le == (a * b <= c * d),
{
    let (left_high, left_low) = wide_product(a, b);
    let (right_high, right_low) = wide_product(c, d);
    proof {
        let unit = half() * half();
        if left_high < right_high {
            assert(left_high * unit + unit <= right_high * unit) by (nonlinear_arith)
                requires
                    left_high + 1 <= right_high,
                    unit >= 0,
            ;
        } else if right_high < left_high {
            assert(right_high * unit + unit <= left_high * unit) by (nonlinear_arith)
                requires
                    right_high + 1 <= left_high,
                    unit >= 0,
            ;
        }
    }
    left_high < right_high || (left_high == right_high && left_low <= right_low)
}

} // verus!
