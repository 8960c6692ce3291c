//! Comparison of single-precision values through their IEEE 754 bit patterns.
//!
//! Mask confidences and scale factors are carried through the library as the
//! `u32` that `f32::to_bits` yields.  Ordering two such values needs no
//! floating-point arithmetic: the patterns of non-negative values are ordered
//! as the integers they are, and those of negative values the other way round.

use vstd::prelude::*;

verus! {

/// Bit pattern of positive zero.
pub const ZERO: u32 = 0;

/// Bit pattern of `1.0`.
pub const ONE: u32 = 0x3F80_0000;

/// Bit pattern of positive infinity, the largest pattern that is not a NaN
/// once the sign bit is cleared.
pub const INFINITY: u32 = 0x7F80_0000;

/// The sign bit.
pub const SIGN: u32 = 0x8000_0000;

/// Whether `bits` is the pattern of a NaN.
pub open spec fn nan(bits: u32) -> bool {
    bits as int % 0x8000_0000 > 0x7F80_0000
}

/// The integer that orders `bits` among the patterns that are not NaN: the
/// magnitude, negated when the sign bit is set.  Both zeros map to `0`.
pub open spec fn rank(bits: u32) -> int {
    if bits < SIGN {
        bits as int
    } else {
        SIGN - bits
    }
}

/// Whether `a` comes no earlier than `b` in the order of the patterns.
pub open spec fn no_less(a: u32, b: u32) -> bool {
    rank(a) >= rank(b)
}

/// Whether the value of `a` is at least the value of `b`; a NaN compares with
/// nothing.
pub open spec fn ge(a: u32, b: u32) -> bool {
    !nan(a) && !nan(b) && no_less(a, b)
}

/// Whether the value of `bits` lies between zero and one, both included.
pub open spec fn in_unit(bits: u32) -> bool {
    !nan(bits) && 0 <= rank(bits) <= ONE
}

/// Test `bits` for NaN.
pub fn is_nan(bits: u32) -> (r: bool)
    ensures
        r == nan(bits),
{
    bits % 0x8000_0000 > 0x7F80_0000
}

/// Test for an infinity of either sign.
pub fn is_infinite(bits: u32) -> (r: bool)
    ensures
        r == (bits as int % 0x8000_0000 == INFINITY),
{
    bits % 0x8000_0000 == INFINITY
}

/// Test `a >= b`.
pub fn at_least(a: u32, b: u32) -> (r: bool)
    ensures
        r == ge(a, b),
{
    !is_nan(a) && !is_nan(b) && is_no_less(a, b)
}

/// Compare two patterns.
pub fn is_no_less(a: u32, b: u32) -> (r: bool)
    ensures
        r == no_less(a, b),
{
    if a < SIGN {
        if b < SIGN {
            a >= b
        } else {
            true
        }
    } else if b < SIGN {
        a == SIGN && b == 0
    } else {
        a <= b
    }
}

/// Test for membership in the closed unit interval; NaN is outside.
pub fn is_in_unit(bits: u32) -> (r: bool)
    ensures
        r == in_unit(bits),
{
    bits <= ONE || bits == SIGN
}

/// Whether the number with the pattern `a` is at least the one with the pattern `b`,
/// by sign and magnitude; what is no number compares with nothing.
pub open spec fn value_at_least(a: u32, b: u32) -> bool {
    let (neg_a, size_a) = (a >= 0x8000_0000u32, a as int % 0x8000_0000);
    let (neg_b, size_b) = (b >= 0x8000_0000u32, b as int % 0x8000_0000);
    &&& size_a <= 0x7F80_0000
    &&& size_b <= 0x7F80_0000
    &&& if !neg_a && !neg_b {
        size_a >= size_b
    } else if neg_a && neg_b {
        size_a <= size_b
    } else if neg_b {
        true
    } else {
        size_a == 0 && size_b == 0
    }
}

/// The comparison is that of the numbers.
pub proof fn law_at_least(a: u32, b: u32, r: bool)
    requires
        call_ensures(at_least, (a, b), r),
    ensures
        r == value_at_least(a, b),
{
}

/// The comparison of patterns orders numbers as they are, is total, and compares
/// transitively.
pub proof fn law_order(a: u32, b: u32, c: u32)
    ensures
        ge(a, b) == value_at_least(a, b),
        no_less(a, b) || no_less(b, a),
        no_less(a, b) && no_less(b, c) ==> no_less(a, c),
        value_at_least(a, b) ==> no_less(a, b),
        !nan(a) && !nan(b) && no_less(a, b) ==> value_at_least(a, b),
        nan(a) <==> !value_at_least(a, a),
{
}

/// The unit interval is what lies between zero and one, both included.
pub proof fn law_unit_interval(bits: u32, r: bool)
    requires
        call_ensures(is_in_unit, (bits,), r),
    ensures
        r == (value_at_least(bits, 0u32) && value_at_least(0x3F80_0000u32, bits)),
        r == in_unit(bits),
{
}

/// An infinity is a number beyond every finite one, of either sign.
pub proof fn law_infinite(bits: u32, r: bool)
    requires
        call_ensures(is_infinite, (bits,), r),
    ensures
        r == (bits == 0x7F80_0000u32 || bits == 0xFF80_0000u32),
{
}

/// What is no number is beyond both infinities.
pub proof fn law_nan(bits: u32, r: bool)
    requires
        call_ensures(is_nan, (bits,), r),
    ensures
        r == (0x7F80_0000u32 < bits < 0x8000_0000u32 || 0xFF80_0000u32 < bits),
        r == !value_at_least(bits, bits),
{
}

} // verus!
