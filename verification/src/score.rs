//! Ordering damage values without floating point arithmetic.
//!
//! A damage value is a double-precision number (IEEE 754 binary64). Its bit
//! pattern holds the sign in the top bit and the magnitude, exponent first, in the
//! 63 bits below, so that among numbers of one sign a larger magnitude field means
//! a number further from zero. A magnitude field above that of infinity marks a
//! value that is not a number.
//!
//! [`score_key`] maps a bit pattern to an unsigned key that grows with the value:
//! negative numbers come first, the two zeros share one key, and every
//! not-a-number shares the highest key of all.

use vstd::prelude::*;

verus! {

/// The sign bit of a binary64 bit pattern.
pub const SIGN_BIT: u64 = 0x8000_0000_0000_0000;

/// The bit pattern of positive infinity: the largest magnitude that is a number.
pub const INFINITY_BITS: u64 = 0x7ff0_0000_0000_0000;

/// Whether the sign bit of `bits` is set.
pub open spec fn is_negative(bits: u64) -> bool {
    bits >= SIGN_BIT
}

/// The 63 bits of `bits` below the sign bit.
pub open spec fn magnitude(bits: u64) -> int {
    if is_negative(bits) {
        bits - SIGN_BIT
    } else {
        bits as int
    }
}

/// Whether `bits` encodes a value that is not a number.
pub open spec fn is_nan(bits: u64) -> bool {
    magnitude(bits) > INFINITY_BITS
}

/// The magnitude of `bits` with its sign: what orders the numbers.
pub open spec fn signed_magnitude(bits: u64) -> int {
    if is_negative(bits) {
        -magnitude(bits)
    } else {
        magnitude(bits)
    }
}

/// The key of `bits`: the highest key for a value that is not a number, otherwise
/// the signed magnitude shifted into the unsigned range.
pub open spec fn order_key(bits: u64) -> int {
    if is_nan(bits) {
        u64::MAX as int
    } else {
        SIGN_BIT + signed_magnitude(bits)
    }
}

/// The key by which the value with bit pattern `bits` is ordered.
pub fn score_key(bits: u64) -> (key: u64)
    ensures
        key == order_key(bits),
{
    let negative = bits >= SIGN_BIT;
    let magnitude = if negative {
        bits - SIGN_BIT
    } else {
        bits
    };
    if magnitude > INFINITY_BITS {
        u64::MAX
    } else if negative {
        SIGN_BIT - magnitude
    } else {
        SIGN_BIT + magnitude
    }
}

/// Keys order the values: a number lies below another exactly when its signed
/// magnitude is smaller, every number lies below every not-a-number, and two
/// values share a key exactly when both are not numbers or their signed
/// magnitudes agree, as those of the two zeros do.
pub proof fn lemma_key_order(a: u64, b: u64)
    ensures
        order_key(a) < order_key(b) <==> !is_nan(a) && (is_nan(b) || signed_magnitude(a)
            < signed_magnitude(b)),
        order_key(a) == order_key(b) <==> (is_nan(a) && is_nan(b)) || (!is_nan(a) && !is_nan(b)
            && signed_magnitude(a) == signed_magnitude(b)),
{
}

} // verus!
