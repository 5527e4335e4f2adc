use vstd::prelude::*;

verus! {

/// Bit pattern of the sign of an `f32`.
pub const SIGN_BIT: u32 = 0x8000_0000;

/// Bit pattern of the `f32` positive infinity; above it in magnitude lie the NaNs.
pub const EXPONENT_MASK: u32 = 0x7f80_0000;

/// Whether the `f32` with bit pattern `b` is a NaN.
pub open spec fn is_nan(b: u32) -> bool {
    b % SIGN_BIT > EXPONENT_MASK
}

/// A key that orders `f32` values other than NaN as the reals do (both zeros get key 0):
/// the magnitude, negated when the sign bit is set.
pub open spec fn order_key(b: u32) -> int {
    if b >= SIGN_BIT {
        -((b - SIGN_BIT) as int)
    } else {
        b as int
    }
}

/// `a <= b` on the `f32` values with these bit patterns; false when either is a NaN.
pub open spec fn float_le(a: u32, b: u32) -> bool {
    !is_nan(a) && !is_nan(b) && order_key(a) <= order_key(b)
}

pub fn f32_is_nan(b: u32) -> (r: bool)
    ensures
        r == is_nan(b),
{
    b % SIGN_BIT > EXPONENT_MASK
}

/// `a <= b` on the `f32` values with these bit patterns.
pub fn f32_le(a: u32, b: u32) -> (r: bool)
    ensures
        r == float_le(a, b),
{
    if f32_is_nan(a) || f32_is_nan(b) {
        return false;
    }
    let a_neg = a >= SIGN_BIT;
    let b_neg = b >= SIGN_BIT;
    if a_neg && b_neg {
        b - SIGN_BIT <= a - SIGN_BIT
    } else if a_neg {
        true
    } else if b_neg {
        a == 0 && b == SIGN_BIT
    } else {
        a <= b
    }
}

} // verus!
