//! IEEE-754 values held by their bit patterns.
//!
//! A signal strength is a binary32 value and a trust score a binary64
//! value. The library keeps both as the integer encoding of the value and
//! compares them through an integer key: for two values that are not NaN,
//! the first is less than the second exactly when its key is less. Both
//! zeros have key 0. NaN compares false with everything.

use vstd::prelude::*;

verus! {

/// Encoding of 1.0 (binary32).
pub const ONE_BITS: u32 = 0x3F80_0000;

/// Encoding of -1.0 (binary32).
pub const MINUS_ONE_BITS: u32 = 0xBF80_0000;

/// Encoding of 0.05 (binary32): a decayed signal's magnitude lies below it.
pub const DECAY_FLOOR_BITS: u32 = 0x3D4C_CCCD;

/// Encoding of the positive infinity (binary32); larger magnitudes are NaN.
pub const INFINITY_BITS: u32 = 0x7F80_0000;

/// The sign bit of a binary32 encoding.
pub const SIGN_BIT: u32 = 0x8000_0000;

/// The encoding with the sign bit cleared (the magnitude).
pub open spec fn abs_bits(b: u32) -> u32 {
    if b >= SIGN_BIT {
        (b - SIGN_BIT) as u32
    } else {
        b
    }
}

/// The sign bit is set.
pub open spec fn sign_set(b: u32) -> bool {
    b >= SIGN_BIT
}

/// The encoding is a NaN.
pub open spec fn is_nan(b: u32) -> bool {
    abs_bits(b) > INFINITY_BITS
}

/// Order key of a binary32 encoding (meaningful when it is not a NaN).
pub open spec fn order_key(b: u32) -> int {
    if sign_set(b) {
        -(abs_bits(b) as int)
    } else {
        abs_bits(b) as int
    }
}

/// `a < b` on the values that the encodings stand for.
pub open spec fn less(a: u32, b: u32) -> bool {
    !is_nan(a) && !is_nan(b) && order_key(a) < order_key(b)
}

/// The value clamped to [-1, 1], a NaN giving -1: the value of
/// `x.max(-1.0).min(1.0)`.
pub open spec fn clamp_unit(b: u32) -> u32 {
    if is_nan(b) || less(b, MINUS_ONE_BITS) {
        MINUS_ONE_BITS
    } else if less(ONE_BITS, b) {
        ONE_BITS
    } else {
        b
    }
}

/// The magnitude of an encoding, as a binary32 encoding.
pub fn magnitude_bits(b: u32) -> (r: u32)
    ensures
        r == abs_bits(b),
{
    if b >= SIGN_BIT {
        b - SIGN_BIT
    } else {
        b
    }
}

/// The value with the magnitude of `b` and the given sign: `-|b|` when
/// `negative`, `|b|` otherwise.
pub open spec fn signed(negative: bool, b: u32) -> u32 {
    if negative {
        (abs_bits(b) + SIGN_BIT) as u32
    } else {
        abs_bits(b)
    }
}

/// `-|b|` when `negative`, `|b|` otherwise (binary32 encodings).
pub fn with_sign(negative: bool, b: u32) -> (r: u32)
    ensures
        r == signed(negative, b),
{
    let m = magnitude_bits(b);
    if negative {
        m + SIGN_BIT
    } else {
        m
    }
}

/// Whether the value is less than zero (false for both zeros and NaN).
pub fn is_below_zero(b: u32) -> (r: bool)
    ensures
        r == less(b, 0),
{
    b > SIGN_BIT && b - SIGN_BIT <= INFINITY_BITS
}

/// Whether the value of `a` is less than the value of `b`.
pub fn less_than(a: u32, b: u32) -> (r: bool)
    ensures
        r == less(a, b),
{
    let ma = magnitude_bits(a);
    let mb = magnitude_bits(b);
    if ma > INFINITY_BITS || mb > INFINITY_BITS {
        return false;
    }
    let sa = a >= SIGN_BIT;
    let sb = b >= SIGN_BIT;
    if sa && sb {
        mb < ma
    } else if sa {
        ma != 0 || mb != 0
    } else if sb {
        false
    } else {
        ma < mb
    }
}

/// Clamps a value to [-1, 1] as `x.max(-1.0).min(1.0)` does.
pub fn clamp_to_unit(b: u32) -> (r: u32)
    ensures
        r == clamp_unit(b),
{
    let m = magnitude_bits(b);
    if m > INFINITY_BITS || less_than(b, MINUS_ONE_BITS) {
        MINUS_ONE_BITS
    } else if less_than(ONE_BITS, b) {
        ONE_BITS
    } else {
        b
    }
}

/// Encoding of positive infinity (binary64).
pub const INFINITY_BITS64: u64 = 0x7FF0_0000_0000_0000;

/// The sign bit of a binary64 encoding.
pub const SIGN_BIT64: u64 = 0x8000_0000_0000_0000;

/// The encoding with the sign bit cleared (binary64).
pub open spec fn abs_bits64(b: u64) -> u64 {
    if b >= SIGN_BIT64 {
        (b - SIGN_BIT64) as u64
    } else {
        b
    }
}

/// The binary64 encoding is a NaN.
pub open spec fn is_nan64(b: u64) -> bool {
    abs_bits64(b) > INFINITY_BITS64
}

/// Order key of a binary64 encoding (meaningful when it is not a NaN).
pub open spec fn order_key64(b: u64) -> int {
    if b >= SIGN_BIT64 {
        -(abs_bits64(b) as int)
    } else {
        abs_bits64(b) as int
    }
}

/// `a < b` on the binary64 values that the encodings stand for.
pub open spec fn less64(a: u64, b: u64) -> bool {
    !is_nan64(a) && !is_nan64(b) && order_key64(a) < order_key64(b)
}

/// Whether the binary64 value of `a` is less than that of `b`.
pub fn less_than64(a: u64, b: u64) -> (r: bool)
    ensures
        r == less64(a, b),
{
    let ma = if a >= SIGN_BIT64 { a - SIGN_BIT64 } else { a };
    let mb = if b >= SIGN_BIT64 { b - SIGN_BIT64 } else { b };
    if ma > INFINITY_BITS64 || mb > INFINITY_BITS64 {
        return false;
    }
    let sa = a >= SIGN_BIT64;
    let sb = b >= SIGN_BIT64;
    if sa && sb {
        mb < ma
    } else if sa {
        ma != 0 || mb != 0
    } else if sb {
        false
    } else {
        ma < mb
    }
}

} // verus!
