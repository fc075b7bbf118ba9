//! Single-precision sample values, seen through their bit patterns.
//!
//! The engine never performs amplitude arithmetic itself, but it does have to
//! compare sample values: the stereo combination rule branches on the pan
//! position and on whether the two input samples of a frame are equal. For
//! single-precision values both questions are settled by the bit patterns
//! alone: values order as sign-magnitude integers, the two zeros are equal,
//! and every ordered comparison with a not-a-number operand is false. That
//! behaviour is small enough to state directly, so it is implemented here on
//! the bit patterns and proved against its specification.

use vstd::prelude::*;

verus! {

/// Bit pattern of the sample value one: the unity gain setting.
pub const GAIN_UNITY_BITS: u32 = 0x3F80_0000;

/// Bit pattern of the sample value one half: the centered pan setting.
pub const PAN_CENTER_BITS: u32 = 0x3F00_0000;

/// A pattern encodes not-a-number when its exponent field is saturated and
/// its fraction field is not zero.
pub open spec fn is_nan(b: u32) -> bool {
    b & 0x7F80_0000 == 0x7F80_0000 && b & 0x007F_FFFF != 0
}

/// The sign bit of a pattern.
pub open spec fn is_negative(b: u32) -> bool {
    b & 0x8000_0000 == 0x8000_0000
}

/// The pattern with the sign bit cleared.
pub open spec fn magnitude(b: u32) -> u32 {
    b & 0x7FFF_FFFF
}

/// Sign-magnitude ordering key: finite and infinite values order by this key,
/// and exactly the two zeros share the key zero.
pub open spec fn order_key(b: u32) -> int {
    if is_negative(b) {
        -(magnitude(b) as int)
    } else {
        magnitude(b) as int
    }
}

/// Value equality of two patterns: false on any not-a-number operand, true
/// for the two zeros, and otherwise bit equality.
pub open spec fn val_eq(a: u32, b: u32) -> bool {
    !is_nan(a) && !is_nan(b) && order_key(a) == order_key(b)
}

/// Strict value order of two patterns: false on any not-a-number operand.
pub open spec fn val_lt(a: u32, b: u32) -> bool {
    !is_nan(a) && !is_nan(b) && order_key(a) < order_key(b)
}

fn nan_check(b: u32) -> (r: bool)
    ensures
        r == is_nan(b),
{
    b & 0x7F80_0000 == 0x7F80_0000 && b & 0x007F_FFFF != 0
}

fn key_of(b: u32) -> (k: i64)
    ensures
        k as int == order_key(b),
{
    let mag = (b & 0x7FFF_FFFF) as i64;
    if b & 0x8000_0000 == 0x8000_0000 {
        -mag
    } else {
        mag
    }
}

/// Whether two sample bit patterns hold equal values.
pub fn sample_eq(a: u32, b: u32) -> (r: bool)
    ensures
        r == val_eq(a, b),
{
    if nan_check(a) || nan_check(b) {
        false
    } else {
        key_of(a) == key_of(b)
    }
}

/// Whether the first sample bit pattern holds the strictly smaller value.
pub fn sample_lt(a: u32, b: u32) -> (r: bool)
    ensures
        r == val_lt(a, b),
{
    if nan_check(a) || nan_check(b) {
        false
    } else {
        key_of(a) < key_of(b)
    }
}

} // verus!
