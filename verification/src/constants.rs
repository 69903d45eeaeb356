use vstd::prelude::*;
use crate::util::str_eq;

verus! {

// The builtin constant registry: a static, read-only name-to-number table,
// consulted before the Scope. Each value is written as the exact binary64
// bit pattern of the constant it stands for.

/// The bit pattern of the binary64 value nearest the circle constant.
pub const PI_BITS: u64 = 0x4009_21FB_5444_2D18;

/// The bit pattern of the binary64 value nearest Euler's number.
pub const E_BITS: u64 = 0x4005_BF0A_8B14_5769;

/// Positive infinity.
pub const INFINITY_BITS: u64 = 0x7FF0_0000_0000_0000;

/// Negative infinity.
pub const NEG_INFINITY_BITS: u64 = 0xFFF0_0000_0000_0000;

/// A quiet NaN: the seed of the folds behind `max` and `min`.
pub const NAN_BITS: u64 = 0x7FF8_0000_0000_0000;

/// The bit pattern of 1.0.
pub const ONE_BITS: u64 = 0x3FF0_0000_0000_0000;

/// The bit pattern of -1.0: what a unary minus multiplies by.
pub const NEG_ONE_BITS: u64 = 0xBFF0_0000_0000_0000;

/// The bit pattern of 180.0: the degree count of a half turn.
pub const D180_BITS: u64 = 0x4066_8000_0000_0000;

/// The bit pattern of positive zero.
pub const ZERO_BITS: u64 = 0x0000_0000_0000_0000;

/// The builtin constant bound to a name, if any.
pub open spec fn constant_of(name: Seq<char>) -> Option<u64> {
    if name == "PI"@ {
        Some(PI_BITS)
    } else if name == "E"@ {
        Some(E_BITS)
    } else if name == "INFINITY"@ {
        Some(INFINITY_BITS)
    } else if name == "NEG_INFINITY"@ {
        Some(NEG_INFINITY_BITS)
    } else {
        None
    }
}

/// Looks a name up in the builtin constant registry.
pub fn lookup_constant(name: &str) -> (r: Option<u64>)
    ensures
        r == constant_of(name@),
{
    if str_eq(name, "PI") {
        Some(PI_BITS)
    } else if str_eq(name, "E") {
        Some(E_BITS)
    } else if str_eq(name, "INFINITY") {
        Some(INFINITY_BITS)
    } else if str_eq(name, "NEG_INFINITY") {
        Some(NEG_INFINITY_BITS)
    } else {
        None
    }
}

} // verus!
