use vstd::prelude::*;
use crate::value::Value;

verus! {

// The comparison semantics of IEEE-754 binary64 values, stated and proved
// over bit patterns. A binary64 value is NaN when its exponent field is all
// ones and its significand is not zero; apart from NaN, two values compare
// like their real numbers, the two zeros being equal. On the bit level that
// order is exactly the order of `key`: the magnitude bits, negated when the
// sign bit is set.

pub const F64_SIGN_MASK: u64 = 0x8000_0000_0000_0000;

pub const F64_ABS_MASK: u64 = 0x7FFF_FFFF_FFFF_FFFF;

pub const F64_EXP_MASK: u64 = 0x7FF0_0000_0000_0000;

/// The magnitude bits: everything but the sign.
pub open spec fn abs_bits(b: u64) -> u64 {
    b & F64_ABS_MASK
}

pub open spec fn is_sign_neg(b: u64) -> bool {
    b & F64_SIGN_MASK != 0
}

/// NaN: exponent all ones, significand not zero.
pub open spec fn is_nan_bits(b: u64) -> bool {
    abs_bits(b) > F64_EXP_MASK
}

/// Positive or negative zero.
pub open spec fn is_zero_bits(b: u64) -> bool {
    abs_bits(b) == 0
}

/// Linearizes the non-NaN binary64 values: key(a) < key(b) exactly when the
/// number behind `a` is below the number behind `b`, and key(a) == key(b)
/// exactly when they denote the same number (so both zeros map to 0).
pub open spec fn key(b: u64) -> int {
    if is_sign_neg(b) {
        -(abs_bits(b) as int)
    } else {
        abs_bits(b) as int
    }
}

/// IEEE equality: false as soon as one side is NaN, otherwise equality of
/// the denoted numbers.
pub open spec fn ieee_eq(a: u64, b: u64) -> bool {
    !is_nan_bits(a) && !is_nan_bits(b) && key(a) == key(b)
}

/// IEEE strict order: false as soon as one side is NaN.
pub open spec fn ieee_lt(a: u64, b: u64) -> bool {
    !is_nan_bits(a) && !is_nan_bits(b) && key(a) < key(b)
}

pub open spec fn ieee_le(a: u64, b: u64) -> bool {
    ieee_lt(a, b) || ieee_eq(a, b)
}

pub fn f64_is_nan(b: u64) -> (r: bool)
    ensures
        r == is_nan_bits(b),
{
    (b & F64_ABS_MASK) > F64_EXP_MASK
}

pub fn f64_is_zero(b: u64) -> (r: bool)
    ensures
        r == is_zero_bits(b),
{
    (b & F64_ABS_MASK) == 0
}

/// IEEE absolute value: the sign bit cleared, every other bit kept (NaN
/// included).
pub fn f64_abs(b: u64) -> (r: u64)
    ensures
        r == abs_bits(b),
{
    b & F64_ABS_MASK
}

pub fn f64_eq(a: u64, b: u64) -> (r: bool)
    ensures
        r == ieee_eq(a, b),
{
    let na = a & F64_ABS_MASK;
    let nb = b & F64_ABS_MASK;
    if na > F64_EXP_MASK || nb > F64_EXP_MASK {
        false
    } else if na == 0 && nb == 0 {
        true
    } else {
        proof {
            lemma_key_eq_same_bits(a, b);
        }
        a == b
    }
}

pub fn f64_lt(a: u64, b: u64) -> (r: bool)
    ensures
        r == ieee_lt(a, b),
{
    let na = a & F64_ABS_MASK;
    let nb = b & F64_ABS_MASK;
    if na > F64_EXP_MASK || nb > F64_EXP_MASK {
        return false;
    }
    let a_neg = (a & F64_SIGN_MASK) != 0;
    let b_neg = (b & F64_SIGN_MASK) != 0;
    if !a_neg && !b_neg {
        na < nb
    } else if a_neg && b_neg {
        nb < na
    } else if a_neg {
        // a <= 0 <= b: strictly below unless both are zeros.
        !(na == 0 && nb == 0)
    } else {
        // a >= 0 >= b: never strictly below.
        false
    }
}

pub fn f64_le(a: u64, b: u64) -> (r: bool)
    ensures
        r == ieee_le(a, b),
{
    let lt = f64_lt(a, b);
    let eq = f64_eq(a, b);
    lt || eq
}

/// Unless both magnitudes are zero, equal keys force equal bits.
proof fn lemma_key_eq_same_bits(a: u64, b: u64)
    requires
        !(abs_bits(a) == 0 && abs_bits(b) == 0),
    ensures
        key(a) == key(b) ==> a == b,
{
    if key(a) == key(b) {
        if is_sign_neg(a) != is_sign_neg(b) {
            assert(abs_bits(a) == 0 && abs_bits(b) == 0);
        }
        assert(abs_bits(a) == abs_bits(b));
        assert((a & 0x7FFF_FFFF_FFFF_FFFFu64) == (b & 0x7FFF_FFFF_FFFF_FFFFu64) && ((a
            & 0x8000_0000_0000_0000u64 != 0) == (b & 0x8000_0000_0000_0000u64 != 0)) ==> a
            == b) by (bit_vector);
    }
}

/// The larger of two numbers, NaN ignored: if one argument is NaN the other
/// is returned; on a tie (equal numbers, the two zeros included) the first
/// argument is returned.
pub open spec fn max_bits(a: u64, b: u64) -> u64 {
    if is_nan_bits(a) {
        b
    } else if is_nan_bits(b) {
        a
    } else if key(a) < key(b) {
        b
    } else {
        a
    }
}

/// The smaller of two numbers, NaN ignored, ties keeping the first argument.
pub open spec fn min_bits(a: u64, b: u64) -> u64 {
    if is_nan_bits(a) {
        b
    } else if is_nan_bits(b) {
        a
    } else if key(b) < key(a) {
        b
    } else {
        a
    }
}

pub fn f64_max(a: u64, b: u64) -> (r: u64)
    ensures
        r == max_bits(a, b),
{
    if f64_is_nan(a) {
        b
    } else if f64_is_nan(b) {
        a
    } else if f64_lt(a, b) {
        b
    } else {
        a
    }
}

pub fn f64_min(a: u64, b: u64) -> (r: u64)
    ensures
        r == min_bits(a, b),
{
    if f64_is_nan(a) {
        b
    } else if f64_is_nan(b) {
        a
    } else if f64_lt(b, a) {
        b
    } else {
        a
    }
}

// The comparison semantics of values, mirroring a comparison that orders
// every number below every boolean and false below true. Cross-variant
// comparisons are structurally permitted but carry no numeric meaning.

pub open spec fn value_eq(a: Value, b: Value) -> bool {
    match (a, b) {
        (Value::Num(x), Value::Num(y)) => ieee_eq(x, y),
        (Value::Bool(x), Value::Bool(y)) => x == y,
        _ => false,
    }
}

pub open spec fn value_lt(a: Value, b: Value) -> bool {
    match (a, b) {
        (Value::Num(x), Value::Num(y)) => ieee_lt(x, y),
        (Value::Bool(x), Value::Bool(y)) => !x && y,
        (Value::Num(_), Value::Bool(_)) => true,
        (Value::Bool(_), Value::Num(_)) => false,
    }
}

pub open spec fn value_gt(a: Value, b: Value) -> bool {
    value_lt(b, a)
}

pub open spec fn value_le(a: Value, b: Value) -> bool {
    match (a, b) {
        (Value::Num(x), Value::Num(y)) => ieee_le(x, y),
        (Value::Bool(x), Value::Bool(y)) => !x || y,
        (Value::Num(_), Value::Bool(_)) => true,
        (Value::Bool(_), Value::Num(_)) => false,
    }
}

pub open spec fn value_ge(a: Value, b: Value) -> bool {
    value_le(b, a)
}

pub fn value_is_eq(a: &Value, b: &Value) -> (r: bool)
    ensures
        r == value_eq(*a, *b),
{
    match (a, b) {
        (Value::Num(x), Value::Num(y)) => f64_eq(*x, *y),
        (Value::Bool(x), Value::Bool(y)) => *x == *y,
        _ => false,
    }
}

pub fn value_is_lt(a: &Value, b: &Value) -> (r: bool)
    ensures
        r == value_lt(*a, *b),
{
    match (a, b) {
        (Value::Num(x), Value::Num(y)) => f64_lt(*x, *y),
        (Value::Bool(x), Value::Bool(y)) => !*x && *y,
        (Value::Num(_), Value::Bool(_)) => true,
        (Value::Bool(_), Value::Num(_)) => false,
    }
}

pub fn value_is_le(a: &Value, b: &Value) -> (r: bool)
    ensures
        r == value_le(*a, *b),
{
    match (a, b) {
        (Value::Num(x), Value::Num(y)) => f64_le(*x, *y),
        (Value::Bool(x), Value::Bool(y)) => !*x || *y,
        (Value::Num(_), Value::Bool(_)) => true,
        (Value::Bool(_), Value::Num(_)) => false,
    }
}

} // verus!
