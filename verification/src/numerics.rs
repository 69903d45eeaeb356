use vstd::prelude::*;
use core::str::FromStr;
use rustc_apfloat::Float;
use crate::constants::{INFINITY_BITS, NEG_INFINITY_BITS, ONE_BITS, ZERO_BITS};
use crate::floatsem::{is_nan_bits, is_sign_neg, is_zero_bits};
use crate::lexer::is_digit_char;

verus! {

// Every number is carried as the bit pattern of an IEEE-754 binary64 value.
// The arithmetic below is done by outside code working directly on bit
// patterns: rustc_apfloat (the software float library rustc itself folds
// float arithmetic with) for the rounded basic operations and for decimal
// literals, libm (the pure-Rust build of the usual C math library) for the
// transcendental functions. Each result is a deterministic function of the
// argument bits, named here by an uninterpreted spec function.

/// The value of a decimal literal: the correctly rounded binary64 bit
/// pattern, or nothing when the text is not a valid literal.
pub uninterp spec fn parsed_lit(s: Seq<char>) -> Option<u64>;

/// A digit-and-dot run that is a well-formed decimal literal: not empty,
/// at least one digit, at most one dot.
pub open spec fn plain_literal(s: Seq<char>) -> bool {
    &&& s.len() > 0
    &&& forall|k: int| 0 <= k < s.len() ==> is_digit_char(#[trigger] s[k]) || s[k] == '.'
    &&& exists|k: int| 0 <= k < s.len() && is_digit_char(#[trigger] s[k])
    &&& forall|i: int, j: int|
        0 <= i < j < s.len() ==> !(#[trigger] s[i] == '.' && #[trigger] s[j] == '.')
}

/// A digit-and-dot run holding more than one dot.
pub open spec fn doubled_dot(s: Seq<char>) -> bool {
    &&& forall|k: int| 0 <= k < s.len() ==> is_digit_char(#[trigger] s[k]) || s[k] == '.'
    &&& exists|i: int, j: int|
        0 <= i < j < s.len() && #[trigger] s[i] == '.' && #[trigger] s[j] == '.'
}

/// Relies on rustc_apfloat's `Double` `FromStr`: correctly rounded decimal
/// to binary64 conversion. Its decimal path accepts a digit-and-dot run
/// exactly when the run holds at least one digit and at most one dot, and
/// converts it to a value that is neither negative nor NaN; the single
/// digits parse to their exact values. (The outside parser also reads
/// signs, hexadecimal and the names of the special values, but the lexer
/// hands it digit-and-dot runs alone.)
#[verifier::external_body]
pub(crate) fn parse_literal(s: &str) -> (r: Option<u64>)
    ensures
        r == parsed_lit(s@),
        plain_literal(s@) ==> r is Some && !is_sign_neg(r.unwrap()) && !is_nan_bits(r.unwrap()),
        doubled_dot(s@) ==> r is None,
        s@ == "0"@ ==> r == Some(ZERO_BITS),
        s@ == "1"@ ==> r == Some(ONE_BITS),
{
    match rustc_apfloat::ieee::Double::from_str(s) {
        Ok(d) => Some(d.to_bits() as u64),
        Err(_) => None,
    }
}

pub uninterp spec fn add_bits(a: u64, b: u64) -> u64;

/// Relies on rustc_apfloat's binary64 addition, rounded to nearest, ties to
/// even: the IEEE-754 sum of the two bit patterns.
#[verifier::external_body]
pub(crate) fn f64_add(a: u64, b: u64) -> (r: u64)
    ensures
        r == add_bits(a, b),
{
    let x = rustc_apfloat::ieee::Double::from_bits(a as u128);
    let y = rustc_apfloat::ieee::Double::from_bits(b as u128);
    (x + y).value.to_bits() as u64
}

pub uninterp spec fn sub_bits(a: u64, b: u64) -> u64;

/// Relies on rustc_apfloat's binary64 subtraction, rounded to nearest, ties
/// to even.
#[verifier::external_body]
pub(crate) fn f64_sub(a: u64, b: u64) -> (r: u64)
    ensures
        r == sub_bits(a, b),
{
    let x = rustc_apfloat::ieee::Double::from_bits(a as u128);
    let y = rustc_apfloat::ieee::Double::from_bits(b as u128);
    (x - y).value.to_bits() as u64
}

pub uninterp spec fn mul_bits(a: u64, b: u64) -> u64;

/// Relies on rustc_apfloat's binary64 multiplication, rounded to nearest,
/// ties to even.
#[verifier::external_body]
pub(crate) fn f64_mul(a: u64, b: u64) -> (r: u64)
    ensures
        r == mul_bits(a, b),
{
    let x = rustc_apfloat::ieee::Double::from_bits(a as u128);
    let y = rustc_apfloat::ieee::Double::from_bits(b as u128);
    (x * y).value.to_bits() as u64
}

pub uninterp spec fn div_bits(a: u64, b: u64) -> u64;

/// Relies on rustc_apfloat's binary64 division, rounded to nearest, ties
/// to even. Its zero-divisor arm returns the infinity carrying the
/// operands' combined sign whenever the dividend is neither NaN nor zero,
/// per IEEE-754; 0/0 gives NaN.
#[verifier::external_body]
pub(crate) fn f64_div(a: u64, b: u64) -> (r: u64)
    ensures
        r == div_bits(a, b),
        !is_nan_bits(a) && !is_zero_bits(a) && is_zero_bits(b) ==> r == (
        if is_sign_neg(a) == is_sign_neg(b) {
            INFINITY_BITS
        } else {
            NEG_INFINITY_BITS
        }),
{
    let x = rustc_apfloat::ieee::Double::from_bits(a as u128);
    let y = rustc_apfloat::ieee::Double::from_bits(b as u128);
    (x / y).value.to_bits() as u64
}

pub uninterp spec fn pow_bits(a: u64, b: u64) -> u64;

/// Relies on libm::pow, and on bytemuck::cast for the bit-level conversions.
#[verifier::external_body]
pub(crate) fn f64_pow(a: u64, b: u64) -> (r: u64)
    ensures
        r == pow_bits(a, b),
{
    libm::pow(bytemuck::cast(a), bytemuck::cast(b)).to_bits()
}

pub uninterp spec fn sin_bits(a: u64) -> u64;

/// Relies on libm::sin (radians in), and on bytemuck::cast.
#[verifier::external_body]
pub(crate) fn f64_sin(a: u64) -> (r: u64)
    ensures
        r == sin_bits(a),
{
    libm::sin(bytemuck::cast(a)).to_bits()
}

pub uninterp spec fn cos_bits(a: u64) -> u64;

/// Relies on libm::cos (radians in), and on bytemuck::cast.
#[verifier::external_body]
pub(crate) fn f64_cos(a: u64) -> (r: u64)
    ensures
        r == cos_bits(a),
{
    libm::cos(bytemuck::cast(a)).to_bits()
}

pub uninterp spec fn tan_bits(a: u64) -> u64;

/// Relies on libm::tan (radians in), and on bytemuck::cast.
#[verifier::external_body]
pub(crate) fn f64_tan(a: u64) -> (r: u64)
    ensures
        r == tan_bits(a),
{
    libm::tan(bytemuck::cast(a)).to_bits()
}

pub uninterp spec fn sqrt_bits(a: u64) -> u64;

/// Relies on libm::sqrt (correctly rounded per IEEE-754), and on
/// bytemuck::cast.
#[verifier::external_body]
pub(crate) fn f64_sqrt(a: u64) -> (r: u64)
    ensures
        r == sqrt_bits(a),
{
    libm::sqrt(bytemuck::cast(a)).to_bits()
}

pub uninterp spec fn cbrt_bits(a: u64) -> u64;

/// Relies on libm::cbrt, and on bytemuck::cast.
#[verifier::external_body]
pub(crate) fn f64_cbrt(a: u64) -> (r: u64)
    ensures
        r == cbrt_bits(a),
{
    libm::cbrt(bytemuck::cast(a)).to_bits()
}

pub uninterp spec fn ln_bits(a: u64) -> u64;

/// Relies on libm::log, the natural logarithm, and on bytemuck::cast.
#[verifier::external_body]
pub(crate) fn f64_ln(a: u64) -> (r: u64)
    ensures
        r == ln_bits(a),
{
    libm::log(bytemuck::cast(a)).to_bits()
}

pub uninterp spec fn log10_bits(a: u64) -> u64;

/// Relies on libm::log10, and on bytemuck::cast.
#[verifier::external_body]
pub(crate) fn f64_log10(a: u64) -> (r: u64)
    ensures
        r == log10_bits(a),
{
    libm::log10(bytemuck::cast(a)).to_bits()
}

pub uninterp spec fn floor_bits(a: u64) -> u64;

/// Relies on libm::floor, and on bytemuck::cast.
#[verifier::external_body]
pub(crate) fn f64_floor(a: u64) -> (r: u64)
    ensures
        r == floor_bits(a),
{
    libm::floor(bytemuck::cast(a)).to_bits()
}

pub uninterp spec fn ceil_bits(a: u64) -> u64;

/// Relies on libm::ceil, and on bytemuck::cast.
#[verifier::external_body]
pub(crate) fn f64_ceil(a: u64) -> (r: u64)
    ensures
        r == ceil_bits(a),
{
    libm::ceil(bytemuck::cast(a)).to_bits()
}

} // verus!
