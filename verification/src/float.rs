//! IEEE 754 binary64 arithmetic on bit patterns.
//!
//! The virtual machine carries its Float values as the 64-bit patterns of
//! IEEE 754 binary64 numbers. The numeric operations themselves are done
//! by the `rustc_apfloat` crate, a software implementation of IEEE 754
//! arithmetic, called through the wrappers below. Each operation is a
//! pure function of its operand bit patterns, so its result is given a
//! name that the machine's contracts speak of; nothing further is claimed
//! about the numeric values.

use vstd::prelude::*;

use rustc_apfloat::Float;
use rustc_apfloat::ieee::Double;

verus! {

/// The IEEE 754 binary64 sum of the two values with these bit patterns,
/// rounded to nearest, ties to even.
pub uninterp spec fn float_add(a: u64, b: u64) -> u64;

/// The IEEE 754 binary64 difference of the two values with these bit
/// patterns, rounded to nearest, ties to even.
pub uninterp spec fn float_sub(a: u64, b: u64) -> u64;

/// The IEEE 754 binary64 product of the two values with these bit
/// patterns, rounded to nearest, ties to even.
pub uninterp spec fn float_mul(a: u64, b: u64) -> u64;

/// The IEEE 754 binary64 quotient of the two values with these bit
/// patterns, rounded to nearest, ties to even.
pub uninterp spec fn float_div(a: u64, b: u64) -> u64;

/// The bit pattern of the IEEE 754 binary64 value of this integer; exact,
/// since every 32-bit integer is representable in binary64.
pub uninterp spec fn float_of_int(i: i32) -> u64;

/// The decimal text of the binary64 value with this bit pattern, as
/// `rustc_apfloat` renders it (`3.5` for the value three and a half).
pub uninterp spec fn float_text(bits: u64) -> Seq<char>;

/// Relies on `rustc_apfloat::ieee::Double::add_r` (round to nearest, ties
/// to even): the sum is a function of the operand bit patterns alone.
#[verifier::external_body]
pub(crate) fn add_bits(a: u64, b: u64) -> (r: u64)
    ensures
        r == float_add(a, b),
{
    Double::from_bits(a as u128)
        .add_r(Double::from_bits(b as u128), rustc_apfloat::Round::NearestTiesToEven)
        .value
        .to_bits() as u64
}

/// Relies on `rustc_apfloat::ieee::Double::sub_r` (round to nearest, ties
/// to even): the difference is a function of the operand bit patterns alone.
#[verifier::external_body]
pub(crate) fn sub_bits(a: u64, b: u64) -> (r: u64)
    ensures
        r == float_sub(a, b),
{
    Double::from_bits(a as u128)
        .sub_r(Double::from_bits(b as u128), rustc_apfloat::Round::NearestTiesToEven)
        .value
        .to_bits() as u64
}

/// Relies on `rustc_apfloat::ieee::Double::mul_r` (round to nearest, ties
/// to even): the product is a function of the operand bit patterns alone.
#[verifier::external_body]
pub(crate) fn mul_bits(a: u64, b: u64) -> (r: u64)
    ensures
        r == float_mul(a, b),
{
    Double::from_bits(a as u128)
        .mul_r(Double::from_bits(b as u128), rustc_apfloat::Round::NearestTiesToEven)
        .value
        .to_bits() as u64
}

/// Relies on `rustc_apfloat::ieee::Double::div_r` (round to nearest, ties
/// to even; division by zero yields an infinity, never a fault): the
/// quotient is a function of the operand bit patterns alone.
#[verifier::external_body]
pub(crate) fn div_bits(a: u64, b: u64) -> (r: u64)
    ensures
        r == float_div(a, b),
{
    Double::from_bits(a as u128)
        .div_r(Double::from_bits(b as u128), rustc_apfloat::Round::NearestTiesToEven)
        .value
        .to_bits() as u64
}

/// Relies on `rustc_apfloat::ieee::Double::from_i128`: widening an
/// integer to binary64 depends on the integer alone.
#[verifier::external_body]
pub(crate) fn int_to_bits(i: i32) -> (r: u64)
    ensures
        r == float_of_int(i),
{
    Double::from_i128(i as i128).value.to_bits() as u64
}

/// Relies on the `Display` rendering of `rustc_apfloat::ieee::Double`,
/// which depends on the bit pattern alone.
#[verifier::external_body]
pub(crate) fn bits_to_text(bits: u64) -> (r: String)
    ensures
        r@ == float_text(bits),
{
    format!("{}", Double::from_bits(bits as u128))
}

} // verus!
