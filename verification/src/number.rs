//! Numbers: IEEE-754 binary64 values, held as their 64-bit patterns.
//!
//! Order and equality are decided on the bit patterns here. The arithmetic
//! and the conversions are done by the `rustc_apfloat` crate, a software
//! implementation that works on bit patterns. Each of its operations is
//! reached through one small function whose contract is taken on trust;
//! what the operation yields is given a name, so that the contracts of the
//! verified code can speak of it.

use rustc_apfloat::ieee::Double;
use rustc_apfloat::Float;
use vstd::prelude::*;
use vstd::utf8::encode_utf8;

verus! {

/// The bit that holds the sign of a binary64 value.
pub const SIGN_BIT: u64 = 0x8000_0000_0000_0000;

/// The bits of the binary64 sum of the values with bits `a` and `b`,
/// rounded to nearest, ties to even.
pub uninterp spec fn ieee_sum(a: u64, b: u64) -> u64;

/// The bits of the binary64 difference `a - b`, rounded to nearest, ties to even.
pub uninterp spec fn ieee_difference(a: u64, b: u64) -> u64;

/// The bits of the binary64 product, rounded to nearest, ties to even.
pub uninterp spec fn ieee_product(a: u64, b: u64) -> u64;

/// The bits of the binary64 quotient `a / b`, rounded to nearest, ties to even.
pub uninterp spec fn ieee_quotient(a: u64, b: u64) -> u64;

/// The bits that hold the exponent of a binary64 value.
pub const EXPONENT_BITS: u64 = 0x7ff0_0000_0000_0000;

/// The bits that hold the fraction of a binary64 value.
pub const FRACTION_BITS: u64 = 0x000f_ffff_ffff_ffff;

/// The bits that hold the magnitude of a binary64 value: all but the sign.
pub const MAGNITUDE_BITS: u64 = 0x7fff_ffff_ffff_ffff;

/// Whether the bits `a` are those of a NaN: the exponent is all ones and
/// the fraction is not zero.
pub open spec fn is_nan(a: u64) -> bool {
    a & EXPONENT_BITS == EXPONENT_BITS && a & FRACTION_BITS != 0
}

/// Whether the value with bits `a` is less than the one with bits `b` in
/// the IEEE-754 order. A NaN is less than nothing and nothing is less than
/// it; the two zeros are equal; a negative value is less than a positive
/// one; and of two values of one sign, the magnitudes decide.
pub open spec fn ieee_less(a: u64, b: u64) -> bool {
    if is_nan(a) || is_nan(b) {
        false
    } else if a & MAGNITUDE_BITS == 0 && b & MAGNITUDE_BITS == 0 {
        false
    } else if a & SIGN_BIT != 0 {
        b & SIGN_BIT == 0 || (a & MAGNITUDE_BITS) > (b & MAGNITUDE_BITS)
    } else {
        b & SIGN_BIT == 0 && (a & MAGNITUDE_BITS) < (b & MAGNITUDE_BITS)
    }
}

/// Whether the values with bits `a` and `b` are equal in the IEEE-754
/// sense: a NaN equals nothing, the two zeros are equal, and any other two
/// values are equal when their bits are.
pub open spec fn ieee_equal(a: u64, b: u64) -> bool {
    !is_nan(a) && !is_nan(b) && (a == b || (a & MAGNITUDE_BITS == 0 && b & MAGNITUDE_BITS == 0))
}

/// The bits of the binary64 value nearest to the integer `n`.
pub uninterp spec fn ieee_from_integer(n: u64) -> u64;

/// The integer part of the value with bits `a` as an unsigned 64-bit
/// integer: zero for a NaN and for a negative value, and the largest such
/// integer for a value beyond it.
pub uninterp spec fn ieee_to_integer(a: u64) -> u64;

/// Whether `bytes` spell a number in the plain decimal form: digits, with
/// at most one dot among them, and a digit first.
pub open spec fn spells_decimal(bytes: Seq<u8>) -> bool {
    &&& bytes.len() > 0
    &&& 0x30 <= bytes[0] <= 0x39
    &&& forall|i: int| 0 <= i < bytes.len() ==> (0x30 <= #[trigger] bytes[i] <= 0x39) || bytes[i] == 0x2e
    &&& forall|i: int, j: int|
        0 <= i < j < bytes.len() ==> !(#[trigger] bytes[i] == 0x2e && #[trigger] bytes[j] == 0x2e)
}

/// The bits of the binary64 value nearest to the number that `text` spells
/// in decimal, or `None` where `text` is not read as a number.
pub uninterp spec fn decimal_value(text: Seq<char>) -> Option<u64>;

/// Trusted: `rustc_apfloat`'s `+` on `ieee::Double`, which is `add_r` with
/// `Round::NearestTiesToEven`. The contract only names the result.
#[verifier::external_body]
pub(crate) fn sum(a: u64, b: u64) -> (r: u64)
    ensures
        r == ieee_sum(a, b),
{
    (Double::from_bits(a as u128) + Double::from_bits(b as u128)).value.to_bits() as u64
}

/// Trusted: `rustc_apfloat`'s `-` on `ieee::Double`, which is `sub_r` with
/// `Round::NearestTiesToEven`. The contract only names the result.
#[verifier::external_body]
pub(crate) fn difference(a: u64, b: u64) -> (r: u64)
    ensures
        r == ieee_difference(a, b),
{
    (Double::from_bits(a as u128) - Double::from_bits(b as u128)).value.to_bits() as u64
}

/// Trusted: `rustc_apfloat`'s `*` on `ieee::Double`, which is `mul_r` with
/// `Round::NearestTiesToEven`. The contract only names the result.
#[verifier::external_body]
pub(crate) fn product(a: u64, b: u64) -> (r: u64)
    ensures
        r == ieee_product(a, b),
{
    (Double::from_bits(a as u128) * Double::from_bits(b as u128)).value.to_bits() as u64
}

/// Trusted: `rustc_apfloat`'s `/` on `ieee::Double`, which is `div_r` with
/// `Round::NearestTiesToEven`. The contract only names the result.
#[verifier::external_body]
pub(crate) fn quotient(a: u64, b: u64) -> (r: u64)
    ensures
        r == ieee_quotient(a, b),
{
    (Double::from_bits(a as u128) / Double::from_bits(b as u128)).value.to_bits() as u64
}

/// Whether the bits `a` are those of a NaN.
pub fn not_a_number(a: u64) -> (r: bool)
    ensures
        r == is_nan(a),
{
    a & EXPONENT_BITS == EXPONENT_BITS && a & FRACTION_BITS != 0
}

/// Whether `a < b` in the IEEE-754 order.
pub fn less(a: u64, b: u64) -> (r: bool)
    ensures
        r == ieee_less(a, b),
{
    if not_a_number(a) || not_a_number(b) {
        false
    } else if a & MAGNITUDE_BITS == 0 && b & MAGNITUDE_BITS == 0 {
        false
    } else if a & SIGN_BIT != 0 {
        b & SIGN_BIT == 0 || (a & MAGNITUDE_BITS) > (b & MAGNITUDE_BITS)
    } else {
        b & SIGN_BIT == 0 && (a & MAGNITUDE_BITS) < (b & MAGNITUDE_BITS)
    }
}

/// Whether `a == b` in the IEEE-754 sense.
pub fn equal(a: u64, b: u64) -> (r: bool)
    ensures
        r == ieee_equal(a, b),
{
    !not_a_number(a) && !not_a_number(b) && (a == b || (a & MAGNITUDE_BITS == 0 && b
        & MAGNITUDE_BITS == 0))
}

/// A number that is no NaN equals itself, and equality of numbers goes
/// both ways.
pub proof fn number_equality_is_reflexive_and_symmetric(a: u64, b: u64)
    ensures
        !is_nan(a) ==> ieee_equal(a, a),
        is_nan(a) ==> !ieee_equal(a, a),
        ieee_equal(a, b) == ieee_equal(b, a),
        ieee_equal(a, b) ==> !ieee_less(a, b) && !ieee_less(b, a),
{
}

/// Trusted: `rustc_apfloat`'s `Float::from_u128` for `ieee::Double`, which
/// rounds to nearest, ties to even. The contract only names the result.
#[verifier::external_body]
pub(crate) fn from_integer(n: u64) -> (r: u64)
    ensures
        r == ieee_from_integer(n),
{
    Double::from_u128(n as u128).value.to_bits() as u64
}

/// Trusted: `rustc_apfloat`'s `Float::to_u128` for `ieee::Double` with a
/// width of 64 bits, which rounds toward zero. The contract only names the
/// result.
#[verifier::external_body]
pub(crate) fn to_integer(a: u64) -> (r: u64)
    ensures
        r == ieee_to_integer(a),
{
    Double::from_bits(a as u128).to_u128(64).value as u64
}

/// The most bytes that a text handed to `parse_decimal` may have: one less
/// than 2^31.
pub const MAX_DECIMAL_BYTES: usize = 0x7fff_ffff;

/// Trusted: `rustc_apfloat`'s `FromStr` for `ieee::Double`, which is
/// `from_str_r` with `Round::NearestTiesToEven`; its error becomes `None`.
/// The contract names the result, and says that a text in the plain
/// decimal form is read: `from_str_r` only refuses an empty text, a text
/// without digits, a second dot, and a character that is neither a digit
/// nor a dot nor part of a sign, an exponent or a special value. The text
/// is kept below 2^31 bytes, because `from_str_r` counts digits and
/// distances between bytes in 32-bit integers and does not return where
/// they do not fit.
#[verifier::external_body]
pub(crate) fn parse_decimal(text: &str) -> (r: Option<u64>)
    requires
        encode_utf8(text@).len() <= MAX_DECIMAL_BYTES,
    ensures
        r == decimal_value(text@),
        spells_decimal(encode_utf8(text@)) ==> r is Some,
{
    match text.parse::<Double>() {
        Ok(value) => Some(value.to_bits() as u64),
        Err(_) => None,
    }
}

/// The bits of the negation: the same value with its sign flipped.
pub open spec fn negated(bits: u64) -> u64 {
    bits ^ SIGN_BIT
}

/// Negates a number by flipping its sign bit.
pub fn negate(bits: u64) -> (r: u64)
    ensures
        r == negated(bits),
{
    bits ^ SIGN_BIT
}

/// `a <= b` in the IEEE-754 order: less or equal.
pub open spec fn ieee_less_equal(a: u64, b: u64) -> bool {
    ieee_less(a, b) || ieee_equal(a, b)
}

/// Whether `a <= b` in the IEEE-754 order.
pub fn less_equal(a: u64, b: u64) -> (r: bool)
    ensures
        r == ieee_less_equal(a, b),
{
    less(a, b) || equal(a, b)
}

} // verus!
