//! Runtime numbers of the language: IEEE-754 double-precision values carried
//! as their 64-bit patterns. All arithmetic on them is delegated to the
//! software float implementation of `rustc_apfloat`, whose operations are
//! deterministic functions of the bit patterns alone; each result is given a
//! name below so that contracts can speak of it exactly.
use rustc_apfloat::ieee::Double;
use rustc_apfloat::Float;
use vstd::prelude::*;

verus! {

/// The sum, under IEEE-754 round-to-nearest-even, of the doubles with these bit patterns.
pub uninterp spec fn add_bits(a: u64, b: u64) -> u64;

/// The difference of the doubles with these bit patterns.
pub uninterp spec fn sub_bits(a: u64, b: u64) -> u64;

/// The product of the doubles with these bit patterns.
pub uninterp spec fn mul_bits(a: u64, b: u64) -> u64;

/// The quotient of the doubles with these bit patterns.
pub uninterp spec fn div_bits(a: u64, b: u64) -> u64;

/// The negation of the double with this bit pattern.
pub uninterp spec fn neg_bits(a: u64) -> u64;

/// IEEE-754 equality of the doubles with these bit patterns.
pub uninterp spec fn eq_bits(a: u64, b: u64) -> bool;

/// IEEE-754 `<` on the doubles with these bit patterns.
pub uninterp spec fn lt_bits(a: u64, b: u64) -> bool;

/// IEEE-754 `<=` on the doubles with these bit patterns.
pub uninterp spec fn le_bits(a: u64, b: u64) -> bool;

/// IEEE-754 `>` on the doubles with these bit patterns.
pub uninterp spec fn gt_bits(a: u64, b: u64) -> bool;

/// IEEE-754 `>=` on the doubles with these bit patterns.
pub uninterp spec fn ge_bits(a: u64, b: u64) -> bool;

/// The double denoted by a decimal literal, rounded to nearest-even.
pub uninterp spec fn num_of_lexeme(s: Seq<char>) -> u64;

/// The decimal rendering of the double with this bit pattern.
pub uninterp spec fn str_of_bits(a: u64) -> Seq<char>;

/// The double nearest to this unsigned integer.
pub uninterp spec fn bits_of_u64(n: u64) -> u64;

/// A decimal number literal as the lexer produces it: one or more digits,
/// optionally followed by a dot and one or more digits.
pub open spec fn is_digit_char(c: char) -> bool {
    '0' <= c && c <= '9'
}

pub open spec fn all_digits(s: Seq<char>) -> bool {
    forall|i: int| 0 <= i < s.len() ==> is_digit_char(#[trigger] s[i])
}

pub open spec fn is_number_lexeme(s: Seq<char>) -> bool {
    (s.len() > 0 && all_digits(s)) || (exists|k: int|
        1 <= k < s.len() - 1 && s[k] == '.' && all_digits(#[trigger] s.subrange(0, k))
            && all_digits(s.subrange(k + 1, s.len() as int)))
}

/// Relies on rustc_apfloat's `Add` for `ieee::Double`: round-to-nearest-even addition.
#[verifier::external_body]
pub fn num_add(a: u64, b: u64) -> (r: u64)
    ensures
        r == add_bits(a, b),
{
    (Double::from_bits(a as u128) + Double::from_bits(b as u128)).value.to_bits() as u64
}

/// Relies on rustc_apfloat's `Sub` for `ieee::Double`: round-to-nearest-even subtraction.
#[verifier::external_body]
pub fn num_sub(a: u64, b: u64) -> (r: u64)
    ensures
        r == sub_bits(a, b),
{
    (Double::from_bits(a as u128) - Double::from_bits(b as u128)).value.to_bits() as u64
}

/// Relies on rustc_apfloat's `Mul` for `ieee::Double`: round-to-nearest-even multiplication.
#[verifier::external_body]
pub fn num_mul(a: u64, b: u64) -> (r: u64)
    ensures
        r == mul_bits(a, b),
{
    (Double::from_bits(a as u128) * Double::from_bits(b as u128)).value.to_bits() as u64
}

/// Relies on rustc_apfloat's `Div` for `ieee::Double`: round-to-nearest-even division.
#[verifier::external_body]
pub fn num_div(a: u64, b: u64) -> (r: u64)
    ensures
        r == div_bits(a, b),
{
    (Double::from_bits(a as u128) / Double::from_bits(b as u128)).value.to_bits() as u64
}

/// Relies on rustc_apfloat's `Neg` for `ieee::Double`: sign negation.
#[verifier::external_body]
pub fn num_neg(a: u64) -> (r: u64)
    ensures
        r == neg_bits(a),
{
    (-Double::from_bits(a as u128)).to_bits() as u64
}

/// Relies on rustc_apfloat's `PartialEq` for `ieee::Double`: IEEE-754
/// equality, which its source decides by `partial_cmp` being `Equal` and is
/// therefore symmetric.
#[verifier::external_body]
pub fn num_eq(a: u64, b: u64) -> (r: bool)
    ensures
        r == eq_bits(a, b),
        r == eq_bits(b, a),
{
    Double::from_bits(a as u128) == Double::from_bits(b as u128)
}

/// Relies on rustc_apfloat's `PartialOrd` for `ieee::Double`: IEEE-754 `<`.
#[verifier::external_body]
pub fn num_lt(a: u64, b: u64) -> (r: bool)
    ensures
        r == lt_bits(a, b),
{
    Double::from_bits(a as u128) < Double::from_bits(b as u128)
}

/// Relies on rustc_apfloat's `PartialOrd` for `ieee::Double`: IEEE-754 `<=`.
#[verifier::external_body]
pub fn num_le(a: u64, b: u64) -> (r: bool)
    ensures
        r == le_bits(a, b),
{
    Double::from_bits(a as u128) <= Double::from_bits(b as u128)
}

/// Relies on rustc_apfloat's `PartialOrd` for `ieee::Double`: IEEE-754 `>`.
#[verifier::external_body]
pub fn num_gt(a: u64, b: u64) -> (r: bool)
    ensures
        r == gt_bits(a, b),
{
    Double::from_bits(a as u128) > Double::from_bits(b as u128)
}

/// Relies on rustc_apfloat's `PartialOrd` for `ieee::Double`: IEEE-754 `>=`.
#[verifier::external_body]
pub fn num_ge(a: u64, b: u64) -> (r: bool)
    ensures
        r == ge_bits(a, b),
{
    Double::from_bits(a as u128) >= Double::from_bits(b as u128)
}

/// Relies on rustc_apfloat's `FromStr` for `ieee::Double`: parses a decimal
/// literal with round-to-nearest-even; it fails only on empty input, repeated
/// dots or characters outside the decimal syntax, so it succeeds on every
/// lexeme the lexer scans as a number.
#[verifier::external_body]
pub fn num_parse(s: &str) -> (r: Option<u64>)
    ensures
        r matches Some(b) ==> b == num_of_lexeme(s@),
        is_number_lexeme(s@) ==> r is Some,
{
    match s.parse::<Double>() {
        Ok(d) => Some(d.to_bits() as u64),
        Err(_) => None,
    }
}

/// Relies on rustc_apfloat's `Display` for `ieee::Double`: a decimal rendering
/// with enough digits to round-trip, a function of the bit pattern alone.
#[verifier::external_body]
pub fn num_to_text(a: u64) -> (r: String)
    ensures
        r@ == str_of_bits(a),
{
    format!("{}", Double::from_bits(a as u128))
}

/// Relies on rustc_apfloat's `Float::from_u128` for `ieee::Double`: the double
/// nearest to the given integer.
#[verifier::external_body]
pub fn num_from_u64(n: u64) -> (r: u64)
    ensures
        r == bits_of_u64(n),
{
    Double::from_u128(n as u128).value.to_bits() as u64
}

} // verus!
