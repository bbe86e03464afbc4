//! Numeric support.  A number of the language is an IEEE-754 binary64
//! value, carried as its 64-bit encoding so that every structural part of
//! the interpreter stays verified.  The arithmetic itself — parsing a digit
//! run, the four operations, and decimal rendering — is delegated to
//! `rustc_apfloat`, a software implementation of IEEE-754 arithmetic, behind
//! the trusted wrappers below.  Each result depends on the argument bits
//! alone, so each operation is given a name that the wrappers' contracts
//! and the callers' contracts share.
use vstd::prelude::*;
use rustc_apfloat::Float;
use rustc_apfloat::ieee::Double;

verus! {

/// The binary64 value denoted by a run of decimal digits, as its 64-bit
/// encoding (round to nearest, ties to even).
pub uninterp spec fn number_bits(digits: Seq<char>) -> u64;

/// The encoding of the binary64 sum of two encodings (nearest-even).
pub uninterp spec fn add_bits(a: u64, b: u64) -> u64;

/// The encoding of the binary64 difference of two encodings (nearest-even).
pub uninterp spec fn sub_bits(a: u64, b: u64) -> u64;

/// The encoding of the binary64 product of two encodings (nearest-even).
pub uninterp spec fn mul_bits(a: u64, b: u64) -> u64;

/// The encoding of the binary64 quotient of two encodings (nearest-even).
pub uninterp spec fn div_bits(a: u64, b: u64) -> u64;

/// The decimal rendering of a binary64 encoding.
pub uninterp spec fn num_text(bits: u64) -> Seq<char>;

/// Relies on `rustc_apfloat::ieee::Double::from_str` (round to nearest,
/// ties to even): the binary64 value denoted by a run of decimal digits.
#[verifier::external_body]
pub(crate) fn parse_number(digits: &str) -> (r: u64)
    requires
        digits@.len() > 0,
        forall|i: int| 0 <= i < digits@.len() ==> '0' <= #[trigger] digits@[i] <= '9',
    ensures
        r == number_bits(digits@),
{
    match digits.parse::<Double>() {
        Ok(v) => v.to_bits() as u64,
        Err(_) => 0,
    }
}

/// Relies on `rustc_apfloat`'s binary64 addition (nearest-even).
#[verifier::external_body]
pub(crate) fn add_exec(a: u64, b: u64) -> (r: u64)
    ensures
        r == add_bits(a, b),
{
    (Double::from_bits(a as u128) + Double::from_bits(b as u128)).value.to_bits() as u64
}

/// Relies on `rustc_apfloat`'s binary64 subtraction (nearest-even).
#[verifier::external_body]
pub(crate) fn sub_exec(a: u64, b: u64) -> (r: u64)
    ensures
        r == sub_bits(a, b),
{
    (Double::from_bits(a as u128) - Double::from_bits(b as u128)).value.to_bits() as u64
}

/// Relies on `rustc_apfloat`'s binary64 multiplication (nearest-even).
#[verifier::external_body]
pub(crate) fn mul_exec(a: u64, b: u64) -> (r: u64)
    ensures
        r == mul_bits(a, b),
{
    (Double::from_bits(a as u128) * Double::from_bits(b as u128)).value.to_bits() as u64
}

/// Relies on `rustc_apfloat`'s binary64 division (nearest-even).
#[verifier::external_body]
pub(crate) fn div_exec(a: u64, b: u64) -> (r: u64)
    ensures
        r == div_bits(a, b),
{
    (Double::from_bits(a as u128) / Double::from_bits(b as u128)).value.to_bits() as u64
}

/// Relies on `rustc_apfloat`'s `Display` for binary64: a decimal rendering
/// that depends on the bits alone.
#[verifier::external_body]
pub(crate) fn render_num(bits: u64) -> (r: String)
    ensures
        r@ == num_text(bits),
{
    format!("{}", Double::from_bits(bits as u128))
}

} // verus!
