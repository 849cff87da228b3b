//! IEEE 754 binary64 values as bit patterns.
//!
//! The transform pipeline works on floating-point position values, which this
//! crate carries as their 64-bit patterns. Arithmetic on them is delegated to
//! software implementations of the IEEE 754 operations: `rustc_apfloat` for
//! the rational operations and comparisons, `softfp` for the square root.
//! Each operation's result is a function of its argument bits
//! alone, so it is named by an uninterpreted spec function; the wrappers below
//! are trusted to return exactly that named value.

use vstd::prelude::*;

use core::str::FromStr;
use rustc_apfloat::Float;

verus! {

/// The bit pattern of `0.0`.
pub const F64_ZERO_BITS: u64 = 0;

/// The bit pattern of `100.0`.
pub const F64_HUNDRED_BITS: u64 = 0x4059_0000_0000_0000;

/// The outcome of an IEEE 754 comparison of two binary64 values.
/// `Unordered` is the case where at least one operand is a NaN.
#[derive(Clone, Copy, Debug, PartialEq, Eq, Structural)]
pub enum FloatCmp {
    Less,
    Equal,
    Greater,
    Unordered,
}

/// The sum of the binary64 values with bit patterns `a` and `b`,
/// rounded to nearest, ties to even.
pub uninterp spec fn f64_add_of(a: u64, b: u64) -> u64;

/// The difference of the binary64 values with bit patterns `a` and `b`,
/// rounded to nearest, ties to even.
pub uninterp spec fn f64_sub_of(a: u64, b: u64) -> u64;

/// The product of the binary64 values with bit patterns `a` and `b`,
/// rounded to nearest, ties to even.
pub uninterp spec fn f64_mul_of(a: u64, b: u64) -> u64;

/// The quotient of the binary64 values with bit patterns `a` and `b`,
/// rounded to nearest, ties to even.
pub uninterp spec fn f64_div_of(a: u64, b: u64) -> u64;

/// The square root of the binary64 value with bit pattern `a`,
/// rounded to nearest, ties to even (NaN for negative arguments).
pub uninterp spec fn f64_sqrt_of(a: u64) -> u64;

/// The binary64 value nearest to the integer `t` (ties to even).
pub uninterp spec fn f64_of_i64(t: i64) -> u64;

/// The binary64 value with bit pattern `a` rounded to an integral value,
/// halfway cases away from zero.
pub uninterp spec fn f64_round_of(a: u64) -> u64;

/// The IEEE 754 comparison of the binary64 values with bit patterns `a` and `b`.
pub uninterp spec fn f64_cmp_of(a: u64, b: u64) -> FloatCmp;

/// The binary64 value denoted by the decimal literal `s`, rounded to nearest,
/// ties to even; `None` when `s` is not a valid literal.
pub uninterp spec fn f64_parse_of(s: Seq<char>) -> Option<u64>;

/// The binary64 value with bit pattern `a` and its sign bit cleared: the
/// absolute value. IEEE 754 defines `abs` as exactly this bit operation.
pub open spec fn f64_abs_of(a: u64) -> u64 {
    a & 0x7fff_ffff_ffff_ffff
}

/// Whether the binary64 value with bit pattern `a` compares `>=` the one with
/// bit pattern `b`: the comparison is ordered and not `Less`.
pub open spec fn f64_ge_of(a: u64, b: u64) -> bool {
    f64_cmp_of(a, b) == FloatCmp::Greater || f64_cmp_of(a, b) == FloatCmp::Equal
}

/// Relies on `rustc_apfloat`'s `ieee::Double` addition (round to nearest,
/// ties to even), the IEEE 754 binary64 addition.
#[verifier::external_body]
pub(crate) fn f64_add(a: u64, b: u64) -> (r: u64)
    ensures
        r == f64_add_of(a, b),
{
    let x = rustc_apfloat::ieee::Double::from_bits(a as u128);
    let y = rustc_apfloat::ieee::Double::from_bits(b as u128);
    (x + y).value.to_bits() as u64
}

/// Relies on `rustc_apfloat`'s `ieee::Double` subtraction (round to nearest,
/// ties to even), the IEEE 754 binary64 subtraction.
#[verifier::external_body]
pub(crate) fn f64_sub(a: u64, b: u64) -> (r: u64)
    ensures
        r == f64_sub_of(a, b),
{
    let x = rustc_apfloat::ieee::Double::from_bits(a as u128);
    let y = rustc_apfloat::ieee::Double::from_bits(b as u128);
    (x - y).value.to_bits() as u64
}

/// Relies on `rustc_apfloat`'s `ieee::Double` multiplication (round to
/// nearest, ties to even), the IEEE 754 binary64 multiplication.
#[verifier::external_body]
pub(crate) fn f64_mul(a: u64, b: u64) -> (r: u64)
    ensures
        r == f64_mul_of(a, b),
{
    let x = rustc_apfloat::ieee::Double::from_bits(a as u128);
    let y = rustc_apfloat::ieee::Double::from_bits(b as u128);
    (x * y).value.to_bits() as u64
}

/// Relies on `rustc_apfloat`'s `ieee::Double` division (round to nearest,
/// ties to even), the IEEE 754 binary64 division.
#[verifier::external_body]
pub(crate) fn f64_div(a: u64, b: u64) -> (r: u64)
    ensures
        r == f64_div_of(a, b),
{
    let x = rustc_apfloat::ieee::Double::from_bits(a as u128);
    let y = rustc_apfloat::ieee::Double::from_bits(b as u128);
    (x / y).value.to_bits() as u64
}

/// Declares `softfp`'s rounding-mode enum so its name can stand in the
/// callback signatures below.
#[verifier::external_type_specification]
#[verifier::external_body]
pub struct ExRoundingMode(softfp::RoundingMode);

/// Declares `softfp`'s exception-flags type so its name can stand in the
/// callback signatures below.
#[verifier::external_type_specification]
#[verifier::external_body]
pub struct ExExceptionFlags(softfp::ExceptionFlags);

/// The rounding mode `softfp` consults: round to nearest, ties to even, the
/// IEEE 754 default that the other operations here use as well.
#[verifier::external_body]
fn rounding_ties_to_even() -> softfp::RoundingMode {
    softfp::RoundingMode::TiesToEven
}

/// Discards the exception flags `softfp` reports: the pipeline reads results
/// only from returned values, never from the flags.
#[verifier::external_body]
fn discard_exception_flags(flags: softfp::ExceptionFlags) {
    let _ = flags;
}

/// Relies on `softfp`'s `F64::square_root` under round to nearest, ties to
/// even: the IEEE 754 binary64 square root (NaN for negative arguments).
/// Registers the rounding-mode and exception-flag callbacks that `softfp`
/// requires before computing.
#[verifier::external_body]
pub(crate) fn f64_sqrt(a: u64) -> (r: u64)
    ensures
        r == f64_sqrt_of(a),
{
    softfp::register_get_rounding_mode(rounding_ties_to_even);
    softfp::register_set_exception_flags(discard_exception_flags);
    softfp::F64::new(a).square_root().0
}

/// Relies on `rustc_apfloat`'s `ieee::Double::from_i128` (round to nearest,
/// ties to even), the rounding Rust uses for `i64` to binary64 casts.
#[verifier::external_body]
pub(crate) fn f64_from_i64(t: i64) -> (r: u64)
    ensures
        r == f64_of_i64(t),
{
    rustc_apfloat::ieee::Double::from_i128(t as i128).value.to_bits() as u64
}

/// Relies on `rustc_apfloat`'s `ieee::Double::round_to_integral` with
/// `NearestTiesToAway`: rounding to the nearest integral value with halfway
/// cases away from zero.
#[verifier::external_body]
pub(crate) fn f64_round(a: u64) -> (r: u64)
    ensures
        r == f64_round_of(a),
{
    let x = rustc_apfloat::ieee::Double::from_bits(a as u128);
    x.round_to_integral(rustc_apfloat::Round::NearestTiesToAway).value.to_bits() as u64
}

/// Relies on `rustc_apfloat`'s `ieee::Double` `partial_cmp`: the IEEE 754
/// comparison, unordered exactly when an operand is NaN.
#[verifier::external_body]
pub(crate) fn f64_cmp(a: u64, b: u64) -> (r: FloatCmp)
    ensures
        r == f64_cmp_of(a, b),
{
    let x = rustc_apfloat::ieee::Double::from_bits(a as u128);
    let y = rustc_apfloat::ieee::Double::from_bits(b as u128);
    match x.partial_cmp(&y) {
        Some(core::cmp::Ordering::Less) => FloatCmp::Less,
        Some(core::cmp::Ordering::Equal) => FloatCmp::Equal,
        Some(core::cmp::Ordering::Greater) => FloatCmp::Greater,
        None => FloatCmp::Unordered,
    }
}

/// Relies on `rustc_apfloat`'s `ieee::Double::from_str` (round to nearest,
/// ties to even): parses a decimal or hexadecimal floating-point literal,
/// `Err` on anything else.
#[verifier::external_body]
pub(crate) fn f64_parse(s: &str) -> (r: Option<u64>)
    ensures
        r == f64_parse_of(s@),
{
    match rustc_apfloat::ieee::Double::from_str(s) {
        Ok(d) => Some(d.to_bits() as u64),
        Err(_) => None,
    }
}

/// The absolute value of the binary64 value with bit pattern `a`: the same
/// bits with the sign bit cleared.
pub(crate) fn f64_abs(a: u64) -> (r: u64)
    ensures
        r == f64_abs_of(a),
{
    a & 0x7fff_ffff_ffff_ffff
}

/// Whether the binary64 value with bit pattern `a` compares `>=` the one
/// with bit pattern `b`.
pub(crate) fn f64_ge(a: u64, b: u64) -> (r: bool)
    ensures
        r == f64_ge_of(a, b),
{
    let c = f64_cmp(a, b);
    c == FloatCmp::Greater || c == FloatCmp::Equal
}

} // verus!
