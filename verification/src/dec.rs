use vstd::prelude::*;
use rustc_apfloat::Float;

verus! {

// A Decimal value is carried as the bit pattern of an IEEE-754 binary64
// number. Arithmetic on such values is delegated to rustc_apfloat, which
// implements IEEE-754 binary64 exactly; comparisons, absolute value and the
// NaN and zero tests are bit-level definitions written out here.

/// The bit pattern of 1.0.
pub const DEC_ONE_BITS: u64 = 0x3ff0000000000000;

/// The bit pattern of 0.0.
pub const DEC_ZERO_BITS: u64 = 0;

/// The bit pattern of the machine epsilon for binary64, 2^-52.
pub const DEC_EPSILON_BITS: u64 = 0x3cb0000000000000;

/// Whether the bit pattern denotes a NaN: exponent all ones, significand
/// nonzero.
pub open spec fn spec_dec_is_nan(b: u64) -> bool {
    (b >> 52) & 0x7ff == 0x7ff && b & 0xfffffffffffff != 0
}

/// The bit pattern with the sign cleared: the absolute value.
pub open spec fn spec_dec_abs(b: u64) -> u64 {
    b & 0x7fffffffffffffff
}

/// Whether the bit pattern denotes a zero (of either sign).
pub open spec fn spec_dec_is_zero(b: u64) -> bool {
    spec_dec_abs(b) == 0
}

/// A sign-magnitude reordering key: for non-NaN patterns, the numeric order
/// of the denoted values is the unsigned order of their keys.
pub open spec fn spec_dec_key(b: u64) -> u64 {
    if b >> 63 == 1 {
        (0xffffffffffffffff - b) as u64
    } else {
        b | 0x8000000000000000
    }
}

/// IEEE-754 equality of the two denoted values: NaN equals nothing, the two
/// zeroes are equal, and every other value equals only its own bit pattern.
pub open spec fn spec_dec_eq(a: u64, b: u64) -> bool {
    &&& !spec_dec_is_nan(a)
    &&& !spec_dec_is_nan(b)
    &&& (a == b || (spec_dec_is_zero(a) && spec_dec_is_zero(b)))
}

/// IEEE-754 strict ordering of the two denoted values: false when either is
/// NaN, and otherwise the sign-magnitude order of the patterns.
pub open spec fn spec_dec_lt(a: u64, b: u64) -> bool {
    &&& !spec_dec_is_nan(a)
    &&& !spec_dec_is_nan(b)
    &&& !spec_dec_eq(a, b)
    &&& spec_dec_key(a) < spec_dec_key(b)
}

#[verifier::when_used_as_spec(spec_dec_is_nan)]
pub fn dec_is_nan(b: u64) -> (r: bool)
    ensures
        r == spec_dec_is_nan(b),
{
    (b >> 52u64) & 0x7ff == 0x7ff && b & 0xfffffffffffff != 0
}

#[verifier::when_used_as_spec(spec_dec_abs)]
pub fn dec_abs(b: u64) -> (r: u64)
    ensures
        r == spec_dec_abs(b),
{
    b & 0x7fffffffffffffff
}

#[verifier::when_used_as_spec(spec_dec_is_zero)]
pub fn dec_is_zero(b: u64) -> (r: bool)
    ensures
        r == spec_dec_is_zero(b),
{
    dec_abs(b) == 0
}

#[verifier::when_used_as_spec(spec_dec_key)]
pub fn dec_key(b: u64) -> (r: u64)
    ensures
        r == spec_dec_key(b),
{
    if b >> 63u64 == 1 {
        0xffffffffffffffff - b
    } else {
        b | 0x8000000000000000
    }
}

#[verifier::when_used_as_spec(spec_dec_eq)]
pub fn dec_eq(a: u64, b: u64) -> (r: bool)
    ensures
        r == spec_dec_eq(a, b),
{
    !dec_is_nan(a) && !dec_is_nan(b) && (a == b || (dec_is_zero(a) && dec_is_zero(b)))
}

#[verifier::when_used_as_spec(spec_dec_lt)]
pub fn dec_lt(a: u64, b: u64) -> (r: bool)
    ensures
        r == spec_dec_lt(a, b),
{
    !dec_is_nan(a) && !dec_is_nan(b) && !dec_eq(a, b) && dec_key(a) < dec_key(b)
}

/// The bit pattern of the IEEE-754 sum of the two denoted values, rounded to
/// nearest, ties to even.
pub uninterp spec fn dec_add_bits(a: u64, b: u64) -> u64;

/// The bit pattern of the IEEE-754 difference of the two denoted values.
pub uninterp spec fn dec_sub_bits(a: u64, b: u64) -> u64;

/// The bit pattern of the IEEE-754 product of the two denoted values.
pub uninterp spec fn dec_mul_bits(a: u64, b: u64) -> u64;

/// The bit pattern of the IEEE-754 quotient of the two denoted values.
pub uninterp spec fn dec_div_bits(a: u64, b: u64) -> u64;

/// The bit pattern of the denoted value rounded toward negative infinity to
/// an integral value: the floor.
pub uninterp spec fn dec_floor_bits(b: u64) -> u64;

/// The denoted value rounded toward negative infinity and converted to a
/// 128-bit signed integer, with NaN going to zero and out-of-range values
/// saturating.
pub uninterp spec fn dec_floor_int(b: u64) -> i128;

/// The bit pattern of the binary64 value nearest to the given integer.
pub uninterp spec fn dec_of_int_bits(i: i128) -> u64;

/// The bit pattern of the binary64 value nearest to `ip.fp`, the decimal
/// literal made of an integer part and a fraction part.
pub uninterp spec fn dec_lit_bits(ip: i128, fp: i128) -> u64;

/// The decimal rendering of the denoted value.
pub uninterp spec fn dec_chars_of(b: u64) -> Seq<char>;

/// Relies on rustc_apfloat's binary64 addition (`Add` rounds to nearest,
/// ties to even): the sum depends on the two bit patterns alone.
#[verifier::external_body]
pub fn dec_add(a: u64, b: u64) -> (r: u64)
    ensures
        r == dec_add_bits(a, b),
{
    let x = rustc_apfloat::ieee::Double::from_bits(a as u128);
    let y = rustc_apfloat::ieee::Double::from_bits(b as u128);
    (x + y).value.to_bits() as u64
}

/// Relies on rustc_apfloat's binary64 subtraction.
#[verifier::external_body]
pub fn dec_sub(a: u64, b: u64) -> (r: u64)
    ensures
        r == dec_sub_bits(a, b),
{
    let x = rustc_apfloat::ieee::Double::from_bits(a as u128);
    let y = rustc_apfloat::ieee::Double::from_bits(b as u128);
    (x - y).value.to_bits() as u64
}

/// Relies on rustc_apfloat's binary64 multiplication.
#[verifier::external_body]
pub fn dec_mul(a: u64, b: u64) -> (r: u64)
    ensures
        r == dec_mul_bits(a, b),
{
    let x = rustc_apfloat::ieee::Double::from_bits(a as u128);
    let y = rustc_apfloat::ieee::Double::from_bits(b as u128);
    (x * y).value.to_bits() as u64
}

/// Relies on rustc_apfloat's binary64 division.
#[verifier::external_body]
pub fn dec_div(a: u64, b: u64) -> (r: u64)
    ensures
        r == dec_div_bits(a, b),
{
    let x = rustc_apfloat::ieee::Double::from_bits(a as u128);
    let y = rustc_apfloat::ieee::Double::from_bits(b as u128);
    (x / y).value.to_bits() as u64
}

/// Relies on rustc_apfloat's `round_to_integral` with rounding toward
/// negative infinity: the floor of the denoted value.
#[verifier::external_body]
pub fn dec_floor(b: u64) -> (r: u64)
    ensures
        r == dec_floor_bits(b),
{
    let x = rustc_apfloat::ieee::Double::from_bits(b as u128);
    x.round_to_integral(rustc_apfloat::Round::TowardNegative).value.to_bits() as u64
}

/// Relies on rustc_apfloat's `to_i128_r` with rounding toward negative
/// infinity: the floor as a 128-bit signed integer, NaN going to zero and
/// out-of-range values saturating.
#[verifier::external_body]
pub fn dec_floor_to_int(b: u64) -> (r: i128)
    ensures
        r == dec_floor_int(b),
{
    let x = rustc_apfloat::ieee::Double::from_bits(b as u128);
    let mut exact = false;
    x.to_i128_r(128, rustc_apfloat::Round::TowardNegative, &mut exact).value
}

/// Relies on rustc_apfloat's `from_i128`: the binary64 value nearest to the
/// integer, rounded to nearest, ties to even.
#[verifier::external_body]
pub fn dec_of_int(i: i128) -> (r: u64)
    ensures
        r == dec_of_int_bits(i),
{
    rustc_apfloat::ieee::Double::from_i128(i).value.to_bits() as u64
}

/// Relies on rustc_apfloat's `FromStr`: the correctly rounded binary64 value
/// of the decimal literal `ip.fp`.
#[verifier::external_body]
pub fn dec_from_parts(ip: i128, fp: i128) -> (r: u64)
    requires
        ip >= 0,
        fp >= 0,
    ensures
        r == dec_lit_bits(ip, fp),
{
    let s = format!("{}.{}", ip, fp);
    s.parse::<rustc_apfloat::ieee::Double>().unwrap().to_bits() as u64
}

/// Relies on rustc_apfloat's `Display`: a decimal rendering of the denoted
/// value, exact enough to round-trip.
#[verifier::external_body]
pub fn dec_to_chars(b: u64) -> (r: Vec<char>)
    ensures
        r@ == dec_chars_of(b),
{
    let x = rustc_apfloat::ieee::Double::from_bits(b as u128);
    format!("{}", x).chars().collect()
}

/// The bit pattern of `a` raised to the power `e` by binary
/// exponentiation-by-squaring over binary64 multiplications, starting from
/// the accumulator `r`.
pub open spec fn spec_powi_loop(a: u64, e: u128, r: u64) -> u64
    decreases e,
{
    if e == 0 {
        r
    } else {
        spec_powi_loop(
            dec_mul_bits(a, a),
            e / 2,
            if e % 2 == 1 {
                dec_mul_bits(r, a)
            } else {
                r
            },
        )
    }
}

/// The bit pattern of `base` raised to the non-negative power `e`.
pub open spec fn spec_powi(base: u64, e: u128) -> u64 {
    spec_powi_loop(base, e, DEC_ONE_BITS)
}

/// Raises a binary64 value (by bit pattern) to a non-negative integer power
/// by exponentiation-by-squaring.
pub fn dec_powi(base: u64, e: u128) -> (r: u64)
    ensures
        r == spec_powi(base, e),
{
    let mut a: u64 = base;
    let mut b: u128 = e;
    let mut r: u64 = DEC_ONE_BITS;
    while b != 0
        invariant
            spec_powi_loop(a, b, r) == spec_powi(base, e),
        decreases b,
    {
        if b % 2 == 1 {
            r = dec_mul(r, a);
        }
        a = dec_mul(a, a);
        b = b / 2;
    }
    r
}

} // verus!
