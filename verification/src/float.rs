use vstd::prelude::*;
use rustc_apfloat::Float;

verus! {

// Floats are carried through the whole pipeline as their IEEE-754
// binary64 bit patterns. The arithmetic itself is done by the
// `rustc_apfloat` software implementation of IEEE-754, which works on
// bit patterns and rounds to nearest, ties to even, exactly as the
// hardware operations do. Each operation below is named by an
// uninterpreted function of the operand bits, so that every result is
// a fixed function of its inputs and the virtual machine stays a pure
// function from program to transcript.
//
// The square root, sine and cosine are computed here, by Newton
// iteration and a Taylor series over those trusted operations, and
// their specifications name exactly that computation: printed results
// can differ from a hardware `sqrt`/`sin`/`cos` in the last digits.

/// Bits of the value the sum rounds to.
pub uninterp spec fn float_add(a: u64, b: u64) -> u64;

/// Bits of the value the difference rounds to.
pub uninterp spec fn float_sub(a: u64, b: u64) -> u64;

/// Bits of the value the product rounds to.
pub uninterp spec fn float_mul(a: u64, b: u64) -> u64;

/// Bits of the value the quotient rounds to.
pub uninterp spec fn float_div(a: u64, b: u64) -> u64;

/// Bits of the IEEE remainder of `a` by `b`.
pub uninterp spec fn float_rem(a: u64, b: u64) -> u64;

/// IEEE-754 `<` on the values with these bits.
pub uninterp spec fn float_lt(a: u64, b: u64) -> bool;

/// IEEE-754 `<=` on the values with these bits.
pub uninterp spec fn float_le(a: u64, b: u64) -> bool;

/// IEEE-754 `==` on the values with these bits.
pub uninterp spec fn float_eq(a: u64, b: u64) -> bool;

/// Bits of the float nearest to the given 64-bit integer.
pub uninterp spec fn float_of_i64(v: i64) -> u64;

/// The integer the float truncates to, saturated at the 64-bit range;
/// zero when the bits are a NaN.
pub uninterp spec fn float_trunc_i64(a: u64) -> i64;

/// What reading a float from decimal text yields, if anything.
pub uninterp spec fn float_parse(s: Seq<char>) -> Option<u64>;

/// The decimal text a float is shown as.
pub uninterp spec fn float_text(a: u64) -> Seq<char>;

pub const F_SIGN_BIT: u64 = 0x8000_0000_0000_0000;
pub const F_NAN: u64 = 0x7FF8_0000_0000_0000;
pub const F_INF: u64 = 0x7FF0_0000_0000_0000;
pub const F_ZERO: u64 = 0;
pub const F_ONE: u64 = 0x3FF0_0000_0000_0000;
pub const F_HALF: u64 = 0x3FE0_0000_0000_0000;
/// Bits of the built-in constants seeded into the constant frame.
pub const F_PI: u64 = 0x4009_21FB_5444_2D18;
pub const F_TAU: u64 = 0x4019_21FB_5444_2D18;
pub const F_E: u64 = 0x4005_BF0A_8B14_5769;
pub const F_SQRT_2: u64 = 0x3FF6_A09E_667F_3BCD;

/// A NaN bit pattern: maximal exponent with a non-zero significand.
pub open spec fn f_is_nan(a: u64) -> bool {
    (a >> 52) & 0x7FF == 0x7FF && a & 0x000F_FFFF_FFFF_FFFF != 0
}

/// Negation only flips the sign bit.
pub open spec fn f_neg(a: u64) -> u64 {
    a ^ F_SIGN_BIT
}

pub open spec fn f_is_sign_neg(a: u64) -> bool {
    a >> 63 == 1
}

pub open spec fn float_gt(a: u64, b: u64) -> bool {
    float_lt(b, a)
}

pub open spec fn float_ge(a: u64, b: u64) -> bool {
    float_le(b, a)
}

pub open spec fn f_is_zero(a: u64) -> bool {
    float_eq(a, F_ZERO)
}

/// Relies on `rustc_apfloat::ieee::Double::add_r` with rounding to
/// nearest, ties to even: IEEE-754 addition on the bit patterns.
#[verifier::external_body]
pub(crate) fn apf_add(a: u64, b: u64) -> (r: u64)
    ensures
        r == float_add(a, b),
{
    let x = rustc_apfloat::ieee::Double::from_bits(a as u128);
    let y = rustc_apfloat::ieee::Double::from_bits(b as u128);
    x.add_r(y, rustc_apfloat::Round::NearestTiesToEven).value.to_bits() as u64
}

/// Relies on `rustc_apfloat::ieee::Double::sub_r`: IEEE-754 subtraction.
#[verifier::external_body]
pub(crate) fn apf_sub(a: u64, b: u64) -> (r: u64)
    ensures
        r == float_sub(a, b),
{
    let x = rustc_apfloat::ieee::Double::from_bits(a as u128);
    let y = rustc_apfloat::ieee::Double::from_bits(b as u128);
    x.sub_r(y, rustc_apfloat::Round::NearestTiesToEven).value.to_bits() as u64
}

/// Relies on `rustc_apfloat::ieee::Double::mul_r`: IEEE-754 multiplication.
#[verifier::external_body]
pub(crate) fn apf_mul(a: u64, b: u64) -> (r: u64)
    ensures
        r == float_mul(a, b),
{
    let x = rustc_apfloat::ieee::Double::from_bits(a as u128);
    let y = rustc_apfloat::ieee::Double::from_bits(b as u128);
    x.mul_r(y, rustc_apfloat::Round::NearestTiesToEven).value.to_bits() as u64
}

/// Relies on `rustc_apfloat::ieee::Double::div_r`: IEEE-754 division
/// (division by zero gives an infinity or NaN, it does not fail).
#[verifier::external_body]
pub(crate) fn apf_div(a: u64, b: u64) -> (r: u64)
    ensures
        r == float_div(a, b),
{
    let x = rustc_apfloat::ieee::Double::from_bits(a as u128);
    let y = rustc_apfloat::ieee::Double::from_bits(b as u128);
    x.div_r(y, rustc_apfloat::Round::NearestTiesToEven).value.to_bits() as u64
}

/// Relies on `rustc_apfloat::ieee::Double::ieee_rem`: the IEEE remainder,
/// whose magnitude is at most half the divisor's.
#[verifier::external_body]
pub(crate) fn apf_rem(a: u64, b: u64) -> (r: u64)
    ensures
        r == float_rem(a, b),
{
    let x = rustc_apfloat::ieee::Double::from_bits(a as u128);
    let y = rustc_apfloat::ieee::Double::from_bits(b as u128);
    x.ieee_rem(y).value.to_bits() as u64
}

/// Relies on `PartialOrd::lt` of `rustc_apfloat::ieee::Double`: IEEE
/// ordering, on which a NaN compares false against everything.
#[verifier::external_body]
pub(crate) fn apf_lt(a: u64, b: u64) -> (r: bool)
    ensures
        r == float_lt(a, b),
{
    let x = rustc_apfloat::ieee::Double::from_bits(a as u128);
    let y = rustc_apfloat::ieee::Double::from_bits(b as u128);
    x < y
}

/// Relies on `PartialOrd::le` of `rustc_apfloat::ieee::Double`.
#[verifier::external_body]
pub(crate) fn apf_le(a: u64, b: u64) -> (r: bool)
    ensures
        r == float_le(a, b),
{
    let x = rustc_apfloat::ieee::Double::from_bits(a as u128);
    let y = rustc_apfloat::ieee::Double::from_bits(b as u128);
    x <= y
}

/// Relies on `PartialEq::eq` of `rustc_apfloat::ieee::Double`: IEEE
/// equality, under which a zero equals a negative zero and a NaN
/// equals nothing.
#[verifier::external_body]
pub(crate) fn apf_eq(a: u64, b: u64) -> (r: bool)
    ensures
        r == float_eq(a, b),
{
    let x = rustc_apfloat::ieee::Double::from_bits(a as u128);
    let y = rustc_apfloat::ieee::Double::from_bits(b as u128);
    x == y
}

/// Relies on `rustc_apfloat::ieee::Double::from_i128`: conversion from
/// an integer, rounded to nearest.
#[verifier::external_body]
pub(crate) fn apf_of_i64(v: i64) -> (r: u64)
    ensures
        r == float_of_i64(v),
{
    rustc_apfloat::ieee::Double::from_i128(v as i128).value.to_bits() as u64
}

/// Relies on `rustc_apfloat::ieee::Double::to_i128`: truncation toward
/// zero, saturated at the integer range, zero for a NaN.
#[verifier::external_body]
pub(crate) fn apf_trunc_i64(a: u64) -> (r: i64)
    ensures
        r == float_trunc_i64(a),
{
    let x = rustc_apfloat::ieee::Double::from_bits(a as u128);
    x.to_i128(64).value as i64
}

/// Relies on `rustc_apfloat::ieee::Double::from_str`: reading a float
/// from decimal (or hexadecimal) text, with an error for text that
/// holds no number.
#[verifier::external_body]
pub(crate) fn apf_parse(s: &str) -> (r: Option<u64>)
    ensures
        r == float_parse(s@),
{
    match s.parse::<rustc_apfloat::ieee::Double>() {
        Ok(d) => Some(d.to_bits() as u64),
        Err(_) => None,
    }
}

/// Relies on the `Display` of `rustc_apfloat::ieee::Double`: decimal
/// text with the number's natural precision.
#[verifier::external_body]
pub(crate) fn apf_text(a: u64) -> (r: String)
    ensures
        r@ == float_text(a),
{
    let x = rustc_apfloat::ieee::Double::from_bits(a as u128);
    format!("{}", x)
}

/// Negation of an IEEE-754 value only flips its sign bit, so it needs
/// no outside call.
pub fn f64_neg(a: u64) -> (r: u64)
    ensures
        r == f_neg(a),
{
    a ^ F_SIGN_BIT
}

pub fn f64_is_sign_neg(a: u64) -> (r: bool)
    ensures
        r == f_is_sign_neg(a),
{
    a >> 63 == 1
}

/// One Newton step for the square root: `g := (g + x/g) / 2`.
pub open spec fn spec_sqrt_iter(x: u64, g: u64, k: nat) -> u64
    decreases k,
{
    if k == 0 {
        g
    } else {
        spec_sqrt_iter(x, float_mul(float_add(g, float_div(x, g)), F_HALF), (k - 1) as nat)
    }
}

/// The square-root approximation the machine computes: an exponent
/// bit trick for the first guess, then Newton iteration.
pub open spec fn spec_sqrt_guess(x: u64) -> u64 {
    ((x >> 1) + 0x1FF8_0000_0000_0000) as u64
}

pub open spec fn spec_sqrt(x: u64) -> u64 {
    if f_is_nan(x) || x == F_INF {
        x
    } else if float_eq(x, F_ZERO) {
        x
    } else if f_is_sign_neg(x) {
        F_NAN
    } else {
        spec_sqrt_iter(x, spec_sqrt_guess(x), 40)
    }
}

pub fn f64_sqrt(x: u64) -> (r: u64)
    ensures
        r == spec_sqrt(x),
{
    let nan = (x >> 52) & 0x7FF == 0x7FF && x & 0x000F_FFFF_FFFF_FFFF != 0;
    if nan || x == F_INF {
        return x;
    }
    if apf_eq(x, F_ZERO) {
        return x;
    }
    if x >> 63 == 1 {
        return F_NAN;
    }
    proof {
        assert(x >> 63 != 1 ==> x >> 1 <= 0x3FFF_FFFF_FFFF_FFFFu64) by (bit_vector);
    }
    let mut g: u64 = (x >> 1) + 0x1FF8_0000_0000_0000;
    let mut k: usize = 0;
    while k < 40
        invariant
            k <= 40,
            spec_sqrt_iter(x, g, (40 - k) as nat) == spec_sqrt_iter(x, spec_sqrt_guess(x), 40),
        decreases 40 - k,
    {
        g = apf_mul(apf_add(g, apf_div(x, g)), F_HALF);
        k = k + 1;
    }
    g
}

/// Taylor terms after range reduction: each step multiplies by
/// `r2` and divides by `-(d * (d + 1))` where `d` walks the odd
/// (sine) or even (cosine) numbers.
pub open spec fn spec_taylor(r2: u64, term: u64, acc: u64, d: i64, k: nat) -> u64
    decreases k,
{
    if k == 0 {
        acc
    } else {
        let t2 = float_div(float_mul(term, r2), float_of_i64((-(d * (d + 1))) as i64));
        spec_taylor(r2, t2, float_add(acc, t2), (d + 2) as i64, (k - 1) as nat)
    }
}

fn taylor(r2: u64, term0: u64, d0: i64, rounds: usize) -> (r: u64)
    requires
        1 <= d0 <= 2,
        rounds <= 16,
    ensures
        r == spec_taylor(r2, term0, term0, d0, rounds as nat),
{
    let mut term: u64 = term0;
    let mut acc: u64 = term0;
    let mut d: i64 = d0;
    let mut k: usize = 0;
    while k < rounds
        invariant
            k <= rounds <= 16,
            1 <= d <= 2 + 2 * k,
            spec_taylor(r2, term, acc, d, (rounds - k) as nat) == spec_taylor(
                r2,
                term0,
                term0,
                d0,
                rounds as nat,
            ),
        decreases rounds - k,
    {
        proof {
            assert(d * (d + 1) <= 1260) by (nonlinear_arith)
                requires 1 <= d <= 34;
        }
        let t2 = apf_div(apf_mul(term, r2), apf_of_i64(-(d * (d + 1))));
        acc = apf_add(acc, t2);
        term = t2;
        d = d + 2;
        k = k + 1;
    }
    acc
}

/// The sine approximation the machine computes: IEEE remainder by the
/// full turn, then the Taylor series of the sine.
pub open spec fn spec_sin(x: u64) -> u64 {
    let r = float_rem(x, F_TAU);
    let r2 = float_mul(r, r);
    spec_taylor(r2, r, r, 2, 15)
}

/// The cosine approximation the machine computes.
pub open spec fn spec_cos(x: u64) -> u64 {
    let r = float_rem(x, F_TAU);
    let r2 = float_mul(r, r);
    spec_taylor(r2, F_ONE, F_ONE, 1, 16)
}

pub fn f64_sin(x: u64) -> (r: u64)
    ensures
        r == spec_sin(x),
{
    let red = apf_rem(x, F_TAU);
    let r2 = apf_mul(red, red);
    taylor(r2, red, 2, 15)
}

pub fn f64_cos(x: u64) -> (r: u64)
    ensures
        r == spec_cos(x),
{
    let red = apf_rem(x, F_TAU);
    let r2 = apf_mul(red, red);
    taylor(r2, F_ONE, 1, 16)
}

} // verus!
