//! Floating-point values as IEEE-754 binary64 bit patterns.
//!
//! The machine carries every float as its raw 64-bit pattern. The
//! operations whose outcome is pure bit logic (classification,
//! ordering, negation, truncation to an integer) are implemented and
//! verified here; the rounding operations (arithmetic, conversion from
//! an integer, literal parsing) are delegated to the `rustc_apfloat`
//! soft-float library behind named, trusted wrappers.

use vstd::prelude::*;
use rustc_apfloat::Float;

verus! {

/// The sign bit of the pattern.
pub open spec fn f_sign(bits: u64) -> bool {
    bits >> 63 == 1
}

/// The pattern with the sign bit cleared.
pub open spec fn f_magnitude(bits: u64) -> u64 {
    bits & 0x7FFF_FFFF_FFFF_FFFF
}

/// The biased exponent field.
pub open spec fn f_exponent(bits: u64) -> u64 {
    (bits >> 52) & 0x7FF
}

/// The fraction field.
pub open spec fn f_fraction(bits: u64) -> u64 {
    bits & 0x000F_FFFF_FFFF_FFFF
}

/// Whether the pattern denotes a NaN.
pub open spec fn f_is_nan(bits: u64) -> bool {
    f_exponent(bits) == 0x7FF && f_fraction(bits) != 0
}

/// The position of the pattern's value on the number line, as a signed
/// magnitude. Two non-NaN patterns denote the same extended real
/// exactly when their keys are equal (the two zeroes share key 0), and
/// denote ordered values exactly as their keys are ordered.
pub open spec fn f_key(bits: u64) -> int {
    if f_sign(bits) {
        -(f_magnitude(bits) as int)
    } else {
        f_magnitude(bits) as int
    }
}

/// IEEE-754 equality of two patterns: NaN equals nothing, the two
/// zeroes are equal, everything else is equal only to itself.
pub open spec fn f_eq(a: u64, b: u64) -> bool {
    !f_is_nan(a) && !f_is_nan(b) && f_key(a) == f_key(b)
}

/// IEEE-754 strict order of two patterns; false whenever either is NaN.
pub open spec fn f_lt(a: u64, b: u64) -> bool {
    !f_is_nan(a) && !f_is_nan(b) && f_key(a) < f_key(b)
}

/// The pattern of the negated value: the sign bit flipped.
pub open spec fn f_neg(bits: u64) -> u64 {
    bits ^ 0x8000_0000_0000_0000
}

/// The value truncated toward zero and saturated to the `i64` range,
/// with NaN taken to zero.
pub open spec fn f_trunc(bits: u64) -> i64 {
    let m = f_fraction(bits);
    let e = f_exponent(bits);
    if e == 0x7FF {
        // NaN or an infinity.
        if m != 0 {
            0
        } else if f_sign(bits) {
            i64::MIN
        } else {
            i64::MAX
        }
    } else if e < 1023 {
        // The magnitude is below one (zero and subnormals included).
        0
    } else if e >= 1086 {
        // The magnitude is at least 2^63.
        if f_sign(bits) {
            i64::MIN
        } else {
            i64::MAX
        }
    } else {
        // The significand with its implicit leading bit, scaled by the
        // unbiased exponent and truncated.
        let sig = f_fraction(bits) | 0x0010_0000_0000_0000;
        let mag = if e <= 1075 {
            sig >> (1075 - e)
        } else {
            sig << (e - 1075)
        };
        if f_sign(bits) {
            (-(mag as int)) as i64
        } else {
            mag as i64
        }
    }
}

/// Whether the pattern denotes a NaN.
pub fn float_is_nan(bits: u64) -> (r: bool)
    ensures
        r == f_is_nan(bits),
{
    ((bits >> 52) & 0x7FF) == 0x7FF && (bits & 0x000F_FFFF_FFFF_FFFF) != 0
}

/// IEEE-754 equality of two patterns.
pub fn float_eq(a: u64, b: u64) -> (r: bool)
    ensures
        r == f_eq(a, b),
{
    if float_is_nan(a) || float_is_nan(b) {
        return false;
    }
    let ma = a & 0x7FFF_FFFF_FFFF_FFFF;
    let mb = b & 0x7FFF_FFFF_FFFF_FFFF;
    let sa = a >> 63;
    let sb = b >> 63;
    assert(a >> 63 <= 1 && b >> 63 <= 1) by (bit_vector);
    (sa == sb && ma == mb) || (ma == 0 && mb == 0)
}

/// IEEE-754 strict order of two patterns.
pub fn float_lt(a: u64, b: u64) -> (r: bool)
    ensures
        r == f_lt(a, b),
{
    if float_is_nan(a) || float_is_nan(b) {
        return false;
    }
    let ma = a & 0x7FFF_FFFF_FFFF_FFFF;
    let mb = b & 0x7FFF_FFFF_FFFF_FFFF;
    let neg_a = a >> 63 == 1;
    let neg_b = b >> 63 == 1;
    assert(a >> 63 <= 1 && b >> 63 <= 1) by (bit_vector);
    if neg_a != neg_b {
        neg_a && !(ma == 0 && mb == 0)
    } else if neg_a {
        mb < ma
    } else {
        ma < mb
    }
}

/// The pattern of the negated value.
pub fn float_neg(bits: u64) -> (r: u64)
    ensures
        r == f_neg(bits),
{
    bits ^ 0x8000_0000_0000_0000
}

/// The value truncated toward zero and saturated to the `i64` range.
pub fn float_trunc_to_int(bits: u64) -> (r: i64)
    ensures
        r == f_trunc(bits),
{
    let m = bits & 0x000F_FFFF_FFFF_FFFF;
    let e = (bits >> 52) & 0x7FF;
    let negative = bits >> 63 == 1;
    assert(m <= 0x000F_FFFF_FFFF_FFFF && e <= 0x7FF) by (bit_vector)
        requires
            m == bits & 0x000F_FFFF_FFFF_FFFF && e == (bits >> 52) & 0x7FF,
    ;
    if e == 0x7FF {
        if m != 0 {
            0
        } else if negative {
            i64::MIN
        } else {
            i64::MAX
        }
    } else if e < 1023 {
        0
    } else if e >= 1086 {
        if negative {
            i64::MIN
        } else {
            i64::MAX
        }
    } else {
        let sig = m | 0x0010_0000_0000_0000;
        assert(sig < 0x0020_0000_0000_0000) by (bit_vector)
            requires
                sig == m | 0x0010_0000_0000_0000 && m <= 0x000F_FFFF_FFFF_FFFF,
        ;
        let mag: u64 = if e <= 1075 {
            sig >> ((1075 - e) as u32)
        } else {
            let sh = (e - 1075) as u32;
            assert(sig << sh < 0x8000_0000_0000_0000) by (bit_vector)
                requires
                    sig < 0x0020_0000_0000_0000 && sh <= 10,
            ;
            sig << sh
        };
        assert(sig >> ((1075 - e) as u32) <= sig) by (bit_vector);
        if negative {
            -(mag as i64)
        } else {
            mag as i64
        }
    }
}

// ---- trusted soft-float operations ----

pub uninterp spec fn f_add(a: u64, b: u64) -> u64;

pub uninterp spec fn f_sub(a: u64, b: u64) -> u64;

pub uninterp spec fn f_mul(a: u64, b: u64) -> u64;

pub uninterp spec fn f_div(a: u64, b: u64) -> u64;

pub uninterp spec fn f_rem(a: u64, b: u64) -> u64;

pub uninterp spec fn f_of_i64(i: i64) -> u64;

pub uninterp spec fn f_of_text(s: Seq<u8>) -> Option<u64>;

/// Relies on rustc_apfloat's `Double` addition: IEEE-754 binary64,
/// round to nearest ties to even, a function of the two patterns alone.
#[verifier::external_body]
pub(crate) fn float_add(a: u64, b: u64) -> (r: u64)
    ensures
        r == f_add(a, b),
{
    let x = rustc_apfloat::ieee::Double::from_bits(a as u128);
    let y = rustc_apfloat::ieee::Double::from_bits(b as u128);
    (x + y).value.to_bits() as u64
}

/// Relies on rustc_apfloat's `Double` subtraction: IEEE-754 binary64,
/// round to nearest ties to even, a function of the two patterns alone.
#[verifier::external_body]
pub(crate) fn float_sub(a: u64, b: u64) -> (r: u64)
    ensures
        r == f_sub(a, b),
{
    let x = rustc_apfloat::ieee::Double::from_bits(a as u128);
    let y = rustc_apfloat::ieee::Double::from_bits(b as u128);
    (x - y).value.to_bits() as u64
}

/// Relies on rustc_apfloat's `Double` multiplication: IEEE-754
/// binary64, round to nearest ties to even, a function of the two
/// patterns alone.
#[verifier::external_body]
pub(crate) fn float_mul(a: u64, b: u64) -> (r: u64)
    ensures
        r == f_mul(a, b),
{
    let x = rustc_apfloat::ieee::Double::from_bits(a as u128);
    let y = rustc_apfloat::ieee::Double::from_bits(b as u128);
    (x * y).value.to_bits() as u64
}

/// Relies on rustc_apfloat's `Double` division: IEEE-754 binary64,
/// round to nearest ties to even, a function of the two patterns
/// alone; division by zero yields an infinity or NaN, never a fault.
#[verifier::external_body]
pub(crate) fn float_div(a: u64, b: u64) -> (r: u64)
    ensures
        r == f_div(a, b),
{
    let x = rustc_apfloat::ieee::Double::from_bits(a as u128);
    let y = rustc_apfloat::ieee::Double::from_bits(b as u128);
    (x / y).value.to_bits() as u64
}

/// Relies on rustc_apfloat's `Double::c_fmod`: the C `fmod` remainder
/// on IEEE-754 binary64 values, a function of the two patterns alone.
#[verifier::external_body]
pub(crate) fn float_rem(a: u64, b: u64) -> (r: u64)
    ensures
        r == f_rem(a, b),
{
    let x = rustc_apfloat::ieee::Double::from_bits(a as u128);
    let y = rustc_apfloat::ieee::Double::from_bits(b as u128);
    x.c_fmod(y).value.to_bits() as u64
}

/// Relies on rustc_apfloat's `Double::from_i128`: conversion of a
/// signed integer to IEEE-754 binary64, round to nearest ties to even,
/// a function of the integer alone.
#[verifier::external_body]
pub(crate) fn float_of_int(i: i64) -> (r: u64)
    ensures
        r == f_of_i64(i),
{
    rustc_apfloat::ieee::Double::from_i128(i as i128).value.to_bits() as u64
}

/// Relies on `core::str::from_utf8` and rustc_apfloat's `Double`
/// `FromStr`: correctly rounded decimal floating-point parsing that
/// fails on malformed text, a function of the byte sequence alone.
#[verifier::external_body]
pub(crate) fn float_of_token(s: &[u8]) -> (r: Option<u64>)
    ensures
        r == f_of_text(s@),
{
    core::str::from_utf8(s)
        .ok()
        .and_then(|t| t.parse::<rustc_apfloat::ieee::Double>().ok())
        .map(|d| d.to_bits() as u64)
}

/// Whether the byte may occur in a decimal floating-point literal:
/// a decimal digit, `+`, `-`, `.`, `e` or `E`.
pub open spec fn is_float_char(c: u8) -> bool {
    (48 <= c && c <= 57) || c == 43 || c == 45 || c == 46 || c == 101 || c == 69
}

/// Whether every byte of the text may occur in a decimal
/// floating-point literal. This keeps special spellings such as
/// infinities, NaNs and hexadecimal forms out of the literal grammar.
pub open spec fn float_charset(s: Seq<u8>) -> bool {
    forall|i: int| 0 <= i < s.len() ==> is_float_char(s[i])
}

/// The value of a decimal floating-point literal: the parsed pattern
/// for well-formed decimal/exponent text, and nothing for anything
/// else.
pub open spec fn float_literal(s: Seq<u8>) -> Option<u64> {
    if float_charset(s) {
        f_of_text(s)
    } else {
        None
    }
}

/// Parse a decimal floating-point literal to its bit pattern.
pub fn parse_float_literal(s: &[u8]) -> (r: Option<u64>)
    ensures
        r == float_literal(s@),
{
    let mut i: usize = 0;
    while i < s.len()
        invariant
            i <= s.len(),
            forall|j: int| 0 <= j < i ==> is_float_char(s@[j]),
        decreases s.len() - i,
    {
        let c = s[i];
        if !((48 <= c && c <= 57) || c == 43 || c == 45 || c == 46 || c == 101 || c == 69) {
            return None;
        }
        i += 1;
    }
    float_of_token(s)
}

} // verus!
