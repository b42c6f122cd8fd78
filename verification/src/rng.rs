//! The machine's randomness capability.
//!
//! The generator itself comes from the `rand` crate and is opaque;
//! nothing is promised of the values it hands out. The shaping of a
//! random floating-point value into the unit interval is done here in
//! verified code, from plain random bits.

use vstd::prelude::*;
use crate::float::f_is_nan;
use crate::float::f_key;
use crate::float::f_sign;

verus! {

#[verifier::external_type_specification]
#[verifier::external_body]
pub struct ExThreadRng(rand::rngs::ThreadRng);

/// The machine's source of random values. It is opaque: nothing is
/// ever promised of the values it hands out.
pub struct RngSource {
    rng: rand::rngs::ThreadRng,
}

/// Relies on rand::thread_rng: a handle to the thread-local generator.
#[verifier::external_body]
pub(crate) fn fresh_rng() -> RngSource {
    RngSource { rng: rand::thread_rng() }
}

/// Relies on rand's `Rng::gen` for `i64`: some signed 64-bit integer;
/// nothing is promised of its value.
#[verifier::external_body]
pub(crate) fn random_i64(source: &mut RngSource) -> i64 {
    rand::Rng::gen::<i64>(&mut source.rng)
}

/// Relies on rand's `Rng::gen` for `u64`: some unsigned 64-bit
/// integer; nothing is promised of its value.
#[verifier::external_body]
pub(crate) fn random_u64(source: &mut RngSource) -> u64 {
    rand::Rng::gen::<u64>(&mut source.rng)
}

/// Relies on rand's `Rng::gen` for `bool`: some boolean.
#[verifier::external_body]
pub(crate) fn random_bool(source: &mut RngSource) -> bool {
    rand::Rng::gen::<bool>(&mut source.rng)
}

/// Relies on rand's `Rng::gen` for `u8`: some byte.
#[verifier::external_body]
pub(crate) fn random_u8(source: &mut RngSource) -> u8 {
    rand::Rng::gen::<u8>(&mut source.rng)
}

/// Whether the pattern denotes a value in the unit interval [0, 1).
pub open spec fn in_unit_interval(bits: u64) -> bool {
    &&& !f_is_nan(bits)
    &&& !f_sign(bits)
    &&& 0 <= f_key(bits) < f_key(0x3FF0_0000_0000_0000)
}

/// The IEEE-754 binary64 pattern of m / 2^53, the value drawn from the
/// unit interval when m holds 53 random bits.
pub fn unit_interval_bits(m: u64) -> (bits: u64)
    requires
        m < 0x0020_0000_0000_0000,
    ensures
        in_unit_interval(bits),
{
    if m == 0 {
        proof {
            assert(0u64 >> 63 == 0 && 0u64 & 0x7FFF_FFFF_FFFF_FFFF == 0 && (0u64 >> 52) & 0x7FF
                == 0) by (bit_vector);
            assert(0x3FF0_0000_0000_0000u64 >> 63 == 0 && 0x3FF0_0000_0000_0000u64
                & 0x7FFF_FFFF_FFFF_FFFF == 0x3FF0_0000_0000_0000) by (bit_vector);
        }
        return 0;
    }
    let mut mm = m;
    let mut e: u64 = 1022;
    proof {
        assert(m << 0u64 == m) by (bit_vector);
    }
    while mm < 0x0010_0000_0000_0000
        invariant
            1 <= mm < 0x0020_0000_0000_0000,
            970 <= e <= 1022,
            mm == m << ((1022 - e) as u64),
        decreases 0x0020_0000_0000_0000 - mm,
    {
        proof {
            assert(e > 970) by (bit_vector)
                requires
                    mm == m << ((1022 - e) as u64),
                    1 <= mm,
                    mm < 0x0010_0000_0000_0000,
                    970 <= e <= 1022,
            ;
            assert((mm << 1u64) == m << ((1022 - (e - 1)) as u64) && (mm << 1u64) < 0x0020_0000_0000_0000
                && (mm << 1u64) > mm) by (bit_vector)
                requires
                    mm == m << ((1022 - e) as u64),
                    1 <= mm,
                    mm < 0x0010_0000_0000_0000,
                    971 <= e <= 1022,
            ;
        }
        mm = mm << 1u32;
        e = e - 1;
    }
    let bits: u64 = (e << 52u32) | (mm & 0x000F_FFFF_FFFF_FFFF);
    proof {
        assert(bits >> 63 == 0 && bits < 0x3FF0_0000_0000_0000 && (bits >> 52) & 0x7FF != 0x7FF
            && bits & 0x7FFF_FFFF_FFFF_FFFF == bits) by (bit_vector)
            requires
                bits == (e << 52u32) | (mm & 0x000F_FFFF_FFFF_FFFF),
                970 <= e <= 1022,
        ;
        assert(0x3FF0_0000_0000_0000u64 >> 63 == 0 && 0x3FF0_0000_0000_0000u64
            & 0x7FFF_FFFF_FFFF_FFFF == 0x3FF0_0000_0000_0000) by (bit_vector);
    }
    bits
}

} // verus!
