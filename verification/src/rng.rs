//! Deterministic pseudo-random number generation for sampling and shuffling.
//!
//! The generator is `rand_xorshift::XorShiftRng`, seeded explicitly so that a
//! fixed seed reproduces a run.  Its draws are reached through trusted
//! wrappers; their contracts state only what holds of every outcome.

use rand::seq::SliceRandom;
use rand::Rng;
use rand::RngCore;
use rand::SeedableRng;
use vstd::prelude::*;

use crate::fp::{div_bits, f_div, f_from_int, f_mul, f_sub, int_bits, mul_bits, sub_bits};

verus! {

/// The xorshift128 generator type of the `rand_xorshift` crate.
#[verifier::external_type_specification]
#[verifier::external_body]
pub struct ExXorShiftRng(rand_xorshift::XorShiftRng);

/// Relies on `rand::SeedableRng::seed_from_u64`: a generator whose stream is
/// a function of the seed alone.
#[verifier::external_body]
pub(crate) fn rng_from_seed(seed: u64) -> rand_xorshift::XorShiftRng {
    rand_xorshift::XorShiftRng::seed_from_u64(seed)
}

/// Relies on `rand::Rng::gen_range`: a uniform draw from `0..n`, which is
/// below `n`; the range is non-empty, so the call cannot panic.
#[verifier::external_body]
pub(crate) fn rng_below(rng: &mut rand_xorshift::XorShiftRng, n: usize) -> (r: usize)
    requires
        n >= 1,
    ensures
        r < n,
{
    rng.gen_range(0..n)
}

/// Relies on `rand::RngCore::next_u32`: the next 32 raw bits of the stream.
#[verifier::external_body]
pub(crate) fn rng_next_u32(rng: &mut rand_xorshift::XorShiftRng) -> u32 {
    rng.next_u32()
}

/// Relies on `rand::seq::SliceRandom::shuffle`: a permutation of the slice in
/// place, so the multiset of elements (and hence the length) is unchanged.
#[verifier::external_body]
pub(crate) fn rng_shuffle(rng: &mut rand_xorshift::XorShiftRng, v: &mut Vec<usize>)
    ensures
        final(v)@.len() == old(v)@.len(),
        final(v)@.to_multiset() == old(v)@.to_multiset(),
{
    v.shuffle(rng)
}

/// Relies on `rand::seq::SliceRandom::choose_multiple`: `amount` distinct
/// positions chosen without replacement (all of them when the slice is
/// shorter), so the result is a sub-multiset of the slice's elements.
#[verifier::external_body]
pub(crate) fn rng_choose(rng: &mut rand_xorshift::XorShiftRng, v: &Vec<usize>, amount: usize) -> (r: Vec<
    usize,
>)
    ensures
        r@.len() == if amount <= v@.len() {
            amount as int
        } else {
            v@.len() as int
        },
        r@.to_multiset().subset_of(v@.to_multiset()),
{
    v.choose_multiple(rng, amount).cloned().collect()
}

/// The binary32 unit draw built from 32 raw bits: the top 24 bits, converted
/// and scaled by 2^-24.
pub open spec fn unit_from_raw(raw: u32) -> u32 {
    mul_bits(int_bits((raw >> 8u32) as u64), div_bits(int_bits(1), int_bits(16777216)))
}

/// The binary32 draw from [-1, 1) built from 32 raw bits: `2·u − 1` for the
/// unit draw `u` of the same bits.
pub open spec fn symmetric_from_raw(raw: u32) -> u32 {
    sub_bits(mul_bits(int_bits(2), unit_from_raw(raw)), int_bits(1))
}

/// The value is some raw draw's `2·u − 1` construction.
pub open spec fn is_symmetric_draw(x: u32) -> bool {
    exists|raw: u32| x == symmetric_from_raw(raw)
}

/// A uniform draw from the unit interval, as a binary32 bit pattern: the top
/// 24 raw bits scaled by 2^-24, the classic single-precision unit draw.  The
/// value depends on the generator state; what is promised is its shape.
pub fn rand_unit(rng: &mut rand_xorshift::XorShiftRng) -> (r: u32)
    ensures
        exists|raw: u32| r == unit_from_raw(raw),
{
    let raw = rng_next_u32(rng);
    let mantissa = f_from_int((raw >> 8u32) as u64);
    let scale = f_div(f_from_int(1u64), f_from_int(16777216u64));
    let r = f_mul(mantissa, scale);
    proof {
        assert(r == unit_from_raw(raw));
    }
    r
}

/// A uniform draw from [-1, 1): `2·u − 1` for a unit draw `u`.  The value
/// depends on the generator state; what is promised is its shape.
pub fn rand_symmetric(rng: &mut rand_xorshift::XorShiftRng) -> (r: u32)
    ensures
        is_symmetric_draw(r),
{
    let u = rand_unit(rng);
    let r = f_sub(f_mul(f_from_int(2u64), u), f_from_int(1u64));
    proof {
        let raw = choose|raw: u32| u == unit_from_raw(raw);
        assert(r == symmetric_from_raw(raw));
    }
    r
}

} // verus!
