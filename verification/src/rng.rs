//! The seeded random source behind every simulated decision.
//!
//! The generator is `rand`'s `StdRng`, held opaquely: nothing is stated of the
//! values it yields beyond the ranges that `rand` documents.

use vstd::prelude::*;
use rand::rngs::StdRng;
use rand::{Rng, RngCore, SeedableRng};

verus! {

#[verifier::external_type_specification]
#[verifier::external_body]
pub struct ExStdRng(StdRng);

/// `StdRng::seed_from_u64`: the generator seeded from `seed`. Its state is opaque here.
#[verifier::external_body]
pub(crate) fn std_rng_from_seed(seed: u64) -> StdRng {
    StdRng::seed_from_u64(seed)
}

/// `RngCore::next_u64` on a `StdRng`: the next 64 bits of the stream. Any value
/// may come out; nothing is stated of it.
#[verifier::external_body]
pub(crate) fn std_rng_next_u64(rng: &mut StdRng) -> u64 {
    rng.next_u64()
}

/// `Rng::random_range(lo..=hi)` on `u64`: a value between `lo` and `hi`, both
/// included. `rand` panics on an empty range, so `lo <= hi` is required.
#[verifier::external_body]
pub(crate) fn std_rng_range_inclusive(rng: &mut StdRng, lo: u64, hi: u64) -> (r: u64)
    requires
        lo <= hi,
    ensures
        lo <= r <= hi,
{
    rng.random_range(lo..=hi)
}

/// `Rng::random_range(lo..hi)` on `u32`: a value from `lo` up to, not
/// including, `hi`. `rand` panics on an empty range, so `lo < hi` is
/// required.
#[verifier::external_body]
pub(crate) fn std_rng_range_u32(rng: &mut StdRng, lo: u32, hi: u32) -> (r: u32)
    requires
        lo < hi,
    ensures
        lo <= r < hi,
{
    rng.random_range(lo..hi)
}

/// `Rng::random_range(0..n)` on `usize`: an index below `n`. `rand` panics on
/// an empty range, so `n > 0` is required.
#[verifier::external_body]
pub(crate) fn std_rng_index_below(rng: &mut StdRng, n: usize) -> (r: usize)
    requires
        n > 0,
    ensures
        r < n,
{
    rng.random_range(0..n)
}

/// `Rng::random::<u32>()` on a `StdRng`: the next 32 bits of the stream. Any
/// value may come out; nothing is stated of it.
#[verifier::external_body]
pub(crate) fn std_rng_random_u32(rng: &mut StdRng) -> u32 {
    rng.random::<u32>()
}

/// `Rng::random::<[u8; 16]>()` on a `StdRng`: sixteen random bytes. Any value
/// may come out; nothing is stated of it.
#[verifier::external_body]
pub(crate) fn std_rng_random_bytes16(rng: &mut StdRng) -> [u8; 16] {
    rng.random::<[u8; 16]>()
}

/// `rand::random::<u64>()`: a value from the thread-local generator, seeded
/// from the operating system. Any value may come out.
#[verifier::external_body]
pub(crate) fn thread_random_u64() -> u64 {
    rand::random::<u64>()
}

} // verus!
