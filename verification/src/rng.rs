//! Seeded random number generation for deterministic simulation runs.

use rand::seq::SliceRandom;
use rand::{Rng, SeedableRng};
use rand_chacha::ChaCha8Rng;
use vstd::prelude::*;

verus! {

/// The ChaCha8 generator of `rand_chacha`, carried as an opaque value.
#[verifier::external_type_specification]
#[verifier::external_body]
pub struct ExChaCha8Rng(ChaCha8Rng);

/// The generator that `ChaCha8Rng::seed_from_u64` makes from `seed`: its
/// state is derived from the seed alone (a PCG32 stream started from the
/// seed fills the ChaCha key), the same on every machine.
pub uninterp spec fn seeded_generator(seed: u64) -> ChaCha8Rng;

/// Calls `ChaCha8Rng::seed_from_u64`: the generator it returns is
/// `seeded_generator(seed)`, a function of the seed alone. Nothing is stated
/// of the stream of values it draws.
#[verifier::external_body]
fn seeded_chacha(seed: u64) -> (r: ChaCha8Rng)
    ensures
        r == seeded_generator(seed),
{
    ChaCha8Rng::seed_from_u64(seed)
}

/// Calls `Rng::gen_range(lo..hi)` on the generator. `rand` asserts that the
/// range is not empty; the value it draws lies in the range. Which value it is
/// depends on the generator's state and is not stated.
#[verifier::external_body]
fn draw_index(rng: &mut ChaCha8Rng, lo: usize, hi: usize) -> (r: usize)
    requires
        lo < hi,
    ensures
        lo <= r < hi,
{
    rng.gen_range(lo..hi)
}

/// Calls `SliceRandom::shuffle` with the generator. `rand` shuffles by
/// swapping elements, so the slice keeps its elements; their new order
/// depends on the generator's state and is not stated.
#[verifier::external_body]
fn shuffle_with<T>(rng: &mut ChaCha8Rng, slice: &mut [T])
    ensures
        final(slice)@.to_multiset() == old(slice)@.to_multiset(),
{
    slice.shuffle(rng)
}

/// Seeded generator for deterministic simulation: the same seed gives the
/// same sequence of draws.
pub struct SimRng {
    /// The underlying generator.
    pub rng: ChaCha8Rng,
}

impl SimRng {
    /// A generator seeded with `seed`: two generators made from the same
    /// seed hold the same generator state.
    pub fn new(seed: u64) -> (r: Self)
        ensures
            r.rng == seeded_generator(seed),
    {
        SimRng { rng: seeded_chacha(seed) }
    }

    /// A value drawn from `range`, which must not be empty.
    pub fn gen_range(&mut self, range: std::ops::Range<usize>) -> (r: usize)
        requires
            range.start < range.end,
        ensures
            range.start <= r < range.end,
    {
        draw_index(&mut self.rng, range.start, range.end)
    }

    /// A randomly chosen element of `slice`, or `None` if it is empty.
    pub fn choose_element<'a, T>(&mut self, slice: &'a [T]) -> (r: Option<&'a T>)
        ensures
            r is None <==> slice@.len() == 0,
            r matches Some(x) ==> slice@.contains(*x),
    {
        if slice.len() == 0 {
            None
        } else {
            let idx = self.gen_range(0..slice.len());
            assert(slice@[idx as int] == slice@[idx as int]);
            Some(&slice[idx])
        }
    }

    /// Shuffles `slice` in place.
    pub fn shuffle<T>(&mut self, slice: &mut [T])
        ensures
            final(slice)@.to_multiset() == old(slice)@.to_multiset(),
    {
        shuffle_with(&mut self.rng, slice)
    }
}

} // verus!
