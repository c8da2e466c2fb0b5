//! Resampling with replacement, the randomness source of the bootstrap.
//!
//! The random generator itself comes from the `rand` crate and is trusted;
//! everything stated of a resample holds whatever indices the generator
//! returns.

use vstd::prelude::*;

use crate::sample::{bounded, is_resample_of};

verus! {

#[verifier::external_type_specification]
#[verifier::external_body]
pub struct ExStdRng(rand::rngs::StdRng);

/// Relies on `StdRng::seed_from_u64` (`rand_core::SeedableRng`): builds a
/// generator deterministically from the seed.
#[verifier::external_body]
fn rng_from_seed(seed: u64) -> rand::rngs::StdRng {
    <rand::rngs::StdRng as rand::SeedableRng>::seed_from_u64(seed)
}

/// Relies on `rand::make_rng`: builds a generator seeded from the
/// thread-local generator, which is itself seeded by the OS.
#[verifier::external_body]
fn rng_fresh() -> rand::rngs::StdRng {
    rand::make_rng()
}

/// Relies on `rand::RngExt::random_range`: a sample from `0..n` lies below
/// `n` (the range is non-empty because `n >= 1`, so the call cannot panic).
#[verifier::external_body]
fn rng_below(rng: &mut rand::rngs::StdRng, n: usize) -> (r: usize)
    requires
        n >= 1,
    ensures
        r < n,
{
    rand::RngExt::random_range(rng, 0..n)
}

/// A source of bootstrap resamples. Each parallel worker owns its own
/// `Resampler` over a read-only source; resamplers are never shared.
pub struct Resampler {
    rng: rand::rngs::StdRng,
}

impl Resampler {
    /// A resampler with a deterministic generator: runs with equal seeds
    /// draw equal index sequences within one build of this crate.
    pub fn seeded(seed: u64) -> Resampler {
        Resampler { rng: rng_from_seed(seed) }
    }

    /// A resampler drawing fresh OS randomness: runs are not reproducible.
    pub fn fresh() -> Resampler {
        Resampler { rng: rng_fresh() }
    }

    /// One classic non-parametric bootstrap resample: `source.len()` values
    /// drawn independently and uniformly with replacement from `source`.
    pub fn resample(&mut self, source: &Vec<i64>) -> (r: Vec<i64>)
        requires
            source@.len() >= 1,
        ensures
            is_resample_of(r@, source@),
    {
        let n = source.len();
        let mut picked: Vec<i64> = Vec::new();
        for j in 0..n
            invariant
                n == source@.len(),
                n >= 1,
                picked@.len() == j,
                forall|k: int| 0 <= k < j ==> source@.contains(#[trigger] picked@[k]),
        {
            let idx = rng_below(&mut self.rng, n);
            picked.push(source[idx]);
        }
        picked
    }

    /// Indices for one joint resample of `n` items (used to resample
    /// `(x, y)` pairs together).
    pub fn resample_indices(&mut self, n: usize) -> (r: Vec<usize>)
        requires
            n >= 1,
        ensures
            r@.len() == n,
            forall|j: int| 0 <= j < r@.len() ==> #[trigger] r@[j] < n,
    {
        let mut picked: Vec<usize> = Vec::new();
        for j in 0..n
            invariant
                n >= 1,
                picked@.len() == j,
                forall|k: int| 0 <= k < j ==> #[trigger] picked@[k] < n,
        {
            let idx = rng_below(&mut self.rng, n);
            picked.push(idx);
        }
        picked
    }
}

/// What a resample inherits from its source: membership keeps values in
/// bounds.
pub proof fn lemma_resample_bounded(source: Seq<i64>, r: Seq<i64>, b: int)
    requires
        bounded(source, b),
        forall|j: int| 0 <= j < r.len() ==> source.contains(#[trigger] r[j]),
    ensures
        bounded(r, b),
{
    assert forall|j: int| 0 <= j < r.len() implies -b <= #[trigger] r[j] <= b by {
        let i = choose|i: int| 0 <= i < source.len() && source[i] == r[j];
        assert(-b <= source[i] <= b);
    }
}

} // verus!
