//! The benchmark's random-source capability.
//!
//! A `RandomSource` owns one `rand::rngs::StdRng` and hands the library the
//! two draws the benchmark needs: a uniform index below a bound, and random
//! alphanumeric text.  A source seeded with `from_seed` replays the same
//! draws, which is what makes generated workloads reproducible in testing;
//! `from_entropy` gives each run fresh draws.

use vstd::prelude::*;

use rand::Rng;
use rand::RngCore;
use rand::SeedableRng;
use rand::distributions::DistString;

verus! {

/// The characters that can appear in random alphanumeric text:
/// `A`-`Z`, `a`-`z` and `0`-`9`.
pub open spec fn is_alnum_char(c: char) -> bool {
    (65 <= c as u32 && c as u32 <= 90) || (97 <= c as u32 && c as u32 <= 122) || (48 <= c as u32
        && c as u32 <= 57)
}

#[verifier::external_type_specification]
#[verifier::external_body]
pub struct ExStdRng(rand::rngs::StdRng);

/// A pseudo-random source, owned exclusively by one worker.
pub struct RandomSource {
    inner: rand::rngs::StdRng,
}

impl RandomSource {
    /// Relies on rand's `SeedableRng::seed_from_u64`: a source built from a
    /// seed.  Nothing is promised of the draws it will make.
    #[verifier::external_body]
    pub fn from_seed(seed: u64) -> RandomSource {
        RandomSource { inner: rand::rngs::StdRng::seed_from_u64(seed) }
    }

    /// Relies on rand's `SeedableRng::from_entropy`: a source seeded from the
    /// operating system.  Nothing is promised of the draws it will make.
    #[verifier::external_body]
    pub fn from_entropy() -> RandomSource {
        RandomSource { inner: rand::rngs::StdRng::from_entropy() }
    }

    /// Relies on rand's `Rng::gen_range` over `0..n`: a uniform draw below
    /// `n`.  The call panics on an empty range, so `n` must be positive;
    /// every result is below the bound.
    #[verifier::external_body]
    pub fn next_below(&mut self, n: u32) -> (r: u32)
        requires
            n > 0,
        ensures
            r < n,
    {
        self.inner.gen_range(0..n)
    }

    /// Relies on rand's `RngCore::next_u64`: one raw draw.  Nothing is
    /// promised of its value.
    #[verifier::external_body]
    pub fn next_u64(&mut self) -> u64 {
        self.inner.next_u64()
    }

    /// Relies on rand's `DistString::sample_string` for the `Alphanumeric`
    /// distribution: `len` characters, each from `A`-`Z`, `a`-`z`, `0`-`9`.
    #[verifier::external_body]
    pub fn alphanumeric_string(&mut self, len: usize) -> (r: String)
        ensures
            r@.len() == len,
            forall|i: int| 0 <= i < r@.len() ==> is_alnum_char(r@[i]),
    {
        rand::distributions::Alphanumeric.sample_string(&mut self.inner, len)
    }
}

} // verus!
