use vstd::prelude::*;
use rand::SeedableRng;

verus! {

#[verifier::external_type_specification]
#[verifier::external_body]
pub struct ExSmallRng(rand::rngs::SmallRng);

/// The shared entropy source. It is used only around spawn time: to fork one
/// independent stream per entity (and, outside this crate, to place them).
pub struct GlobalRng {
    inner: rand::rngs::SmallRng,
}

/// A per-entity random stream, forked from the global source at spawn and
/// owned exclusively by one creature for its whole lifetime.
pub struct EntityRng {
    inner: rand::rngs::SmallRng,
}

/// Relies on rand::rngs::SmallRng::from_entropy: a generator seeded from the
/// operating system. It aborts only if the OS entropy source itself fails.
#[verifier::external_body]
fn small_rng_from_entropy() -> rand::rngs::SmallRng {
    rand::rngs::SmallRng::from_entropy()
}

/// Relies on rand_core::SeedableRng::seed_from_u64 on SmallRng: a generator
/// deterministically derived from the seed, for reproducible runs.
#[verifier::external_body]
fn small_rng_from_seed(seed: u64) -> rand::rngs::SmallRng {
    rand::rngs::SmallRng::seed_from_u64(seed)
}

/// Relies on rand_core::SeedableRng::from_rng: seeds a child generator from
/// the parent's output, advancing the parent. With a SmallRng parent,
/// try_fill_bytes cannot fail, so the unwrap cannot panic.
#[verifier::external_body]
fn small_rng_fork(parent: &mut rand::rngs::SmallRng) -> rand::rngs::SmallRng {
    rand::rngs::SmallRng::from_rng(parent).unwrap()
}

/// Relies on rand_core::RngCore::next_u64 on SmallRng: the stream's next
/// value; nothing is promised of it.
#[verifier::external_body]
fn small_rng_next_u64(rng: &mut rand::rngs::SmallRng) -> u64 {
    rand::RngCore::next_u64(rng)
}

/// Relies on rand::Rng::gen_ratio: true with probability `numer / denom`;
/// its documentation guarantees the result when the ratio is 0 or 1, and
/// that it panics exactly when `denom == 0` or `numer > denom`, which the
/// requires rules out.
#[verifier::external_body]
fn small_rng_ratio(rng: &mut rand::rngs::SmallRng, numer: u32, denom: u32) -> (r: bool)
    requires
        0 < denom,
        numer <= denom,
    ensures
        numer == denom ==> r,
        numer == 0 ==> !r,
{
    rand::Rng::gen_ratio(rng, numer, denom)
}

impl GlobalRng {
    /// A global source seeded from the operating system.
    pub fn new() -> GlobalRng {
        GlobalRng { inner: small_rng_from_entropy() }
    }

    /// A global source with a fixed seed, for reproducible runs.
    pub fn from_seed(seed: u64) -> GlobalRng {
        GlobalRng { inner: small_rng_from_seed(seed) }
    }

    /// Fork a fresh per-entity stream off this source. The source advances,
    /// so successive forks are seeded from disjoint parts of its output.
    pub fn fork(&mut self) -> EntityRng {
        EntityRng { inner: small_rng_fork(&mut self.inner) }
    }
}

impl EntityRng {
    /// The next raw value of this entity's private stream.
    pub fn next_u64(&mut self) -> u64 {
        small_rng_next_u64(&mut self.inner)
    }

    /// A Bernoulli draw from this entity's private stream: true with
    /// probability `numer / denom`; certain at ratio 0 and at ratio 1.
    pub fn bernoulli(&mut self, numer: u32, denom: u32) -> (r: bool)
        requires
            0 < denom,
            numer <= denom,
        ensures
            numer == denom ==> r,
            numer == 0 ==> !r,
    {
        small_rng_ratio(&mut self.inner, numer, denom)
    }

    /// The next `n` values of this stream, in order drawn.
    pub fn draw(&mut self, n: usize) -> (values: Vec<u64>)
        ensures
            values@.len() == n,
    {
        let mut values: Vec<u64> = Vec::new();
        let mut i: usize = 0;
        while i < n
            invariant
                i <= n,
                values@.len() == i,
            decreases n - i,
        {
            let v: u64 = self.next_u64();
            values.push(v);
            i = i + 1;
        }
        values
    }
}

} // verus!
