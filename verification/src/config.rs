use vstd::prelude::*;

verus! {

/// Named tunables of the simulation core. The decay probability is kept as a
/// rational `decay_numer / decay_denom`; `move_speed_max` and `spawn_extent`
/// are whole-number magnitudes that the surrounding runtime scales into its
/// own coordinate space.
#[derive(Clone, Copy)]
pub struct SimConfig {
    pub population: usize,
    pub palette_buckets: usize,
    pub decay_numer: u32,
    pub decay_denom: u32,
    pub move_speed_max: u32,
    pub spawn_extent: u32,
}

impl SimConfig {
    /// A configuration the core can run with: at least one palette bucket and
    /// a decay probability that is a well-formed ratio in `[0, 1]`.
    pub open spec fn wf(self) -> bool {
        &&& self.palette_buckets >= 1
        &&& 0 < self.decay_denom
        &&& self.decay_numer <= self.decay_denom
    }

    /// The fixed constants of the core: 1000 creatures, 10 health buckets,
    /// a 1-in-10 decay chance, speed cap 5 and spawn extent 1000.
    pub fn standard() -> (c: SimConfig)
        ensures
            c.wf(),
            c.population == 1000,
            c.palette_buckets == 10,
            c.decay_numer == 1,
            c.decay_denom == 10,
            c.move_speed_max == 5,
            c.spawn_extent == 1000,
    {
        SimConfig {
            population: 1000,
            palette_buckets: 10,
            decay_numer: 1,
            decay_denom: 10,
            move_speed_max: 5,
            spawn_extent: 1000,
        }
    }
}

} // verus!
