use vstd::prelude::*;

verus! {

/// The bucket a health value falls in when each bucket is ten points wide:
/// `health / 10`, clamped into `[0, buckets - 1]`.
pub open spec fn bucket_index(health: int, buckets: int) -> int
    recommends
        buckets >= 1,
{
    if health <= 0 {
        0
    } else if health / 10 >= buckets {
        buckets - 1
    } else {
        health / 10
    }
}

/// An ordered set of material handles, one per health bucket. Handles are
/// opaque identifiers minted by the rendering collaborator; the palette is
/// built once at spawn time and read-only afterwards.
pub struct Palette {
    pub handles: Vec<u64>,
}

impl Palette {
    /// A usable palette has at least one bucket, so clamping always lands on
    /// a valid index.
    pub open spec fn wf(self) -> bool {
        self.handles@.len() >= 1
    }

    /// The handle a creature at the given health must display.
    pub open spec fn spec_material(self, health: int) -> u64 {
        self.handles@[bucket_index(health, self.handles@.len() as int)]
    }

    pub fn new(handles: Vec<u64>) -> (p: Palette)
        requires
            handles@.len() >= 1,
        ensures
            p.wf(),
            p.handles@ == handles@,
    {
        Palette { handles }
    }

    pub fn buckets(&self) -> (n: usize)
        ensures
            n == self.handles@.len(),
    {
        self.handles.len()
    }

    /// The material for a health value: `handles[health / 10]`, clamped to a
    /// valid index so that neither dying (`health <= 0`) nor overfull health
    /// can index out of range.
    pub fn material_for(&self, health: i32) -> (m: u64)
        requires
            self.wf(),
        ensures
            m == self.spec_material(health as int),
    {
        let n: usize = self.handles.len();
        let b: usize = if health <= 0 {
            0
        } else {
            (health as usize) / 10
        };
        let idx: usize = if b >= n {
            n - 1
        } else {
            b
        };
        self.handles[idx]
    }
}

} // verus!
