use vstd::prelude::*;
use crate::palette::Palette;
use crate::rng::{EntityRng, GlobalRng};

verus! {

/// The health component of one simulated organism. Health starts at 100;
/// the organism is removed once it reaches 0.
pub struct Creature {
    pub health: i32,
}

impl Default for Creature {
    fn default() -> (c: Self)
        ensures
            c.health == 100,
    {
        Creature { health: 100 }
    }
}

/// One stored entity: its health component, the material handle it displays,
/// and its private random stream.
pub struct SimEntity {
    pub creature: Creature,
    pub material: u64,
    pub rng: EntityRng,
}

/// A live entity in a well-kept store: health within `(0, 100]` and the
/// material of its health bucket.
pub open spec fn entity_ok(e: SimEntity, pal: Palette) -> bool {
    &&& 0 < e.creature.health <= 100
    &&& e.material == pal.spec_material(e.creature.health as int)
}

/// How many of the slots hold a live entity.
pub open spec fn live_count_of(s: Seq<Option<SimEntity>>) -> nat
    decreases s.len(),
{
    if s.len() == 0 {
        0
    } else {
        live_count_of(s.drop_last()) + (if s.last() is Some {
            1nat
        } else {
            0nat
        })
    }
}

proof fn lemma_live_count_push(s: Seq<Option<SimEntity>>, e: Option<SimEntity>)
    ensures
        live_count_of(s.push(e)) == live_count_of(s) + (if e is Some {
            1nat
        } else {
            0nat
        }),
{
    assert(s.push(e).drop_last() =~= s);
}

proof fn lemma_live_count_take_step(s: Seq<Option<SimEntity>>, i: int)
    requires
        0 <= i < s.len(),
    ensures
        live_count_of(s.take(i + 1)) == live_count_of(s.take(i)) + (if s[i] is Some {
            1nat
        } else {
            0nat
        }),
{
    assert(s.take(i + 1).drop_last() =~= s.take(i));
    assert(s.take(i + 1).last() == s[i]);
}

/// Slots `lo..hi` of the store all hold freshly spawned entities: live, at
/// full health, wearing the full-health material.
pub open spec fn fresh_range(st: EntityStore, lo: int, hi: int, pal: Palette) -> bool {
    forall|i: int|
        lo <= i < hi ==> (#[trigger] st.spec_live(i) && st.spec_entity(i).creature.health == 100
            && st.spec_entity(i).material == pal.spec_material(100))
}

/// The live count only depends on which slots are filled, not on what the
/// entities hold.
pub proof fn lemma_live_count_congruence(a: Seq<Option<SimEntity>>, b: Seq<Option<SimEntity>>)
    requires
        a.len() == b.len(),
        forall|j: int| 0 <= j < a.len() ==> (a[j] is Some <==> b[j] is Some),
    ensures
        live_count_of(a) == live_count_of(b),
    decreases a.len(),
{
    if a.len() > 0 {
        lemma_live_count_congruence(a.drop_last(), b.drop_last());
    }
}

/// Whether slot `i` is named in a despawn queue.
pub open spec fn spec_despawned(pending: Seq<usize>, i: int) -> bool {
    exists|k: int| 0 <= k < pending.len() && pending[k] == i
}

/// The in-pass effect of one health decision on one slot. On a decrement the
/// health drops by one and the material is updated to the new bucket even
/// when the entity is about to die; without a decrement the slot is
/// untouched. The despawn itself is deferred, so the slot stays filled here.
pub open spec fn spec_in_pass(s: Option<SimEntity>, dec: bool, pal: Palette) -> Option<SimEntity> {
    match s {
        Option::None => Option::None,
        Option::Some(e) => if !dec {
            Option::Some(e)
        } else {
            Option::Some(
                SimEntity {
                    creature: Creature { health: (e.creature.health - 1) as i32 },
                    material: pal.spec_material(e.creature.health - 1),
                    rng: e.rng,
                },
            )
        },
    }
}

/// Whether this decision brings the slot's entity to zero health, so the
/// pass must request its despawn.
pub open spec fn spec_dies(s: Option<SimEntity>, dec: bool) -> bool {
    s is Some && dec && s->Some_0.creature.health - 1 <= 0
}

/// The net effect of one health decision on one slot once the deferred
/// despawns have been applied: a dying entity is gone, everything else is
/// the in-pass result.
pub open spec fn spec_health_step(s: Option<SimEntity>, dec: bool, pal: Palette) -> Option<
    SimEntity,
> {
    if spec_dies(s, dec) {
        Option::None
    } else {
        spec_in_pass(s, dec, pal)
    }
}

/// Two slots agree on liveness, health and material; only the random
/// stream may differ between them.
pub open spec fn spec_same_core(a: Option<SimEntity>, b: Option<SimEntity>) -> bool {
    &&& (a is Some <==> b is Some)
    &&& (a is Some ==> a->Some_0.creature.health == b->Some_0.creature.health)
    &&& (a is Some ==> a->Some_0.material == b->Some_0.material)
}

/// The slot kept the entity's health and material this frame; only its
/// random stream may have advanced.
pub open spec fn spec_kept(e: SimEntity, s: Option<SimEntity>) -> bool {
    &&& s is Some
    &&& s->Some_0.creature.health == e.creature.health
    &&& s->Some_0.material == e.material
}

/// The slot took the decrement this frame: the entity is gone if one less
/// point of health kills it, and otherwise carries one less point and the
/// material of its new bucket.
pub open spec fn spec_decremented(e: SimEntity, s: Option<SimEntity>, pal: Palette) -> bool {
    if e.creature.health - 1 <= 0 {
        s is None
    } else {
        &&& s is Some
        &&& s->Some_0.creature.health == e.creature.health - 1
        &&& s->Some_0.material == pal.spec_material(e.creature.health - 1)
    }
}

/// The entity arena: a growable sequence of slots, plus the queue of
/// deferred despawn requests raised during a pass and applied after it.
pub struct EntityStore {
    slots: Vec<Option<SimEntity>>,
    pending: Vec<usize>,
}

impl EntityStore {
    pub closed spec fn spec_slots(self) -> Seq<Option<SimEntity>> {
        self.slots@
    }

    pub closed spec fn spec_pending(self) -> Seq<usize> {
        self.pending@
    }

    /// Slot `i` holds a live entity.
    pub open spec fn spec_live(self, i: int) -> bool {
        0 <= i < self.spec_slots().len() && self.spec_slots()[i] is Some
    }

    /// The entity in live slot `i`.
    pub open spec fn spec_entity(self, i: int) -> SimEntity
        recommends
            self.spec_live(i),
    {
        self.spec_slots()[i]->Some_0
    }

    /// A well-kept store between passes: no despawn request is outstanding
    /// and every live entity is healthy and wears its bucket's material.
    pub open spec fn wf(self, pal: Palette) -> bool {
        &&& self.spec_pending().len() == 0
        &&& forall|i: int| #[trigger] self.spec_live(i) ==> entity_ok(self.spec_entity(i), pal)
    }

    pub fn new() -> (s: EntityStore)
        ensures
            s.spec_slots().len() == 0,
            s.spec_pending().len() == 0,
    {
        EntityStore { slots: Vec::new(), pending: Vec::new() }
    }

    pub fn len(&self) -> (n: usize)
        ensures
            n == self.spec_slots().len(),
    {
        self.slots.len()
    }

    pub fn is_live(&self, i: usize) -> (b: bool)
        ensures
            b == self.spec_live(i as int),
    {
        i < self.slots.len() && self.slots[i].is_some()
    }

    pub fn health_of(&self, i: usize) -> (h: Option<i32>)
        ensures
            self.spec_live(i as int) ==> h == Some(self.spec_entity(i as int).creature.health),
            !self.spec_live(i as int) ==> h is None,
    {
        if i < self.slots.len() {
            match &self.slots[i] {
                Some(e) => Some(e.creature.health),
                None => None,
            }
        } else {
            None
        }
    }

    pub fn material_of(&self, i: usize) -> (m: Option<u64>)
        ensures
            self.spec_live(i as int) ==> m == Some(self.spec_entity(i as int).material),
            !self.spec_live(i as int) ==> m is None,
    {
        if i < self.slots.len() {
            match &self.slots[i] {
                Some(e) => Some(e.material),
                None => None,
            }
        } else {
            None
        }
    }

    /// Bulk creation: `n` fresh entities, each at full health, wearing the
    /// full-health material, with a stream forked off the global source.
    pub fn spawn_bulk(&mut self, n: usize, source: &mut GlobalRng, pal: &Palette)
        requires
            pal.wf(),
        ensures
            final(self).spec_slots().len() == old(self).spec_slots().len() + n,
            forall|i: int|
                0 <= i < old(self).spec_slots().len() ==> final(self).spec_slots()[i] == old(
                    self,
                ).spec_slots()[i],
            fresh_range(
                *final(self),
                old(self).spec_slots().len() as int,
                final(self).spec_slots().len() as int,
                *pal,
            ),
            final(self).spec_pending() == old(self).spec_pending(),
            live_count_of(final(self).spec_slots()) == live_count_of(old(self).spec_slots()) + n,
    {
        let mut k: usize = 0;
        while k < n
            invariant
                k <= n,
                pal.wf(),
                self.slots@.len() == old(self).slots@.len() + k,
                forall|i: int| 0 <= i < old(self).slots@.len() ==> self.slots@[i] == old(self).slots@[i],
                forall|i: int|
                    old(self).slots@.len() <= i < self.slots@.len() ==> (self.slots@[i] is Some
                        && self.slots@[i]->Some_0.creature.health == 100
                        && self.slots@[i]->Some_0.material == pal.spec_material(100)),
                self.pending@ == old(self).pending@,
                live_count_of(self.slots@) == live_count_of(old(self).slots@) + k,
            decreases n - k,
        {
            let creature = Creature::default();
            let material = pal.material_for(creature.health);
            let stream = source.fork();
            let entity = SimEntity { creature, material, rng: stream };
            let ghost before = self.slots@;
            let ghost fresh = entity;
            self.slots.push(Some(entity));
            proof {
                lemma_live_count_push(before, Some(fresh));
            }
            k = k + 1;
        }
    }

    /// Thread off a deferred removal request; the store itself is untouched
    /// until the requests are applied.
    pub fn enqueue_despawn(&mut self, id: usize)
        ensures
            final(self).spec_pending() == old(self).spec_pending().push(id),
            final(self).spec_slots() == old(self).spec_slots(),
    {
        self.pending.push(id);
    }

    /// Drain the despawn queue: every queued slot is emptied, everything
    /// else is untouched, and the queue is left empty.
    pub fn apply_despawns(&mut self)
        ensures
            final(self).spec_pending().len() == 0,
            final(self).spec_slots().len() == old(self).spec_slots().len(),
            forall|i: int|
                0 <= i < old(self).spec_slots().len() ==> final(self).spec_slots()[i] == (
                if spec_despawned(old(self).spec_pending(), i) {
                    None::<SimEntity>
                } else {
                    old(self).spec_slots()[i]
                }),
    {
        let m = self.pending.len();
        let mut j: usize = 0;
        while j < m
            invariant
                j <= m,
                m == old(self).pending@.len(),
                self.pending@ == old(self).pending@,
                self.slots@.len() == old(self).slots@.len(),
                forall|i: int|
                    0 <= i < self.slots@.len() ==> self.slots@[i] == (if spec_despawned(
                        old(self).pending@.take(j as int),
                        i,
                    ) {
                        None::<SimEntity>
                    } else {
                        old(self).slots@[i]
                    }),
            decreases m - j,
        {
            let id = self.pending[j];
            if id < self.slots.len() {
                self.slots[id] = None;
            }
            proof {
                let taken = old(self).pending@.take(j as int);
                let taken1 = old(self).pending@.take(j + 1 as int);
                assert(taken1 =~= taken.push(id));
                assert forall|i: int| 0 <= i < self.slots@.len() implies self.slots@[i] == (
                if spec_despawned(taken1, i) {
                    None::<SimEntity>
                } else {
                    old(self).slots@[i]
                }) by {
                    if spec_despawned(taken1, i) {
                        let w = choose|k: int| 0 <= k < taken1.len() && taken1[k] == i;
                        if w < taken.len() {
                            assert(spec_despawned(taken, i));
                        } else {
                            assert(taken1[w] == id);
                        }
                    } else {
                        assert(!spec_despawned(taken, i)) by {
                            if spec_despawned(taken, i) {
                                let w = choose|k: int| 0 <= k < taken.len() && taken[k] == i;
                                assert(taken1[w] == i);
                            }
                        }
                        assert(taken1[taken.len() as int] == id);
                        assert(i != id);
                    }
                }
            }
            j = j + 1;
        }
        proof {
            assert(old(self).pending@.take(m as int) =~= old(self).pending@);
        }
        self.pending = Vec::new();
    }

    /// One health-adjustment pass over the whole store, with the Bernoulli
    /// outcomes already drawn: slot `i` takes decision `decisions[i]`, dying
    /// entities are queued for despawn during the pass, and the queue is
    /// drained before the call returns.
    pub fn apply_health_decisions(&mut self, decisions: &Vec<bool>, pal: &Palette)
        requires
            pal.wf(),
            old(self).wf(*pal),
            decisions@.len() == old(self).spec_slots().len(),
        ensures
            final(self).spec_slots().len() == old(self).spec_slots().len(),
            final(self).spec_pending().len() == 0,
            forall|i: int|
                0 <= i < old(self).spec_slots().len() ==> final(self).spec_slots()[i]
                    == spec_health_step(old(self).spec_slots()[i], decisions@[i], *pal),
            final(self).wf(*pal),
    {
        let n = self.slots.len();
        let mut i: usize = 0;
        while i < n
            invariant
                i <= n,
                n == old(self).slots@.len(),
                self.slots@.len() == n,
                decisions@.len() == n,
                pal.wf(),
                old(self).wf(*pal),
                forall|j: int| i <= j < n ==> self.slots@[j] == old(self).slots@[j],
                forall|j: int|
                    0 <= j < i ==> self.slots@[j] == spec_in_pass(
                        old(self).slots@[j],
                        decisions@[j],
                        *pal,
                    ),
                forall|k: int|
                    0 <= k < self.pending@.len() ==> (self.pending@[k] < i && spec_dies(
                        old(self).slots@[self.pending@[k] as int],
                        decisions@[self.pending@[k] as int],
                    )),
                forall|j: int|
                    0 <= j < i && spec_dies(old(self).slots@[j], decisions@[j]) ==> spec_despawned(
                        self.pending@,
                        j,
                    ),
            decreases n - i,
        {
            let dec = decisions[i];
            let mut dying: bool = false;
            proof {
                let ghost live_before = old(self).spec_live(i as int);
                if live_before {
                    assert(entity_ok(old(self).spec_entity(i as int), *pal));
                }
            }
            if dec {
                let slot = &mut self.slots[i];
                match slot {
                    Some(e) => {
                        e.creature.health = e.creature.health - 1;
                        e.material = pal.material_for(e.creature.health);
                        if e.creature.health <= 0 {
                            dying = true;
                        }
                    },
                    None => {},
                }
                proof {
                    assert(self.slots@[i as int] == spec_in_pass(
                        old(self).slots@[i as int],
                        decisions@[i as int],
                        *pal,
                    ));
                }
            }
            let ghost pend_before = self.pending@;
            if dying {
                self.enqueue_despawn(i);
                proof {
                    assert(self.pending@[pend_before.len() as int] == i);
                    assert(spec_despawned(self.pending@, i as int));
                    assert forall|j: int| spec_despawned(pend_before, j) implies spec_despawned(
                        self.pending@,
                        j,
                    ) by {
                        let k = choose|k: int| 0 <= k < pend_before.len() && pend_before[k] == j;
                        assert(self.pending@[k] == j);
                    }
                }
            }
            proof {
                assert(dying == spec_dies(old(self).slots@[i as int], decisions@[i as int]));
                assert forall|j: int|
                    0 <= j < i + 1 && spec_dies(
                        old(self).slots@[j],
                        decisions@[j],
                    ) implies spec_despawned(self.pending@, j) by {
                    if j == i as int {
                        assert(spec_despawned(self.pending@, j));
                    } else {
                        assert(spec_despawned(pend_before, j));
                        let k = choose|k: int| 0 <= k < pend_before.len() && pend_before[k] == j;
                        if dying {
                            assert(self.pending@[k] == j);
                        } else {
                            assert(self.pending@ == pend_before);
                        }
                    }
                }
            }
            i = i + 1;
        }
        let ghost mid = *self;
        self.apply_despawns();
        proof {
            assert forall|i: int| 0 <= i < old(self).slots@.len() implies self.slots@[i]
                == spec_health_step(old(self).slots@[i], decisions@[i], *pal) by {
                if spec_despawned(mid.pending@, i) {
                    let k = choose|k: int| 0 <= k < mid.pending@.len() && mid.pending@[k] == i;
                    assert(spec_dies(old(self).slots@[i], decisions@[i]));
                } else {
                    assert(!spec_dies(old(self).slots@[i], decisions@[i]));
                }
            }
            assert forall|i: int| #[trigger] self.spec_live(i) implies entity_ok(
                self.spec_entity(i),
                *pal,
            ) by {
                let ghost live_before = old(self).spec_live(i);
                if live_before {
                    assert(entity_ok(old(self).spec_entity(i), *pal));
                }
                assert(self.slots@[i] == spec_health_step(
                    old(self).slots@[i],
                    decisions@[i],
                    *pal,
                ));
            }
        }
    }

    /// One full health-adjustment frame: every live entity draws a Bernoulli
    /// outcome with probability `decay_numer / decay_denom` from its own
    /// private stream, the drawn decisions are applied, and the deferred
    /// despawns are drained. Every slot either keeps health and material or
    /// takes the decremented step; at ratio 0 every slot keeps, at ratio 1
    /// every live slot decrements.
    pub fn health_pass(&mut self, decay_numer: u32, decay_denom: u32, pal: &Palette)
        requires
            0 < decay_denom,
            decay_numer <= decay_denom,
            pal.wf(),
            old(self).wf(*pal),
        ensures
            final(self).spec_slots().len() == old(self).spec_slots().len(),
            final(self).spec_pending().len() == 0,
            final(self).wf(*pal),
            forall|i: int|
                0 <= i < old(self).spec_slots().len() ==> (match #[trigger] old(self).spec_slots()[i] {
                    Option::None => final(self).spec_slots()[i] is None,
                    Option::Some(e) => spec_kept(e, final(self).spec_slots()[i])
                        || spec_decremented(e, final(self).spec_slots()[i], *pal),
                }),
            decay_numer == 0 ==> forall|i: int|
                0 <= i < old(self).spec_slots().len() && old(self).spec_slots()[i] is Some
                    ==> spec_kept(
                    old(self).spec_slots()[i]->Some_0,
                    #[trigger] final(self).spec_slots()[i],
                ),
            decay_numer == decay_denom ==> forall|i: int|
                0 <= i < old(self).spec_slots().len() && old(self).spec_slots()[i] is Some
                    ==> spec_decremented(
                    old(self).spec_slots()[i]->Some_0,
                    #[trigger] final(self).spec_slots()[i],
                    *pal,
                ),
    {
        let n = self.slots.len();
        let mut decisions: Vec<bool> = Vec::new();
        let mut i: usize = 0;
        while i < n
            invariant
                i <= n,
                n == old(self).slots@.len(),
                self.slots@.len() == n,
                decisions@.len() == i,
                0 < decay_denom,
                decay_numer <= decay_denom,
                self.pending@ == old(self).pending@,
                forall|j: int|
                    0 <= j < n ==> spec_same_core(self.slots@[j], old(self).slots@[j]),
                forall|j: int| 0 <= j < i && decay_numer == 0 ==> !decisions@[j],
                forall|j: int|
                    0 <= j < i && decay_numer == decay_denom && old(self).slots@[j] is Some
                        ==> decisions@[j],
            decreases n - i,
        {
            let mut dec: bool = false;
            let slot = &mut self.slots[i];
            match slot {
                Some(e) => {
                    dec = e.rng.bernoulli(decay_numer, decay_denom);
                },
                None => {},
            }
            decisions.push(dec);
            i = i + 1;
        }
        let ghost mid = *self;
        proof {
            assert forall|i: int| #[trigger] mid.spec_live(i) implies entity_ok(
                mid.spec_entity(i),
                *pal,
            ) by {
                assert(spec_same_core(mid.slots@[i], old(self).slots@[i]));
                assert(old(self).spec_live(i));
                assert(entity_ok(old(self).spec_entity(i), *pal));
            }
        }
        self.apply_health_decisions(&decisions, pal);
        proof {
            assert forall|i: int| 0 <= i < old(self).slots@.len() implies (match #[trigger] old(self).slots@[i] {
                Option::None => self.slots@[i] is None,
                Option::Some(e) => spec_kept(e, self.slots@[i]) || spec_decremented(
                    e,
                    self.slots@[i],
                    *pal,
                ),
            }) by {
                assert(spec_same_core(mid.slots@[i], old(self).slots@[i]));
                assert(self.slots@[i] == spec_health_step(mid.slots@[i], decisions@[i], *pal));
            }
            if decay_numer == 0 {
                assert forall|i: int|
                    0 <= i < old(self).slots@.len() && old(self).slots@[i] is Some implies spec_kept(
                    old(self).slots@[i]->Some_0,
                    #[trigger] self.slots@[i],
                ) by {
                    assert(spec_same_core(mid.slots@[i], old(self).slots@[i]));
                    assert(!decisions@[i]);
                    assert(self.slots@[i] == spec_health_step(mid.slots@[i], decisions@[i], *pal));
                }
            }
            if decay_numer == decay_denom {
                assert forall|i: int|
                    0 <= i < old(self).slots@.len() && old(
                        self,
                    ).slots@[i] is Some implies spec_decremented(
                    old(self).slots@[i]->Some_0,
                    #[trigger] self.slots@[i],
                    *pal,
                ) by {
                    assert(spec_same_core(mid.slots@[i], old(self).slots@[i]));
                    assert(decisions@[i]);
                    assert(self.slots@[i] == spec_health_step(mid.slots@[i], decisions@[i], *pal));
                }
            }
        }
    }

    /// Two raw draws from one live entity's private stream, for the caller's
    /// movement step. Nothing but that entity's stream is touched: health,
    /// material and liveness of every slot stay as they were.
    pub fn draw_pair(&mut self, id: usize) -> (draws: Option<(u64, u64)>)
        ensures
            final(self).spec_pending() == old(self).spec_pending(),
            final(self).spec_slots().len() == old(self).spec_slots().len(),
            forall|j: int|
                0 <= j < old(self).spec_slots().len() && j != id ==> final(self).spec_slots()[j]
                    == old(self).spec_slots()[j],
            forall|j: int|
                0 <= j < old(self).spec_slots().len() ==> spec_same_core(
                    final(self).spec_slots()[j],
                    old(self).spec_slots()[j],
                ),
            draws is Some <==> old(self).spec_live(id as int),
    {
        if id < self.slots.len() {
            let slot = &mut self.slots[id];
            match slot {
                Some(e) => {
                    let a = e.rng.next_u64();
                    let b = e.rng.next_u64();
                    Some((a, b))
                },
                None => None,
            }
        } else {
            None
        }
    }

    /// Rescale one live entity's health, keeping its material on the bucket
    /// of the new value; meant for reduced test scenarios. A dead or missing
    /// slot is left as it is.
    pub fn set_health(&mut self, id: usize, health: i32, pal: &Palette)
        requires
            pal.wf(),
            0 < health <= 100,
        ensures
            final(self).spec_slots().len() == old(self).spec_slots().len(),
            final(self).spec_pending() == old(self).spec_pending(),
            forall|i: int|
                0 <= i < old(self).spec_slots().len() && i != id ==> final(self).spec_slots()[i]
                    == old(self).spec_slots()[i],
            old(self).spec_live(id as int) ==> {
                &&& final(self).spec_live(id as int)
                &&& final(self).spec_entity(id as int).creature.health == health
                &&& final(self).spec_entity(id as int).material == pal.spec_material(health as int)
                &&& final(self).spec_entity(id as int).rng == old(self).spec_entity(id as int).rng
            },
            !old(self).spec_live(id as int) ==> final(self).spec_slots() == old(self).spec_slots(),
    {
        if id < self.slots.len() {
            let slot = &mut self.slots[id];
            match slot {
                Some(e) => {
                    e.creature.health = health;
                    e.material = pal.material_for(health);
                },
                None => {},
            }
            proof {
                if !old(self).spec_live(id as int) {
                    assert(self.slots@ =~= old(self).slots@);
                }
            }
        }
    }

    /// The number of live entities, read sequentially; it reflects every
    /// despawn already applied.
    pub fn live_count(&self) -> (count: usize)
        ensures
            count == live_count_of(self.spec_slots()),
    {
        let len = self.slots.len();
        let mut count: usize = 0;
        let mut i: usize = 0;
        while i < len
            invariant
                i <= len,
                len == self.slots@.len(),
                count <= i,
                count == live_count_of(self.slots@.take(i as int)),
            decreases len - i,
        {
            proof {
                lemma_live_count_take_step(self.slots@, i as int);
            }
            if self.slots[i].is_some() {
                count = count + 1;
            }
            i = i + 1;
        }
        proof {
            assert(self.slots@.take(len as int) =~= self.slots@);
        }
        count
    }
}

} // verus!
