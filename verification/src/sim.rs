use vstd::prelude::*;
use crate::config::SimConfig;
use crate::lifecycle::{count_after_transition, GameState};
use crate::palette::Palette;
use crate::rng::GlobalRng;
use crate::store::{
    entity_ok, fresh_range, lemma_live_count_congruence, live_count_of, spec_decremented,
    spec_health_step, spec_kept, spec_same_core, EntityStore,
};
use crate::text::{decimal_digits, spec_decimal_digits};

verus! {

/// The whole simulation core: the lifecycle state, the entity arena, the
/// material palette, and the global entropy source. Rendering, input and
/// floating-point movement arithmetic live with the caller; the world hands
/// out the per-entity random draws they need.
pub struct World {
    config: SimConfig,
    state: GameState,
    spawned: bool,
    store: EntityStore,
    palette: Palette,
    source: GlobalRng,
}

impl World {
    pub closed spec fn spec_config(self) -> SimConfig {
        self.config
    }

    pub closed spec fn spec_state(self) -> GameState {
        self.state
    }

    pub closed spec fn spec_spawned(self) -> bool {
        self.spawned
    }

    pub closed spec fn spec_store(self) -> EntityStore {
        self.store
    }

    pub closed spec fn spec_palette(self) -> Palette {
        self.palette
    }

    /// A well-kept world: a sane configuration, one palette handle per
    /// configured bucket, and a store whose live entities are all healthy
    /// and wear their bucket's material.
    pub open spec fn wf(self) -> bool {
        &&& self.spec_config().wf()
        &&& self.spec_palette().wf()
        &&& self.spec_palette().handles@.len() == self.spec_config().palette_buckets
        &&& self.spec_store().wf(self.spec_palette())
    }

    /// A fresh world in the menu phase, with no entities spawned yet. The
    /// palette handles come from the rendering collaborator, one per bucket.
    pub fn new(config: SimConfig, palette_handles: Vec<u64>, source: GlobalRng) -> (w: World)
        requires
            config.wf(),
            palette_handles@.len() == config.palette_buckets,
        ensures
            w.wf(),
            w.spec_state() == GameState::Menu,
            !w.spec_spawned(),
            w.spec_store().spec_slots().len() == 0,
            w.spec_store().spec_pending().len() == 0,
            w.spec_config() == config,
            w.spec_palette().handles@ == palette_handles@,
    {
        let palette = Palette::new(palette_handles);
        let store = EntityStore::new();
        World { config, state: GameState::Menu, spawned: false, store, palette, source }
    }

    pub fn state(&self) -> (s: GameState)
        ensures
            s == self.spec_state(),
    {
        self.state
    }

    pub fn config(&self) -> (c: SimConfig)
        ensures
            c == self.spec_config(),
    {
        self.config
    }

    pub fn len(&self) -> (n: usize)
        ensures
            n == self.spec_store().spec_slots().len(),
    {
        self.store.len()
    }

    pub fn is_live(&self, id: usize) -> (b: bool)
        ensures
            b == self.spec_store().spec_live(id as int),
    {
        self.store.is_live(id)
    }

    pub fn health_of(&self, id: usize) -> (h: Option<i32>)
        ensures
            self.spec_store().spec_live(id as int) ==> h == Some(
                self.spec_store().spec_entity(id as int).creature.health,
            ),
            !self.spec_store().spec_live(id as int) ==> h is None,
    {
        self.store.health_of(id)
    }

    pub fn material_of(&self, id: usize) -> (m: Option<u64>)
        ensures
            self.spec_store().spec_live(id as int) ==> m == Some(
                self.spec_store().spec_entity(id as int).material,
            ),
            !self.spec_store().spec_live(id as int) ==> m is None,
    {
        self.store.material_of(id)
    }

    pub fn palette_handle(&self, bucket: usize) -> (h: Option<u64>)
        ensures
            bucket < self.spec_palette().handles@.len() ==> h == Some(
                self.spec_palette().handles@[bucket as int],
            ),
            bucket >= self.spec_palette().handles@.len() ==> h is None,
    {
        if bucket < self.palette.handles.len() {
            Some(self.palette.handles[bucket])
        } else {
            None
        }
    }

    /// The live-entity count, reflecting every despawn already applied.
    pub fn live_count(&self) -> (n: usize)
        ensures
            n == live_count_of(self.spec_store().spec_slots()),
    {
        self.store.live_count()
    }

    /// Enter the playing phase. The first entry — and only the first —
    /// triggers the one-time bulk spawn of the configured population, each
    /// creature at full health, wearing the full-health material, with a
    /// stream forked off the global source.
    pub fn transition_to_playing(&mut self)
        requires
            old(self).wf(),
        ensures
            final(self).wf(),
            final(self).spec_state() == GameState::Playing,
            final(self).spec_spawned(),
            final(self).spec_config() == old(self).spec_config(),
            final(self).spec_palette() == old(self).spec_palette(),
            live_count_of(final(self).spec_store().spec_slots()) == count_after_transition(
                old(self).spec_spawned(),
                live_count_of(old(self).spec_store().spec_slots()),
                old(self).spec_config().population as nat,
            ),
            old(self).spec_spawned() ==> final(self).spec_store() == old(self).spec_store(),
            !old(self).spec_spawned() ==> final(self).spec_store().spec_slots().len()
                == old(self).spec_store().spec_slots().len() + old(self).spec_config().population,
            !old(self).spec_spawned() ==> fresh_range(
                final(self).spec_store(),
                old(self).spec_store().spec_slots().len() as int,
                final(self).spec_store().spec_slots().len() as int,
                old(self).spec_palette(),
            ),
    {
        self.state = GameState::Playing;
        if !self.spawned {
            let n = self.config.population;
            self.store.spawn_bulk(n, &mut self.source, &self.palette);
            self.spawned = true;
            proof {
                assert forall|i: int| #[trigger] self.store.spec_live(i) implies entity_ok(
                    self.store.spec_entity(i),
                    self.palette,
                ) by {
                    if i < old(self).store.spec_slots().len() {
                        assert(old(self).store.spec_live(i));
                    }
                }
            }
        }
    }

    /// The health-adjustment system for one frame. In the menu phase no
    /// system executes and the world is untouched. While playing, every
    /// live entity draws from its own stream and either keeps its health
    /// and material or takes the decrement, with dying entities despawned
    /// before the call returns.
    pub fn adjust_health(&mut self)
        requires
            old(self).wf(),
        ensures
            final(self).wf(),
            final(self).spec_state() == old(self).spec_state(),
            final(self).spec_spawned() == old(self).spec_spawned(),
            final(self).spec_config() == old(self).spec_config(),
            final(self).spec_palette() == old(self).spec_palette(),
            old(self).spec_state() != GameState::Playing ==> final(self).spec_store() == old(self).spec_store(),
            final(self).spec_store().spec_slots().len() == old(self).spec_store().spec_slots().len(),
            final(self).spec_store().spec_pending().len() == 0,
            old(self).spec_state() == GameState::Playing ==> forall|i: int|
                0 <= i < old(self).spec_store().spec_slots().len() ==> (
                match #[trigger] old(self).spec_store().spec_slots()[i] {
                    Option::None => final(self).spec_store().spec_slots()[i] is None,
                    Option::Some(e) => spec_kept(e, final(self).spec_store().spec_slots()[i])
                        || spec_decremented(
                        e,
                        final(self).spec_store().spec_slots()[i],
                        old(self).spec_palette(),
                    ),
                }),
    {
        if self.state == GameState::Playing {
            let numer = self.config.decay_numer;
            let denom = self.config.decay_denom;
            self.store.health_pass(numer, denom, &self.palette);
        }
    }

    /// The health-adjustment pass with the Bernoulli outcomes supplied by
    /// the caller, one per slot: the deterministic core of the system, for
    /// reduced, reproducible scenarios.
    pub fn adjust_health_with(&mut self, decisions: &Vec<bool>)
        requires
            old(self).wf(),
            decisions@.len() == old(self).spec_store().spec_slots().len(),
        ensures
            final(self).wf(),
            final(self).spec_state() == old(self).spec_state(),
            final(self).spec_spawned() == old(self).spec_spawned(),
            final(self).spec_config() == old(self).spec_config(),
            final(self).spec_palette() == old(self).spec_palette(),
            final(self).spec_store().spec_slots().len() == old(self).spec_store().spec_slots().len(),
            final(self).spec_store().spec_pending().len() == 0,
            forall|i: int|
                0 <= i < old(self).spec_store().spec_slots().len() ==> final(self).spec_store().spec_slots()[i] == spec_health_step(
                    old(self).spec_store().spec_slots()[i],
                    decisions@[i],
                    old(self).spec_palette(),
                ),
    {
        self.store.apply_health_decisions(decisions, &self.palette);
    }

    /// The random half of the movement system: two raw draws from one live
    /// entity's private stream while playing, `None` otherwise. Movement
    /// never changes health, material, liveness or the live count.
    pub fn movement_draws(&mut self, id: usize) -> (draws: Option<(u64, u64)>)
        requires
            old(self).wf(),
        ensures
            final(self).wf(),
            final(self).spec_state() == old(self).spec_state(),
            final(self).spec_spawned() == old(self).spec_spawned(),
            final(self).spec_config() == old(self).spec_config(),
            final(self).spec_palette() == old(self).spec_palette(),
            final(self).spec_store().spec_slots().len() == old(self).spec_store().spec_slots().len(),
            forall|j: int|
                0 <= j < old(self).spec_store().spec_slots().len() && j != id ==> final(self).spec_store().spec_slots()[j] == old(self).spec_store().spec_slots()[j],
            forall|j: int|
                0 <= j < old(self).spec_store().spec_slots().len() ==> spec_same_core(
                    final(self).spec_store().spec_slots()[j],
                    old(self).spec_store().spec_slots()[j],
                ),
            live_count_of(final(self).spec_store().spec_slots()) == live_count_of(
                old(self).spec_store().spec_slots(),
            ),
            draws is Some <==> (old(self).spec_state() == GameState::Playing && old(self).spec_store().spec_live(id as int)),
    {
        let draws: Option<(u64, u64)> = if self.state == GameState::Playing {
            self.store.draw_pair(id)
        } else {
            None
        };
        proof {
            assert forall|i: int| #[trigger] self.store.spec_live(i) implies entity_ok(
                self.store.spec_entity(i),
                self.palette,
            ) by {
                assert(spec_same_core(
                    self.store.spec_slots()[i],
                    old(self).store.spec_slots()[i],
                ));
                assert(old(self).store.spec_live(i));
                assert(entity_ok(old(self).store.spec_entity(i), self.palette));
            }
            lemma_live_count_congruence(
                self.store.spec_slots(),
                old(self).store.spec_slots(),
            );
        }
        draws
    }

    /// Rescale one live entity's health for a reduced test scenario; the
    /// material follows the new bucket, and the live count is unchanged.
    pub fn set_health(&mut self, id: usize, health: i32)
        requires
            old(self).wf(),
            0 < health <= 100,
        ensures
            final(self).wf(),
            final(self).spec_state() == old(self).spec_state(),
            final(self).spec_spawned() == old(self).spec_spawned(),
            final(self).spec_config() == old(self).spec_config(),
            final(self).spec_palette() == old(self).spec_palette(),
            final(self).spec_store().spec_slots().len() == old(self).spec_store().spec_slots().len(),
            forall|i: int|
                0 <= i < old(self).spec_store().spec_slots().len() && i != id ==> final(self).spec_store().spec_slots()[i] == old(self).spec_store().spec_slots()[i],
            old(self).spec_store().spec_live(id as int) ==> {
                &&& final(self).spec_store().spec_live(id as int)
                &&& final(self).spec_store().spec_entity(id as int).creature.health == health
                &&& final(self).spec_store().spec_entity(id as int).material == old(self).spec_palette().spec_material(health as int)
            },
            !old(self).spec_store().spec_live(id as int) ==> final(self).spec_store().spec_slots()
                == old(self).spec_store().spec_slots(),
            live_count_of(final(self).spec_store().spec_slots()) == live_count_of(
                old(self).spec_store().spec_slots(),
            ),
    {
        self.store.set_health(id, health, &self.palette);
        proof {
            assert forall|i: int| #[trigger] self.store.spec_live(i) implies entity_ok(
                self.store.spec_entity(i),
                self.palette,
            ) by {
                assert(old(self).store.spec_live(i));
                if i != id {
                    assert(self.store.spec_slots()[i] == old(self).store.spec_slots()[i]);
                }
            }
            assert forall|j: int|
                0 <= j < self.store.spec_slots().len() implies (self.store.spec_slots()[j] is Some
                <==> old(self).store.spec_slots()[j] is Some) by {
                if j != id {
                    assert(self.store.spec_slots()[j] == old(self).store.spec_slots()[j]);
                }
            }
            lemma_live_count_congruence(
                self.store.spec_slots(),
                old(self).store.spec_slots(),
            );
        }
    }

    /// The count-aggregation system: the live count, already reflecting this
    /// frame's despawns, rendered as the decimal text the display sink shows.
    pub fn update_count(&self) -> (text: Vec<u8>)
        ensures
            text@ == spec_decimal_digits(live_count_of(self.spec_store().spec_slots())),
    {
        let count = self.store.live_count();
        decimal_digits(count as u64)
    }
}

} // verus!
