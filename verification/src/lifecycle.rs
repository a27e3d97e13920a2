use vstd::prelude::*;

verus! {

/// The two phases of the application. Simulation systems run only while
/// `Playing`; the initial phase is `Menu`.
#[derive(PartialEq, Eq, Structural, Clone, Copy, Debug)]
pub enum GameState {
    Playing,
    Menu,
}

impl Default for GameState {
    fn default() -> (s: Self)
        ensures
            s == GameState::Menu,
    {
        GameState::Menu
    }
}

/// Whether a transition into `Playing` triggers the one-time bulk spawn:
/// only when it has not been triggered before.
pub open spec fn spawn_triggered(already_spawned: bool) -> bool {
    !already_spawned
}

/// The live-entity count after a transition into `Playing`: the bulk spawn
/// adds `population` entities the first time and nothing afterwards.
pub open spec fn count_after_transition(already_spawned: bool, count: nat, population: nat) -> nat {
    if spawn_triggered(already_spawned) {
        count + population
    } else {
        count
    }
}

/// Entering `Playing` twice spawns the population exactly once: the second
/// transition finds the spawn flag set and leaves the count unchanged.
pub proof fn lemma_no_double_spawn(count: nat, population: nat)
    ensures
        count_after_transition(true, count_after_transition(false, count, population), population)
            == count + population,
{
}

} // verus!
