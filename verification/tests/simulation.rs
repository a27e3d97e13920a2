use creature_sim::config::SimConfig;
use creature_sim::lifecycle::GameState;
use creature_sim::palette::Palette;
use creature_sim::rng::GlobalRng;
use creature_sim::sim::World;
use creature_sim::store::{Creature, EntityStore};
use creature_sim::text::decimal_digits;

fn handles(n: usize) -> Vec<u64> {
    let mut v: Vec<u64> = Vec::new();
    let mut i: usize = 0;
    while i < n {
        v.push(7000 + i as u64);
        i += 1;
    }
    v
}

fn small_config(population: usize, decay_numer: u32, decay_denom: u32) -> SimConfig {
    SimConfig {
        population,
        palette_buckets: 10,
        decay_numer,
        decay_denom,
        move_speed_max: 5,
        spawn_extent: 1000,
    }
}

fn playing_world(population: usize, decay_numer: u32, decay_denom: u32, seed: u64) -> World {
    let cfg = small_config(population, decay_numer, decay_denom);
    let mut world = World::new(cfg, handles(10), GlobalRng::from_seed(seed));
    world.transition_to_playing();
    world
}

#[test]
fn standard_config_constants() {
    let cfg = SimConfig::standard();
    assert_eq!(cfg.population, 1000);
    assert_eq!(cfg.palette_buckets, 10);
    assert_eq!(cfg.decay_numer, 1);
    assert_eq!(cfg.decay_denom, 10);
    assert_eq!(cfg.move_speed_max, 5);
    assert_eq!(cfg.spawn_extent, 1000);
}

#[test]
fn creature_default_full_health() {
    let c = Creature::default();
    assert_eq!(c.health, 100);
}

#[test]
fn game_state_default_is_menu() {
    assert_eq!(GameState::default(), GameState::Menu);
}

#[test]
fn spawned_entities_start_at_full_health_and_full_health_material() {
    let mut world = playing_world(1000, 1, 10, 11);
    assert_eq!(world.live_count(), 1000);
    let full = world.palette_handle(9).unwrap();
    let mut id: usize = 0;
    while id < world.len() {
        assert_eq!(world.health_of(id), Some(100));
        assert_eq!(world.material_of(id), Some(full));
        id += 1;
    }
}

#[test]
fn menu_phase_runs_no_systems() {
    let cfg = small_config(4, 1, 1);
    let mut world = World::new(cfg, handles(10), GlobalRng::from_seed(3));
    assert_eq!(world.state(), GameState::Menu);
    assert_eq!(world.live_count(), 0);
    world.adjust_health();
    assert_eq!(world.live_count(), 0);
    assert_eq!(world.movement_draws(0), None);
}

#[test]
fn transition_twice_spawns_population_once() {
    let mut world = playing_world(5, 1, 10, 21);
    assert_eq!(world.live_count(), 5);
    world.transition_to_playing();
    assert_eq!(world.live_count(), 5);
    assert_eq!(world.state(), GameState::Playing);
}

#[test]
fn certain_decay_decrements_every_creature_each_frame() {
    let mut world = playing_world(5, 1, 1, 31);
    world.adjust_health();
    assert_eq!(world.live_count(), 5);
    let mut id: usize = 0;
    while id < world.len() {
        assert_eq!(world.health_of(id), Some(99));
        assert_eq!(world.material_of(id), world.palette_handle(9));
        id += 1;
    }
}

#[test]
fn certain_decay_kills_everything_after_a_hundred_frames() {
    let mut world = playing_world(4, 1, 1, 41);
    let mut frame: usize = 0;
    while frame < 99 {
        world.adjust_health();
        frame += 1;
    }
    assert_eq!(world.live_count(), 4);
    let mut id: usize = 0;
    while id < world.len() {
        assert_eq!(world.health_of(id), Some(1));
        assert_eq!(world.material_of(id), world.palette_handle(0));
        id += 1;
    }
    world.adjust_health();
    assert_eq!(world.live_count(), 0);
    assert_eq!(world.update_count(), b"0".to_vec());
}

#[test]
fn zero_decay_changes_nothing() {
    let mut world = playing_world(6, 0, 10, 51);
    let mut frame: usize = 0;
    while frame < 25 {
        world.adjust_health();
        frame += 1;
    }
    assert_eq!(world.live_count(), 6);
    let mut id: usize = 0;
    while id < world.len() {
        assert_eq!(world.health_of(id), Some(100));
        id += 1;
    }
}

#[test]
fn scripted_decrements_hit_exactly_the_chosen_creatures() {
    let mut world = playing_world(3, 1, 10, 61);
    let mut id: usize = 0;
    while id < 3 {
        world.set_health(id, 5);
        id += 1;
    }
    let decisions = vec![true, false, true];
    world.adjust_health_with(&decisions);
    assert_eq!(world.health_of(0), Some(4));
    assert_eq!(world.material_of(0), world.palette_handle(0));
    assert_eq!(world.health_of(1), Some(5));
    assert_eq!(world.health_of(2), Some(4));
    assert_eq!(world.live_count(), 3);
    assert_eq!(world.update_count(), b"3".to_vec());
}

#[test]
fn creature_at_one_health_is_despawned_and_leaves_the_count() {
    let mut world = playing_world(2, 1, 10, 71);
    world.set_health(0, 1);
    let decisions = vec![true, false];
    world.adjust_health_with(&decisions);
    assert!(!world.is_live(0));
    assert_eq!(world.health_of(0), None);
    assert_eq!(world.health_of(1), Some(100));
    assert_eq!(world.live_count(), 1);
    assert_eq!(world.update_count(), b"1".to_vec());
}

#[test]
fn movement_draws_only_for_live_creatures_while_playing() {
    let mut world = playing_world(2, 1, 10, 81);
    world.set_health(0, 1);
    world.adjust_health_with(&vec![true, false]);
    assert_eq!(world.movement_draws(0), None);
    assert!(world.movement_draws(1).is_some());
    assert_eq!(world.movement_draws(7), None);
    assert_eq!(world.health_of(1), Some(100));
    assert_eq!(world.live_count(), 1);
}

#[test]
fn material_always_tracks_the_health_bucket() {
    let mut world = playing_world(1, 1, 10, 91);
    let mut h: i32 = 100;
    while h > 0 {
        world.set_health(0, h);
        let bucket = (h as usize) / 10;
        let bucket = if bucket > 9 { 9 } else { bucket };
        assert_eq!(world.material_of(0), world.palette_handle(bucket));
        h -= 1;
    }
}

#[test]
fn palette_lookup_clamps_both_ends() {
    let pal = Palette::new(handles(10));
    assert_eq!(pal.buckets(), 10);
    assert_eq!(pal.material_for(100), 7009);
    assert_eq!(pal.material_for(99), 7009);
    assert_eq!(pal.material_for(55), 7005);
    assert_eq!(pal.material_for(10), 7001);
    assert_eq!(pal.material_for(9), 7000);
    assert_eq!(pal.material_for(1), 7000);
    assert_eq!(pal.material_for(0), 7000);
    assert_eq!(pal.material_for(-5), 7000);
}

#[test]
fn store_applies_deferred_despawns_after_the_pass() {
    let mut store = EntityStore::new();
    assert_eq!(store.live_count(), 0);
    let mut source = GlobalRng::from_seed(5);
    let pal = Palette::new(handles(10));
    store.spawn_bulk(3, &mut source, &pal);
    assert_eq!(store.live_count(), 3);
    store.enqueue_despawn(1);
    assert_eq!(store.live_count(), 3);
    store.apply_despawns();
    assert_eq!(store.live_count(), 2);
    assert!(store.is_live(0));
    assert!(!store.is_live(1));
    assert!(store.is_live(2));
}

#[test]
fn decimal_text_matches_expected_writings() {
    assert_eq!(decimal_digits(0), b"0".to_vec());
    assert_eq!(decimal_digits(7), b"7".to_vec());
    assert_eq!(decimal_digits(10), b"10".to_vec());
    assert_eq!(decimal_digits(123456), b"123456".to_vec());
    assert_eq!(decimal_digits(18446744073709551615), b"18446744073709551615".to_vec());
}
