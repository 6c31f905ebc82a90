use dogchick::creature::{Creature, CreatureKind};
use dogchick::fixed::Vec2;
use dogchick::looker::{Looker, LookerLocation, LookerState};
use dogchick::planner::{MouseProj, Wolf};
use dogchick::steering::{AiResult, CollisionAvoid, Speed};
use dogchick::wander::{outside, Wander};

const CR_ZERO: Vec2 = Vec2 { x: 0, y: 0 };

fn cr_looker(state: LookerState, location: LookerLocation) -> Looker {
    Looker {
        spawn_point: Vec2 { x: 500_000, y: -900_000 },
        spawn_door: Vec2 { x: 500_000, y: -650_000 },
        state,
        location,
    }
}

fn cr_creature(kind: CreatureKind, position: Vec2) -> Creature {
    Creature {
        id: 7,
        kind,
        position,
        speed: Speed(0),
        ai: AiResult { target_speed: 10_000, target_dir: CR_ZERO },
        avoid: CollisionAvoid { getaway: CR_ZERO },
        wander: Wander { randobjective: None, confined_within: outside() },
        merge_pending: false,
    }
}

#[test]
fn happy_creature_outside_turns_to_a_pointer_fifty_units_away() {
    let dog = cr_creature(
        CreatureKind::Dog(cr_looker(LookerState::Happy, LookerLocation::Outside)),
        CR_ZERO,
    );
    let pointer = MouseProj(Vec2 { x: 50_000, y: 0 });
    let next = dog.looker_tick(0, 16_667, pointer, Vec2 { x: 3, y: 4 });
    assert_eq!(next.ai.target_dir, Vec2 { x: 1000, y: 0 });
    let speed_cap: i32 = 150_000;
    let k_times_distance_squared: i64 = 800 * 2500;
    assert_eq!(next.ai.target_speed as i64, k_times_distance_squared.min(speed_cap as i64));
    assert_eq!(next.ai.target_speed, speed_cap);
    assert_eq!(next.position, CR_ZERO);
    assert_eq!(next.speed, Speed(1_666));
    assert_eq!(next.kind, dog.kind);
    let after = next.looker_tick(16_667, 16_667, pointer, Vec2 { x: 3, y: 4 });
    assert_eq!(after.position, Vec2 { x: 27, y: 0 });
    assert_eq!(after.speed, Speed(3_332));
}

#[test]
fn looker_tick_moves_along_direction_jitter_and_push() {
    let mut hen = cr_creature(
        CreatureKind::Chicken(cr_looker(LookerState::HappyInside, LookerLocation::Outside)),
        Vec2 { x: 500_000, y: 0 },
    );
    hen.speed = Speed(40_000);
    hen.avoid = CollisionAvoid { getaway: Vec2 { x: 2_000, y: 500 } };
    let next = hen.looker_tick(0, 100_000, MouseProj(CR_ZERO), Vec2 { x: 10, y: 90 });
    assert_eq!(next.ai, AiResult { target_speed: 50_000, target_dir: Vec2 { x: 0, y: -1000 } });
    assert_eq!(next.position, Vec2 { x: 500_000 + 8_040, y: -1_640 });
    assert_eq!(next.speed, Speed(50_000));
    assert_eq!(next.avoid, hen.avoid);
    assert_eq!(next.wander, hen.wander);
    assert_eq!(next.id, 7);
    assert!(!next.merge_pending);
}

#[test]
fn looker_tick_lets_a_fright_run_out_and_crosses_the_door() {
    let scared = cr_looker(LookerState::Scared { until: 1_000 }, LookerLocation::Inside);
    let dog = cr_creature(CreatureKind::Dog(scared), Vec2 { x: 500_000, y: -655_000 });
    let next = dog.looker_tick(999, 0, MouseProj(CR_ZERO), CR_ZERO);
    assert_eq!(next.kind.looker().unwrap().state, LookerState::Scared { until: 1_000 });
    assert_eq!(next.kind.looker().unwrap().location, LookerLocation::Inside);
    assert_eq!(next.ai.target_dir, Vec2 { x: 0, y: -1000 });
    let next = dog.looker_tick(1_000, 0, MouseProj(CR_ZERO), CR_ZERO);
    assert_eq!(next.kind.looker().unwrap().state, LookerState::Happy);
    assert_eq!(next.kind.looker().unwrap().location, LookerLocation::Outside);
    assert_eq!(next.ai.target_dir, Vec2 { x: 0, y: 1000 });
    assert_eq!(next.ai.target_speed, 20_000);
}

#[test]
fn looker_tick_leaves_wolves_and_chosen_creatures_alone() {
    let wolf = cr_creature(CreatureKind::Wolf(Wolf { tired_until: 0 }), CR_ZERO);
    assert_eq!(wolf.looker_tick(5, 16_667, MouseProj(CR_ZERO), CR_ZERO), wolf);
    let mut dog = cr_creature(
        CreatureKind::Dog(cr_looker(LookerState::Scared { until: 1 }, LookerLocation::Outside)),
        CR_ZERO,
    );
    dog.merge_pending = true;
    dog.speed = Speed(9_000);
    assert_eq!(dog.looker_tick(5, 16_667, MouseProj(CR_ZERO), Vec2 { x: 99, y: 99 }), dog);
}

#[test]
fn wolf_tick_hunts_and_moves() {
    let mut wolf = cr_creature(CreatureKind::Wolf(Wolf { tired_until: 0 }), Vec2 { x: 0, y: 300_000 });
    wolf.speed = Speed(20_000);
    let prey = Vec2 { x: 300_000, y: -100_000 };
    let next = wolf.wolf_tick(1, 1_000_000, Some(prey), CR_ZERO);
    assert_eq!(next.ai, AiResult { target_speed: 100_000, target_dir: Vec2 { x: 600, y: -800 } });
    assert_eq!(next.position, Vec2 { x: 12_000, y: 284_000 });
    assert_eq!(next.speed, Speed(100_000));
    assert_eq!(next.kind, wolf.kind);
}

#[test]
fn wolf_tick_below_the_line_tires_the_wolf_after_it_has_planned() {
    let wolf = cr_creature(CreatureKind::Wolf(Wolf { tired_until: 0 }), Vec2 { x: 0, y: -540_000 });
    let prey = Vec2 { x: 0, y: -600_000 };
    let now: u64 = 2_000_000;
    let next = wolf.wolf_tick(now, 16_667, Some(prey), CR_ZERO);
    assert_eq!(next.kind, CreatureKind::Wolf(Wolf { tired_until: now + 15_000_000 }));
    assert_eq!(next.ai.target_speed, 100_000);
    let again = next.wolf_tick(now + 16_667, 16_667, Some(prey), CR_ZERO);
    assert_eq!(again.ai.target_speed, 0);
    assert_eq!(again.ai.target_dir, CR_ZERO);
    assert_eq!(again.kind, CreatureKind::Wolf(Wolf { tired_until: now + 16_667 + 15_000_000 }));
}

#[test]
fn wolf_tick_leaves_lookers_alone() {
    let dog = cr_creature(
        CreatureKind::Dog(cr_looker(LookerState::Happy, LookerLocation::Outside)),
        CR_ZERO,
    );
    assert_eq!(dog.wolf_tick(5, 16_667, Some(Vec2 { x: 9, y: 9 }), CR_ZERO), dog);
}

#[test]
fn kinds_that_mate_are_a_dog_and_a_chicken() {
    let l = cr_looker(LookerState::Happy, LookerLocation::Outside);
    let dog = CreatureKind::Dog(l);
    let hen = CreatureKind::Chicken(l);
    let hybrid = CreatureKind::DogChick(l);
    let wolf = CreatureKind::Wolf(Wolf { tired_until: 0 });
    assert!(dog.can_merge_with(hen));
    assert!(hen.can_merge_with(dog));
    assert!(!dog.can_merge_with(dog));
    assert!(!hen.can_merge_with(hen));
    assert!(!dog.can_merge_with(hybrid));
    assert!(!hybrid.can_merge_with(hen));
    assert!(!wolf.can_merge_with(dog));
    assert!(!hen.can_merge_with(wolf));
}

#[test]
fn kind_keeps_its_variant_when_its_looker_changes() {
    let a = cr_looker(LookerState::Happy, LookerLocation::Outside);
    let b = cr_looker(LookerState::Scared { until: 9 }, LookerLocation::Inside);
    assert_eq!(CreatureKind::Dog(a).with_looker(b), CreatureKind::Dog(b));
    assert_eq!(CreatureKind::Chicken(a).with_looker(b), CreatureKind::Chicken(b));
    assert_eq!(CreatureKind::DogChick(a).with_looker(b), CreatureKind::DogChick(b));
    let wolf = CreatureKind::Wolf(Wolf { tired_until: 3 });
    assert_eq!(wolf.with_looker(b), wolf);
    assert_eq!(wolf.looker(), None);
    assert_eq!(CreatureKind::Dog(a).looker(), Some(a));
}
