use dogchick::creature::{Creature, CreatureKind};
use dogchick::fixed::Vec2;
use dogchick::hybrid::CreatureDespawned;
use dogchick::looker::{Looker, LookerLocation, LookerState};
use dogchick::merge::Merge;
use dogchick::planner::MouseProj;
use dogchick::score::{game_over_system, score_merge, GameState};
use dogchick::spawn::{new_chicken, new_dog, new_wolf};
use dogchick::steering::Speed;
use dogchick::world::{start_game, World};

const TI_HAND: MouseProj = MouseProj(Vec2 { x: 0, y: 900_000 });

fn ti_outside(mut c: Creature, x: i32, y: i32) -> Creature {
    c.position = Vec2 { x, y };
    let looker = c.kind.looker().unwrap();
    c.kind = c.kind.with_looker(Looker { location: LookerLocation::Outside, ..looker });
    c
}

fn ti_hybrids(world: &World) -> usize {
    world
        .herd
        .iter()
        .filter(|c| match c.kind {
            CreatureKind::DogChick(_) => true,
            _ => false,
        })
        .count()
}

fn ti_books_agree(world: &World) -> bool {
    let mut names: Vec<u64> = world.herd.iter().map(|c| c.id).collect();
    names.sort();
    names.dedup();
    let mut parents: Vec<u64> = vec![];
    for anim in world.anims.iter() {
        parents.push(anim.first_parent);
        parents.push(anim.second_parent);
    }
    let mut marked: Vec<u64> =
        world.herd.iter().filter(|c| c.merge_pending).map(|c| c.id).collect();
    parents.sort();
    marked.sort();
    names.len() == world.herd.len()
        && parents == marked
        && world.herd.iter().all(|c| c.id < world.next_id)
}

#[test]
fn tick_merges_a_pair_that_meets_and_hatches_it_a_second_later() {
    let mut world = World::new();
    world.herd = vec![
        ti_outside(new_dog(0, 0, 0, 0), 0, 0),
        ti_outside(new_chicken(1, 0, 0, 0), 10_000, 0),
    ];
    world.next_id = 2;
    let report = world.tick(16_667, 16_667, TI_HAND);
    assert_eq!(report.pairs, vec![Merge { first: 0, second: 1 }]);
    assert_eq!(report.merges.len(), 1);
    assert_eq!(report.hatched, vec![]);
    assert_eq!(report.frights, vec![]);
    assert_eq!(world.herd.len(), 2);
    assert!(world.herd[0].merge_pending && world.herd[1].merge_pending);
    assert_eq!(world.anims.len(), 1);
    assert_eq!(world.anims[0].position, Vec2 { x: 5_000, y: 0 });
    let parents = world.herd.clone();
    let mut now: u64 = 16_667;
    let mut hatched = 0;
    let mut ticks = 0;
    while hatched == 0 {
        now += 16_667;
        ticks += 1;
        let report = world.tick(now, 16_667, TI_HAND);
        assert_eq!(report.pairs, vec![]);
        hatched = report.hatched.len();
        if hatched == 0 {
            assert_eq!(world.herd, parents);
            assert_eq!(report.despawned, vec![]);
        } else {
            assert_eq!(
                report.despawned,
                vec![CreatureDespawned { id: 0 }, CreatureDespawned { id: 1 }]
            );
        }
    }
    assert_eq!(ticks, 60);
    assert_eq!(world.anims.len(), 0);
    assert_eq!(world.herd.len(), 1);
    assert_eq!(ti_hybrids(&world), 1);
    let hybrid = world.herd[0];
    assert_eq!(hybrid.id, 0);
    let looker = hybrid.kind.looker().unwrap();
    assert_eq!(looker.state, LookerState::HappyInside);
    assert_eq!(looker.location, LookerLocation::Outside);
    assert_eq!(looker.spawn_door, Vec2 { x: -50_000, y: -650_000 });
    assert_eq!(hybrid.position, Vec2 { x: 5_000, y: 0 });
    assert_eq!(hybrid.ai.target_dir, Vec2 { x: -84, y: -996 });
}

#[test]
fn tick_frightens_before_anything_moves() {
    let mut world = World::new();
    let mut wolf = new_wolf(0, 0, 0);
    wolf.position = Vec2 { x: 0, y: 0 };
    world.herd = vec![wolf, ti_outside(new_dog(1, 0, 0, 0), 100_000, 0)];
    let report = world.tick(1_000_000, 16_667, TI_HAND);
    assert_eq!(report.frights.len(), 1);
    assert_eq!(report.frights[0].creature_id, 1);
    let looker = world.herd[1].kind.looker().unwrap();
    assert_eq!(looker.state, LookerState::Scared { until: 11_000_000 });
    assert_eq!(world.herd[1].ai.target_speed, 180_000);
    assert_eq!(world.herd[0].ai.target_dir, Vec2 { x: 1000, y: 0 });
    let report = world.tick(1_016_667, 16_667, TI_HAND);
    assert_eq!(report.frights, vec![]);
    let looker = world.herd[1].kind.looker().unwrap();
    assert_eq!(looker.state, LookerState::Scared { until: 11_000_000 });
}

#[test]
fn whole_game_keeps_its_promises_tick_after_tick() {
    let mut world = World::new();
    let mut score = start_game(&mut world, 0);
    for c in world.herd.iter_mut() {
        let x = c.position.x / 20;
        match c.kind {
            CreatureKind::Dog(_) | CreatureKind::Chicken(_) => *c = ti_outside(*c, x, -400_000),
            _ => {}
        }
    }
    let mut state = GameState::Playing;
    let mut now: u64 = 0;
    let mut chosen_before: Vec<u64> = vec![];
    let mut merges = 0;
    let mut hatched = 0;
    let mut round = 0;
    while round < 400 {
        let dt: u32 = 16_667;
        now += dt as u64;
        let alive_before = world.herd.len();
        let report = world.tick(now, dt, MouseProj(Vec2 { x: 0, y: -400_000 }));
        for pair in report.pairs.iter() {
            let a = world.herd[pair.first];
            let b = world.herd[pair.second];
            assert!(a.merge_pending && b.merge_pending);
            assert!(a.kind.can_merge_with(b.kind));
            assert!(!chosen_before.contains(&a.id));
            assert!(!chosen_before.contains(&b.id));
            chosen_before.push(a.id);
            chosen_before.push(b.id);
        }
        merges += report.pairs.len();
        hatched += report.hatched.len();
        assert_eq!(world.herd.len(), alive_before - report.hatched.len());
        assert_eq!(report.despawned.len(), 2 * report.hatched.len());
        assert_eq!(world.anims.len(), merges - hatched);
        assert!(ti_books_agree(&world));
        for c in world.herd.iter() {
            assert!(c.speed.0 >= 0);
            let d = c.ai.target_dir;
            let len2 = (d.x as i64) * (d.x as i64) + (d.y as i64) * (d.y as i64);
            assert!(len2 == 0 || (len2 >= 997 * 997 && len2 <= 1_000_000));
        }
        score_merge(&mut score, state, report.hatched.len());
        state = game_over_system(&score, state, now);
        round += 1;
    }
    assert!(merges > 0);
    assert!(hatched > 0);
    assert_eq!(score.score as usize, 100 * hatched);
    assert_eq!(ti_hybrids(&world), hatched);
    assert_eq!(world.herd.len(), 150 - hatched);
    assert_eq!(state, GameState::Playing);
    assert_eq!(world.next_id, 150);
}

#[test]
fn books_agree_from_the_start_and_after_every_spawn() {
    let mut world = World::new();
    assert!(ti_books_agree(&world));
    start_game(&mut world, 0);
    assert!(ti_books_agree(&world));
    let mut round = 0;
    while round < 10 {
        dogchick::world::spawn_dog(&mut world);
        dogchick::world::spawn_chicken(&mut world);
        dogchick::world::spawn_wolf(&mut world);
        assert!(ti_books_agree(&world));
        world.tick(round * 16_667, 16_667, TI_HAND);
        assert!(ti_books_agree(&world));
        round += 1;
    }
    assert_eq!(world.next_id, 180);
}

#[test]
fn tick_of_an_empty_world_does_nothing() {
    let mut world = World::new();
    let report = world.tick(5, 16_667, TI_HAND);
    assert_eq!(report.pairs, vec![]);
    assert_eq!(report.merges, vec![]);
    assert_eq!(report.hatched, vec![]);
    assert_eq!(report.despawned, vec![]);
    assert_eq!(report.frights, vec![]);
    assert_eq!(world.herd.len(), 0);
    assert_eq!(world.anims.len(), 0);
    assert_eq!(world.next_id, 0);
}

#[test]
fn tick_of_no_length_moves_nothing() {
    let mut world = World::new();
    start_game(&mut world, 0);
    for c in world.herd.iter_mut() {
        c.speed = Speed(30_000);
    }
    let before: Vec<Vec2> = world.herd.iter().map(|c| c.position).collect();
    world.tick(1, 0, TI_HAND);
    let after: Vec<Vec2> = world.herd.iter().map(|c| c.position).collect();
    assert_eq!(before, after);
}
