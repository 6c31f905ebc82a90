//! The locomotion passes: every creature picks its objective, steers, and
//! moves.
//!
//! Chance enters in two places: a small jitter on every heading, and the
//! direction of a new roaming target. What the passes promise holds for every
//! outcome of the draws.

use vstd::prelude::*;
use crate::creature::{Creature, CreatureKind};
use crate::fixed::Vec2;
use crate::hunt::{find_prey, nearest, nearest_of, prey_places};
use crate::planner::MouseProj;
use crate::rng::random_below;
use crate::steering::JITTER;
use crate::wander::{Wander, SPREAD};

verus! {

/// True when both components of the jitter are zero or more and below
/// [`JITTER`].
pub open spec fn is_jitter(jitter: Vec2) -> bool {
    0 <= jitter.x < JITTER && 0 <= jitter.y < JITTER
}

/// Draws a jitter.
pub fn draw_jitter() -> (jitter: Vec2)
    ensures
        is_jitter(jitter),
{
    let x: u32 = random_below(JITTER);
    let y: u32 = random_below(JITTER);
    Vec2 { x: x as i32, y: y as i32 }
}

/// True when `after` is the herd `before` with each creature ticked as a
/// looker, creature `k` with jitter `jitters[k]`.
pub open spec fn lookers_ticked(
    before: Seq<Creature>,
    after: Seq<Creature>,
    now: u64,
    dt: u32,
    pointer: MouseProj,
    jitters: Seq<Vec2>,
) -> bool {
    &&& after.len() == before.len()
    &&& jitters.len() == before.len()
    &&& forall|k: int|
        0 <= k < before.len() ==> is_jitter(#[trigger] jitters[k]) && after[k]
            == before[k].looker_ticked(now, dt, pointer, jitters[k])
}

/// True when `after` is the herd `before` with each creature ticked as a
/// wolf, creature `k` with jitter `jitters[k]`; each wolf hunts the prey
/// that was nearest to it when the pass began.
pub open spec fn wolves_ticked(
    before: Seq<Creature>,
    after: Seq<Creature>,
    now: u64,
    dt: u32,
    jitters: Seq<Vec2>,
) -> bool {
    &&& after.len() == before.len()
    &&& jitters.len() == before.len()
    &&& forall|k: int|
        0 <= k < before.len() ==> is_jitter(#[trigger] jitters[k]) && after[k]
            == before[k].wolf_ticked(
            now,
            dt,
            nearest_of(before[k].position, prey_places(before)),
            jitters[k],
        )
}

/// The creature with its roaming state updated with the two drawn numbers;
/// nothing else of it changes.
pub open spec fn strolled(creature: Creature, draw: (u32, u32)) -> Creature {
    Creature {
        wander: creature.wander.updated(creature.position, draw.0, draw.1),
        ..creature
    }
}

/// True when `after` is the herd `before` with the roaming state of each
/// creature updated, that of creature `k` with the numbers `draws[k]`.
pub open spec fn herd_strolled(
    before: Seq<Creature>,
    after: Seq<Creature>,
    draws: Seq<(u32, u32)>,
) -> bool {
    &&& after.len() == before.len()
    &&& draws.len() == before.len()
    &&& forall|k: int|
        0 <= k < before.len() ==> (#[trigger] draws[k]).0 < SPREAD && draws[k].1 < SPREAD
            && after[k] == strolled(before[k], draws[k])
}

/// The locomotion pass of the dogs, chickens and hybrids at time `now`, for a
/// tick of `dt` microseconds: each of them that still takes part is ticked
/// with a jitter drawn for it; see [`Creature::looker_ticked`]. Nothing is
/// drawn for the other creatures, which stay as they are. No speed that was
/// zero or more turns negative.
pub fn dogchick_ai(herd: &mut Vec<Creature>, now: u64, dt: u32, pointer: MouseProj)
    ensures
        exists|jitters: Seq<Vec2>|
            #[trigger] lookers_ticked(old(herd)@, final(herd)@, now, dt, pointer, jitters),
        final(herd)@.len() == old(herd)@.len(),
        forall|k: int|
            0 <= k < old(herd)@.len() && old(herd)@[k].speed.0 >= 0 ==> (
            #[trigger] final(herd)@[k]).speed.0 >= 0,
        forall|k: int|
            0 <= k < old(herd)@.len() ==> (#[trigger] final(herd)@[k]).id == old(herd)@[k].id
                && final(herd)@[k].merge_pending == old(herd)@[k].merge_pending,
{
    let n: usize = herd.len();
    let ghost mut jitters: Seq<Vec2> = Seq::empty();
    let mut k: usize = 0;
    while k < n
        invariant
            k <= n,
            n == herd@.len() == old(herd)@.len(),
            jitters.len() == k,
            forall|j: int|
                0 <= j < k ==> is_jitter(#[trigger] jitters[j]) && herd@[j]
                    == old(herd)@[j].looker_ticked(now, dt, pointer, jitters[j]),
            forall|j: int| k <= j < n ==> #[trigger] herd@[j] == old(herd)@[j],
            forall|j: int|
                0 <= j < n && old(herd)@[j].speed.0 >= 0 ==> (#[trigger] herd@[j]).speed.0 >= 0,
            forall|j: int|
                0 <= j < n ==> (#[trigger] herd@[j]).id == old(herd)@[j].id && herd@[j].merge_pending
                    == old(herd)@[j].merge_pending,
        decreases n - k,
    {
        let creature: Creature = herd[k];
        let mut jitter: Vec2 = Vec2 { x: 0, y: 0 };
        if !creature.merge_pending {
            match creature.kind {
                CreatureKind::Wolf(_) => {},
                _ => {
                    jitter = draw_jitter();
                    let next: Creature = creature.looker_tick(now, dt, pointer, jitter);
                    herd.set(k, next);
                },
            }
        }
        proof {
            jitters = jitters.push(jitter);
        }
        k += 1;
    }
    proof {
        assert(lookers_ticked(old(herd)@, herd@, now, dt, pointer, jitters));
    }
}

/// The locomotion pass of the wolves at time `now`, for a tick of `dt`
/// microseconds: each wolf is ticked with a jitter drawn for it and with the
/// prey nearest to it; see [`Creature::wolf_ticked`]. No speed that was zero
/// or more turns negative.
pub fn wolf_ai(herd: &mut Vec<Creature>, now: u64, dt: u32)
    ensures
        exists|jitters: Seq<Vec2>|
            #[trigger] wolves_ticked(old(herd)@, final(herd)@, now, dt, jitters),
        final(herd)@.len() == old(herd)@.len(),
        forall|k: int|
            0 <= k < old(herd)@.len() && old(herd)@[k].speed.0 >= 0 ==> (
            #[trigger] final(herd)@[k]).speed.0 >= 0,
        forall|k: int|
            0 <= k < old(herd)@.len() ==> (#[trigger] final(herd)@[k]).id == old(herd)@[k].id
                && final(herd)@[k].merge_pending == old(herd)@[k].merge_pending,
{
    let n: usize = herd.len();
    let prey: Vec<Vec2> = find_prey(herd);
    let ghost mut jitters: Seq<Vec2> = Seq::empty();
    let mut k: usize = 0;
    while k < n
        invariant
            k <= n,
            n == herd@.len() == old(herd)@.len(),
            jitters.len() == k,
            prey@ == prey_places(old(herd)@),
            forall|j: int|
                0 <= j < k ==> is_jitter(#[trigger] jitters[j]) && herd@[j]
                    == old(herd)@[j].wolf_ticked(
                    now,
                    dt,
                    nearest_of(old(herd)@[j].position, prey_places(old(herd)@)),
                    jitters[j],
                ),
            forall|j: int| k <= j < n ==> #[trigger] herd@[j] == old(herd)@[j],
            forall|j: int|
                0 <= j < n && old(herd)@[j].speed.0 >= 0 ==> (#[trigger] herd@[j]).speed.0 >= 0,
            forall|j: int|
                0 <= j < n ==> (#[trigger] herd@[j]).id == old(herd)@[j].id && herd@[j].merge_pending
                    == old(herd)@[j].merge_pending,
        decreases n - k,
    {
        let creature: Creature = herd[k];
        let mut jitter: Vec2 = Vec2 { x: 0, y: 0 };
        match creature.kind {
            CreatureKind::Wolf(_) => {
                jitter = draw_jitter();
                let target: Option<Vec2> = nearest(creature.position, &prey);
                let next: Creature = creature.wolf_tick(now, dt, target, jitter);
                herd.set(k, next);
            },
            _ => {},
        }
        proof {
            jitters = jitters.push(jitter);
        }
        k += 1;
    }
    proof {
        assert(wolves_ticked(old(herd)@, herd@, now, dt, jitters));
    }
}

/// The roaming pass: every creature that has no roaming target, has reached
/// it or has strayed from it gets a new one, one stride away in a direction
/// drawn for it, if that lies in its region; see [`Wander::updated`].
pub fn wander_update(herd: &mut Vec<Creature>)
    ensures
        exists|draws: Seq<(u32, u32)>| #[trigger] herd_strolled(old(herd)@, final(herd)@, draws),
        final(herd)@.len() == old(herd)@.len(),
        forall|k: int|
            0 <= k < old(herd)@.len() ==> (#[trigger] final(herd)@[k]).id == old(herd)@[k].id
                && final(herd)@[k].merge_pending == old(herd)@[k].merge_pending
                && final(herd)@[k].speed == old(herd)@[k].speed,
{
    let n: usize = herd.len();
    let ghost mut draws: Seq<(u32, u32)> = Seq::empty();
    let mut k: usize = 0;
    while k < n
        invariant
            k <= n,
            n == herd@.len() == old(herd)@.len(),
            draws.len() == k,
            forall|j: int|
                0 <= j < k ==> (#[trigger] draws[j]).0 < SPREAD && draws[j].1 < SPREAD && herd@[j]
                    == strolled(old(herd)@[j], draws[j]),
            forall|j: int| k <= j < n ==> #[trigger] herd@[j] == old(herd)@[j],
            forall|j: int|
                0 <= j < n ==> (#[trigger] herd@[j]).id == old(herd)@[j].id && herd@[j].merge_pending
                    == old(herd)@[j].merge_pending && herd@[j].speed == old(herd)@[j].speed,
        decreases n - k,
    {
        let rx: u32 = random_below(SPREAD);
        let ry: u32 = random_below(SPREAD);
        let creature: Creature = herd[k];
        let wander: Wander = creature.wander.update_with(creature.position, rx, ry);
        herd.set(
            k,
            Creature {
                id: creature.id,
                kind: creature.kind,
                position: creature.position,
                speed: creature.speed,
                ai: creature.ai,
                avoid: creature.avoid,
                wander,
                merge_pending: creature.merge_pending,
            },
        );
        proof {
            draws = draws.push((rx, ry));
        }
        k += 1;
    }
    proof {
        assert(herd_strolled(old(herd)@, herd@, draws));
    }
}

} // verus!
