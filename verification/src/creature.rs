//! A creature, and what one tick of steering and motion makes of it.

use vstd::prelude::*;
use crate::fixed::Vec2;
use crate::looker::{Looker, LookerLocation};
use crate::planner::{
    looker_objective, plan_looker, plan_wolf, wolf_objective, MouseProj, Wolf, LOOKER_GAIN,
    WOLF_GAIN,
};
use crate::steering::{
    advance_position, advance_speed, next_position, next_speed, steer, steer_spec, AiResult,
    CollisionAvoid, Speed,
};
use crate::wander::Wander;

verus! {

/// What kind of animal a creature is, with what only that kind knows.
#[derive(Clone, Copy, Debug, PartialEq, Eq, Structural)]
pub enum CreatureKind {
    Wolf(Wolf),
    Dog(Looker),
    Chicken(Looker),
    DogChick(Looker),
}

impl CreatureKind {
    /// What a dog, a chicken or a hybrid knows of itself; nothing for a wolf.
    pub open spec fn looker_spec(self) -> Option<Looker> {
        match self {
            CreatureKind::Wolf(_) => None,
            CreatureKind::Dog(l) => Some(l),
            CreatureKind::Chicken(l) => Some(l),
            CreatureKind::DogChick(l) => Some(l),
        }
    }

    /// The same kind of animal knowing `looker` of itself; a wolf stays as it
    /// is.
    pub open spec fn with_looker_spec(self, looker: Looker) -> CreatureKind {
        match self {
            CreatureKind::Wolf(_) => self,
            CreatureKind::Dog(_) => CreatureKind::Dog(looker),
            CreatureKind::Chicken(_) => CreatureKind::Chicken(looker),
            CreatureKind::DogChick(_) => CreatureKind::DogChick(looker),
        }
    }

    /// True for a dog and a chicken, whichever way round.
    pub open spec fn mates_with(self, other: CreatureKind) -> bool {
        (self is Dog && other is Chicken) || (self is Chicken && other is Dog)
    }

    /// Computes [`CreatureKind::looker_spec`].
    pub fn looker(self) -> (l: Option<Looker>)
        ensures
            l == self.looker_spec(),
    {
        match self {
            CreatureKind::Wolf(_) => None,
            CreatureKind::Dog(l) => Some(l),
            CreatureKind::Chicken(l) => Some(l),
            CreatureKind::DogChick(l) => Some(l),
        }
    }

    /// Computes [`CreatureKind::with_looker_spec`].
    pub fn with_looker(self, looker: Looker) -> (kind: CreatureKind)
        ensures
            kind == self.with_looker_spec(looker),
    {
        match self {
            CreatureKind::Wolf(_) => self,
            CreatureKind::Dog(_) => CreatureKind::Dog(looker),
            CreatureKind::Chicken(_) => CreatureKind::Chicken(looker),
            CreatureKind::DogChick(_) => CreatureKind::DogChick(looker),
        }
    }

    /// Computes [`CreatureKind::mates_with`].
    pub fn can_merge_with(self, other: CreatureKind) -> (b: bool)
        ensures
            b == self.mates_with(other),
    {
        match self {
            CreatureKind::Dog(_) => match other {
                CreatureKind::Chicken(_) => true,
                _ => false,
            },
            CreatureKind::Chicken(_) => match other {
                CreatureKind::Dog(_) => true,
                _ => false,
            },
            _ => false,
        }
    }
}

/// One animal of the simulation.
///
/// `id` names it for as long as it lives. `merge_pending` is set once, when
/// the animal has been chosen for a merge; from then on it takes no part in
/// steering, frights or further merges, and waits to be taken away.
#[derive(Clone, Copy, Debug, PartialEq, Eq, Structural)]
pub struct Creature {
    pub id: u64,
    pub kind: CreatureKind,
    pub position: Vec2,
    pub speed: Speed,
    pub ai: AiResult,
    pub avoid: CollisionAvoid,
    pub wander: Wander,
    pub merge_pending: bool,
}

impl Creature {
    /// What the creature knows of itself as a looker, if it is one that still
    /// takes part.
    pub open spec fn active_looker(self) -> Option<Looker> {
        if self.merge_pending {
            None
        } else {
            self.kind.looker_spec()
        }
    }

    /// True for a dog, a chicken or a hybrid that still takes part and is not
    /// inside: what a wolf may hunt.
    pub open spec fn is_prey(self) -> bool {
        match self.active_looker() {
            Some(looker) => looker.location != LookerLocation::Inside,
            None => false,
        }
    }

    /// The creature after one tick of `dt` microseconds at time `now`, as a
    /// looker: it picks its objective, steers for it, moves at the speed it
    /// had along its new direction, the jitter and the push of its neighbours,
    /// and then takes its new speed; its fright runs out and it changes sides
    /// at its door, both judged where it stood when the tick began. A wolf,
    /// and a creature chosen for a merge, stay as they are.
    pub open spec fn looker_ticked(self, now: u64, dt: u32, pointer: MouseProj, jitter: Vec2) -> Creature {
        match self.active_looker() {
            Some(looker) => {
                let objective = looker_objective(looker, now, self.position, self.wander, pointer);
                let ai = steer_spec(self.position, objective, LOOKER_GAIN);
                Creature {
                    kind: self.kind.with_looker_spec(looker.ticked(now, self.position)),
                    ai,
                    position: next_position(
                        self.position,
                        self.speed,
                        dt,
                        ai.target_dir,
                        jitter,
                        self.avoid.getaway,
                    ),
                    speed: Speed(next_speed(self.speed, ai.target_speed, dt) as i32),
                    ..self
                }
            },
            None => self,
        }
    }

    /// The creature after one tick of `dt` microseconds at time `now`, as a
    /// wolf with `nearest` the prey nearest to it: it picks its objective with
    /// the tiredness it had, steers and moves as a looker does, and gets tired
    /// if it stood too low when the tick began. Any other creature stays as it
    /// is.
    pub open spec fn wolf_ticked(self, now: u64, dt: u32, nearest: Option<Vec2>, jitter: Vec2) -> Creature {
        match self.kind {
            CreatureKind::Wolf(wolf) => {
                let objective = wolf_objective(wolf, now, self.position, nearest, self.wander);
                let ai = steer_spec(self.position, objective, WOLF_GAIN);
                Creature {
                    kind: CreatureKind::Wolf(wolf.ticked(now, self.position)),
                    ai,
                    position: next_position(
                        self.position,
                        self.speed,
                        dt,
                        ai.target_dir,
                        jitter,
                        self.avoid.getaway,
                    ),
                    speed: Speed(next_speed(self.speed, ai.target_speed, dt) as i32),
                    ..self
                }
            },
            _ => self,
        }
    }

    /// Computes [`Creature::looker_ticked`]. The speed of a creature that was
    /// not moving backwards is not negative afterwards.
    pub fn looker_tick(&self, now: u64, dt: u32, pointer: MouseProj, jitter: Vec2) -> (next: Creature)
        ensures
            next == self.looker_ticked(now, dt, pointer, jitter),
            self.speed.0 >= 0 ==> next.speed.0 >= 0,
            next.id == self.id,
            next.merge_pending == self.merge_pending,
    {
        if self.merge_pending {
            return *self;
        }
        match self.kind.looker() {
            Some(looker) => {
                let objective = plan_looker(looker, now, self.position, &self.wander, pointer);
                let ai: AiResult = steer(self.position, objective, LOOKER_GAIN);
                Creature {
                    id: self.id,
                    kind: self.kind.with_looker(looker.tick(now, self.position)),
                    position: advance_position(
                        self.position,
                        self.speed,
                        dt,
                        ai.target_dir,
                        jitter,
                        self.avoid.getaway,
                    ),
                    speed: advance_speed(self.speed, ai.target_speed, dt),
                    ai,
                    avoid: self.avoid,
                    wander: self.wander,
                    merge_pending: self.merge_pending,
                }
            },
            None => *self,
        }
    }

    /// Computes [`Creature::wolf_ticked`]. The speed of a creature that was
    /// not moving backwards is not negative afterwards.
    pub fn wolf_tick(&self, now: u64, dt: u32, nearest: Option<Vec2>, jitter: Vec2) -> (next: Creature)
        ensures
            next == self.wolf_ticked(now, dt, nearest, jitter),
            self.speed.0 >= 0 ==> next.speed.0 >= 0,
            next.id == self.id,
            next.merge_pending == self.merge_pending,
    {
        match self.kind {
            CreatureKind::Wolf(wolf) => {
                let objective = plan_wolf(wolf, now, self.position, nearest, &self.wander);
                let ai: AiResult = steer(self.position, objective, WOLF_GAIN);
                Creature {
                    id: self.id,
                    kind: CreatureKind::Wolf(wolf.tick(now, self.position)),
                    position: advance_position(
                        self.position,
                        self.speed,
                        dt,
                        ai.target_dir,
                        jitter,
                        self.avoid.getaway,
                    ),
                    speed: advance_speed(self.speed, ai.target_speed, dt),
                    ai,
                    avoid: self.avoid,
                    wander: self.wander,
                    merge_pending: self.merge_pending,
                }
            },
            _ => *self,
        }
    }
}

/// Whatever the tick, the direction that steering gives a looker that takes
/// part is the zero vector or a vector of length one, within three
/// thousandths, and the speed it asks for is never negative; and the speed of
/// any creature that was not moving backwards is not negative afterwards.
pub proof fn lemma_looker_tick_sound(
    creature: Creature,
    now: u64,
    dt: u32,
    pointer: MouseProj,
    jitter: Vec2,
)
    ensures
        ({
            let next = creature.looker_ticked(now, dt, pointer, jitter);
            let len2 = next.ai.target_dir.x * next.ai.target_dir.x + next.ai.target_dir.y
                * next.ai.target_dir.y;
            &&& creature.active_looker() is Some ==> len2 == 0 || 997 * 997 <= len2 <= 1000 * 1000
            &&& creature.active_looker() is Some ==> next.ai.target_speed >= 0
            &&& creature.speed.0 >= 0 ==> next.speed.0 >= 0
        }),
{
    if creature.active_looker() is Some {
        let looker = creature.active_looker()->0;
        let objective = looker_objective(looker, now, creature.position, creature.wander, pointer);
        crate::fixed::lemma_unit_toward_length(
            objective.point.x - creature.position.x,
            objective.point.y - creature.position.y,
        );
        crate::steering::lemma_target_speed_bounds(creature.position, objective, LOOKER_GAIN);
    }
}

/// The same for a wolf.
pub proof fn lemma_wolf_tick_sound(
    creature: Creature,
    now: u64,
    dt: u32,
    nearest: Option<Vec2>,
    jitter: Vec2,
)
    ensures
        ({
            let next = creature.wolf_ticked(now, dt, nearest, jitter);
            let len2 = next.ai.target_dir.x * next.ai.target_dir.x + next.ai.target_dir.y
                * next.ai.target_dir.y;
            &&& creature.kind is Wolf ==> len2 == 0 || 997 * 997 <= len2 <= 1000 * 1000
            &&& creature.kind is Wolf ==> next.ai.target_speed >= 0
            &&& creature.speed.0 >= 0 ==> next.speed.0 >= 0
        }),
{
    if creature.kind is Wolf {
        let wolf = creature.kind->Wolf_0;
        let objective = wolf_objective(wolf, now, creature.position, nearest, creature.wander);
        crate::fixed::lemma_unit_toward_length(
            objective.point.x - creature.position.x,
            objective.point.y - creature.position.y,
        );
        crate::steering::lemma_target_speed_bounds(creature.position, objective, WOLF_GAIN);
    }
}

} // verus!
