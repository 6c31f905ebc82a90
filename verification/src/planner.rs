//! Choosing an objective: where each creature wants to go in this tick, and
//! how fast it may go there.

use vstd::prelude::*;
use crate::fixed::{deadline, deadline_spec, Vec2};
use crate::looker::{Looker, LookerLocation, LookerState};
use crate::steering::Objective;
use crate::wander::Wander;

verus! {

/// How near the pointer must be for a happy looker outside to follow it.
pub const HAND_SIZE: u32 = 80_000;

/// A looker that follows the pointer goes no lower than this.
pub const FLOOR_Y: i32 = -630_000;

/// The speed cap of a looker that has nothing special to do.
pub const WALK_SPEED: i32 = 50_000;

/// The speed cap of a looker that was scared when the tick began.
pub const SCARED_SPEED: i32 = 180_000;

/// The speed cap of a looker that follows the pointer.
pub const FOLLOW_SPEED: i32 = 150_000;

/// Wanted speed of a looker per squared unit of distance, in thousandths.
pub const LOOKER_GAIN: u32 = 800;

/// The speed cap of a wolf that roams.
pub const PROWL_SPEED: i32 = 20_000;

/// The speed cap of a wolf that hunts.
pub const CHASE_SPEED: i32 = 100_000;

/// The speed cap of a wolf that is far from its roaming target.
pub const RETURN_SPEED: i32 = 60_000;

/// Wanted speed of a wolf per squared unit of distance, in thousandths.
pub const WOLF_GAIN: u32 = 300;

/// How near its prey must be for a wolf to hunt it.
pub const CHASE_RADIUS: u32 = 600_000;

/// Farther than this from its roaming target, a wolf hurries back.
pub const RETURN_RADIUS: u32 = 300_000;

/// Below this height a wolf gets tired.
pub const TIRED_Y: i32 = -530_000;

/// How long a tired wolf does not hunt, in microseconds.
pub const TIRED_TIME: u64 = 15_000_000;

/// Where the player's pointer is in the world.
#[derive(Clone, Copy, Debug, PartialEq, Eq, Structural)]
pub struct MouseProj(pub Vec2);

impl MouseProj {
    /// The point that a looker following the pointer steers for: the pointer,
    /// raised to [`FLOOR_Y`] where it is lower.
    pub open spec fn lure(self) -> Vec2 {
        Vec2 {
            x: self.0.x,
            y: if self.0.y < FLOOR_Y {
                FLOOR_Y
            } else {
                self.0.y
            },
        }
    }
}

/// The objective of a looker standing at `pos` at time `now`, by its side of
/// the door and its mood once a fright that is due has run out.
///
/// Inside and wanting to be inside, it roams. Inside and happy, or outside and
/// wanting to be inside, it goes to its door. Scared, it goes to its spawn
/// point when inside and to its door when outside. Outside and happy, it
/// follows the pointer if that is nearer than [`HAND_SIZE`], and roams
/// otherwise. The cap is [`SCARED_SPEED`] if it was scared when the tick
/// began, [`FOLLOW_SPEED`] when it follows the pointer, else [`WALK_SPEED`].
pub open spec fn looker_objective(
    looker: Looker,
    now: u64,
    pos: Vec2,
    wander: Wander,
    pointer: MouseProj,
) -> Objective {
    let cap = if looker.state.is_scared() {
        SCARED_SPEED
    } else {
        WALK_SPEED
    };
    match (looker.location, looker.state.calmed(now)) {
        (LookerLocation::Inside, LookerState::HappyInside) => Objective {
            point: wander.target_or(pos),
            max_speed: cap,
        },
        (LookerLocation::Inside, LookerState::Happy) => Objective {
            point: looker.spawn_door,
            max_speed: cap,
        },
        (LookerLocation::Outside, LookerState::HappyInside) => Objective {
            point: looker.spawn_door,
            max_speed: cap,
        },
        (LookerLocation::Inside, _) => Objective { point: looker.spawn_point, max_speed: cap },
        (LookerLocation::Outside, LookerState::Happy) => if pointer.0.near(pos, HAND_SIZE as int) {
            Objective { point: pointer.lure(), max_speed: FOLLOW_SPEED }
        } else {
            Objective { point: wander.target_or(pos), max_speed: cap }
        },
        (LookerLocation::Outside, _) => Objective { point: looker.spawn_door, max_speed: cap },
    }
}

/// Computes [`looker_objective`].
pub fn plan_looker(looker: Looker, now: u64, pos: Vec2, wander: &Wander, pointer: MouseProj) -> (obj:
    Objective)
    ensures
        obj == looker_objective(looker, now, pos, *wander, pointer),
        obj.max_speed == WALK_SPEED || obj.max_speed == SCARED_SPEED || obj.max_speed
            == FOLLOW_SPEED,
{
    let cap: i32 = if looker.state.scared() {
        SCARED_SPEED
    } else {
        WALK_SPEED
    };
    let state: LookerState = looker.state.calm(now);
    match looker.location {
        LookerLocation::Inside => match state {
            LookerState::HappyInside => Objective { point: wander.objective(pos), max_speed: cap },
            LookerState::Happy => Objective { point: looker.spawn_door, max_speed: cap },
            _ => Objective { point: looker.spawn_point, max_speed: cap },
        },
        LookerLocation::Outside => match state {
            LookerState::HappyInside => Objective { point: looker.spawn_door, max_speed: cap },
            LookerState::Happy => {
                if pointer.0.is_near(pos, HAND_SIZE) {
                    let y: i32 = if pointer.0.y < FLOOR_Y {
                        FLOOR_Y
                    } else {
                        pointer.0.y
                    };
                    Objective { point: Vec2 { x: pointer.0.x, y }, max_speed: FOLLOW_SPEED }
                } else {
                    Objective { point: wander.objective(pos), max_speed: cap }
                }
            },
            _ => Objective { point: looker.spawn_door, max_speed: cap },
        },
    }
}

/// What a wolf knows of itself: the time until which it is too tired to hunt.
#[derive(Clone, Copy, Debug, PartialEq, Eq, Structural)]
pub struct Wolf {
    pub tired_until: u64,
}

impl Wolf {
    /// True when the wolf may hunt at time `now`: its tiredness lies in the
    /// past.
    pub open spec fn rested(self, now: u64) -> bool {
        self.tired_until < now
    }

    /// The wolf one tick later, standing at `pos` at time `now`: below
    /// [`TIRED_Y`] it is tired from now for [`TIRED_TIME`].
    pub open spec fn ticked(self, now: u64, pos: Vec2) -> Wolf {
        if pos.y < TIRED_Y {
            Wolf { tired_until: deadline_spec(now, TIRED_TIME) }
        } else {
            self
        }
    }

    /// Computes [`Wolf::ticked`].
    pub fn tick(self, now: u64, pos: Vec2) -> (next: Wolf)
        ensures
            next == self.ticked(now, pos),
    {
        if pos.y < TIRED_Y {
            Wolf { tired_until: deadline(now, TIRED_TIME) }
        } else {
            self
        }
    }
}

/// The objective of a wolf standing at `pos` at time `now`, where `nearest` is
/// the prey nearest to it, if there is any.
///
/// A rested wolf hunts prey nearer than [`CHASE_RADIUS`] at up to
/// [`CHASE_SPEED`]. Any other wolf roams, at up to [`RETURN_SPEED`] while
/// its target is farther than [`RETURN_RADIUS`] and up to [`PROWL_SPEED`]
/// otherwise.
pub open spec fn wolf_objective(
    wolf: Wolf,
    now: u64,
    pos: Vec2,
    nearest: Option<Vec2>,
    wander: Wander,
) -> Objective {
    if nearest is Some && nearest->0.near(pos, CHASE_RADIUS as int) && wolf.rested(now) {
        Objective { point: nearest->0, max_speed: CHASE_SPEED }
    } else {
        let point = wander.target_or(pos);
        Objective {
            point,
            max_speed: if point.dist2(pos) > RETURN_RADIUS * RETURN_RADIUS {
                RETURN_SPEED
            } else {
                PROWL_SPEED
            },
        }
    }
}

/// Computes [`wolf_objective`].
pub fn plan_wolf(wolf: Wolf, now: u64, pos: Vec2, nearest: Option<Vec2>, wander: &Wander) -> (obj:
    Objective)
    ensures
        obj == wolf_objective(wolf, now, pos, nearest, *wander),
        obj.max_speed == PROWL_SPEED || obj.max_speed == CHASE_SPEED || obj.max_speed
            == RETURN_SPEED,
        !wolf.rested(now) ==> obj.max_speed != CHASE_SPEED,
{
    match nearest {
        Some(prey) => {
            if prey.is_near(pos, CHASE_RADIUS) && wolf.tired_until < now {
                return Objective { point: prey, max_speed: CHASE_SPEED };
            }
        },
        None => {},
    }
    let point: Vec2 = wander.objective(pos);
    let far: i128 = RETURN_RADIUS as i128;
    assert(far * far == RETURN_RADIUS * RETURN_RADIUS) by (nonlinear_arith)
        requires
            far == RETURN_RADIUS,
    ;
    assert(far * far == 90_000_000_000) by (nonlinear_arith)
        requires
            far == 300_000,
    ;
    let max_speed: i32 = if point.distance_squared(pos) > far * far {
        RETURN_SPEED
    } else {
        PROWL_SPEED
    };
    Objective { point, max_speed }
}

} // verus!
