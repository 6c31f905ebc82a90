//! Making creatures: wolves in the forest, chickens in the right pen, dogs in
//! the left pen, each at a place drawn at random.

use vstd::prelude::*;
use crate::creature::{Creature, CreatureKind};
use crate::fixed::Vec2;
use crate::hybrid::FIRST_TARGET_SPEED;
use crate::looker::{Looker, LookerLocation, LookerState};
use crate::planner::Wolf;
use crate::rng::random_below;
use crate::steering::{AiResult, CollisionAvoid, Speed};
use crate::wander::{forest, forest_spec, outside, outside_spec, Wander};

verus! {

/// Wolves are put this far, at most, right of [`WOLF_LEFT`].
pub const WOLF_WIDTH: u32 = 1_000_000;

/// Wolves are put this far, at most, above [`WOLF_BOTTOM`].
pub const WOLF_HEIGHT: u32 = 200_000;

/// The left edge of where wolves are put.
pub const WOLF_LEFT: i32 = -500_000;

/// The lower edge of where wolves are put.
pub const WOLF_BOTTOM: i32 = 300_000;

/// The width of the part of a pen that dogs and chickens are put in.
pub const PEN_WIDTH: u32 = 300_000;

/// The height of the part of a pen that dogs and chickens are put in.
pub const PEN_HEIGHT: u32 = 300_000;

/// The width of the stretch that the door of a pen lies in.
pub const DOOR_WIDTH: u32 = 100_000;

/// The lower edge of the pens.
pub const PEN_BOTTOM: i32 = -1_000_000;

/// The height at which the doors lie.
pub const DOOR_Y: i32 = -650_000;

/// The left edge of where chickens are put.
pub const CHICKEN_LEFT: i32 = 350_000;

/// The left edge of where dogs are put.
pub const DOG_LEFT: i32 = -650_000;

/// The left end of the stretch for a chicken's door.
pub const CHICKEN_DOOR_LEFT: i32 = 450_000;

/// The left end of the stretch for a dog's door.
pub const DOG_DOOR_LEFT: i32 = -550_000;

/// What every new creature starts with, whatever its kind: it stands still,
/// steering has asked nothing of it but a small speed, nothing pushes it, it
/// has no roaming target, and it has not been chosen for a merge.
pub open spec fn newcomer(id: u64, kind: CreatureKind, position: Vec2, region: crate::wander::Rect) -> Creature {
    Creature {
        id,
        kind,
        position,
        speed: Speed(0),
        ai: AiResult { target_speed: FIRST_TARGET_SPEED, target_dir: Vec2 { x: 0, y: 0 } },
        avoid: CollisionAvoid { getaway: Vec2 { x: 0, y: 0 } },
        wander: Wander { randobjective: None, confined_within: region },
        merge_pending: false,
    }
}

/// The looker that a new dog or chicken is: happy, inside, at home where it
/// is put, with its door at `door_x` on the line of the doors.
pub open spec fn at_home(home: Vec2, door_x: int) -> Looker {
    Looker {
        spawn_point: home,
        spawn_door: Vec2 { x: door_x as i32, y: DOOR_Y },
        state: LookerState::Happy,
        location: LookerLocation::Inside,
    }
}

/// The new wolf for the drawn numbers `x` and `y`: rested, and roaming in
/// the forest.
pub open spec fn wolf_at(id: u64, x: u32, y: u32) -> Creature {
    newcomer(
        id,
        CreatureKind::Wolf(Wolf { tired_until: 0 }),
        Vec2 { x: (WOLF_LEFT + x) as i32, y: (WOLF_BOTTOM + y) as i32 },
        forest_spec(),
    )
}

/// The new chicken for the drawn numbers `x`, `y` and `door`. It roams in
/// the meadow.
pub open spec fn chicken_at(id: u64, x: u32, y: u32, door: u32) -> Creature {
    let home = Vec2 { x: (CHICKEN_LEFT + x) as i32, y: (PEN_BOTTOM + y) as i32 };
    newcomer(id, CreatureKind::Chicken(at_home(home, CHICKEN_DOOR_LEFT + door)), home, outside_spec())
}

/// The new dog for the drawn numbers `x`, `y` and `door`. It roams in the
/// meadow.
pub open spec fn dog_at(id: u64, x: u32, y: u32, door: u32) -> Creature {
    let home = Vec2 { x: (DOG_LEFT + x) as i32, y: (PEN_BOTTOM + y) as i32 };
    newcomer(id, CreatureKind::Dog(at_home(home, DOG_DOOR_LEFT + door)), home, outside_spec())
}

/// True when the creature is a new wolf named `id`, for some outcome of the
/// draw.
pub open spec fn is_new_wolf(creature: Creature, id: u64) -> bool {
    exists|x: u32, y: u32|
        x < WOLF_WIDTH && y < WOLF_HEIGHT && creature == #[trigger] wolf_at(id, x, y)
}

/// True when the creature is a new chicken named `id`, for some outcome of
/// the draw.
pub open spec fn is_new_chicken(creature: Creature, id: u64) -> bool {
    exists|x: u32, y: u32, door: u32|
        x < PEN_WIDTH && y < PEN_HEIGHT && door < DOOR_WIDTH && creature == #[trigger] chicken_at(
            id,
            x,
            y,
            door,
        )
}

/// True when the creature is a new dog named `id`, for some outcome of the
/// draw.
pub open spec fn is_new_dog(creature: Creature, id: u64) -> bool {
    exists|x: u32, y: u32, door: u32|
        x < PEN_WIDTH && y < PEN_HEIGHT && door < DOOR_WIDTH && creature == #[trigger] dog_at(
            id,
            x,
            y,
            door,
        )
}

fn make(id: u64, kind: CreatureKind, position: Vec2, region: crate::wander::Rect) -> (creature:
    Creature)
    ensures
        creature == newcomer(id, kind, position, region),
{
    Creature {
        id,
        kind,
        position,
        speed: Speed(0),
        ai: AiResult { target_speed: FIRST_TARGET_SPEED, target_dir: Vec2 { x: 0, y: 0 } },
        avoid: CollisionAvoid { getaway: Vec2 { x: 0, y: 0 } },
        wander: Wander { randobjective: None, confined_within: region },
        merge_pending: false,
    }
}

fn settle(home: Vec2, door_x: i32) -> (looker: Looker)
    ensures
        looker == at_home(home, door_x as int),
{
    Looker {
        spawn_point: home,
        spawn_door: Vec2 { x: door_x, y: DOOR_Y },
        state: LookerState::Happy,
        location: LookerLocation::Inside,
    }
}

/// Computes [`wolf_at`].
pub fn new_wolf(id: u64, x: u32, y: u32) -> (creature: Creature)
    requires
        x < WOLF_WIDTH,
        y < WOLF_HEIGHT,
    ensures
        creature == wolf_at(id, x, y),
{
    make(
        id,
        CreatureKind::Wolf(Wolf { tired_until: 0 }),
        Vec2 { x: WOLF_LEFT + x as i32, y: WOLF_BOTTOM + y as i32 },
        forest(),
    )
}

/// Computes [`chicken_at`].
pub fn new_chicken(id: u64, x: u32, y: u32, door: u32) -> (creature: Creature)
    requires
        x < PEN_WIDTH,
        y < PEN_HEIGHT,
        door < DOOR_WIDTH,
    ensures
        creature == chicken_at(id, x, y, door),
{
    let home: Vec2 = Vec2 { x: CHICKEN_LEFT + x as i32, y: PEN_BOTTOM + y as i32 };
    make(id, CreatureKind::Chicken(settle(home, CHICKEN_DOOR_LEFT + door as i32)), home, outside())
}

/// Computes [`dog_at`].
pub fn new_dog(id: u64, x: u32, y: u32, door: u32) -> (creature: Creature)
    requires
        x < PEN_WIDTH,
        y < PEN_HEIGHT,
        door < DOOR_WIDTH,
    ensures
        creature == dog_at(id, x, y, door),
{
    let home: Vec2 = Vec2 { x: DOG_LEFT + x as i32, y: PEN_BOTTOM + y as i32 };
    make(id, CreatureKind::Dog(settle(home, DOG_DOOR_LEFT + door as i32)), home, outside())
}

/// Makes a wolf named `id` at a place drawn at random.
pub fn random_wolf(id: u64) -> (creature: Creature)
    ensures
        is_new_wolf(creature, id),
{
    let x: u32 = random_below(WOLF_WIDTH);
    let y: u32 = random_below(WOLF_HEIGHT);
    new_wolf(id, x, y)
}

/// Makes a chicken named `id` at a place drawn at random.
pub fn random_chicken(id: u64) -> (creature: Creature)
    ensures
        is_new_chicken(creature, id),
{
    let x: u32 = random_below(PEN_WIDTH);
    let y: u32 = random_below(PEN_HEIGHT);
    let door: u32 = random_below(DOOR_WIDTH);
    new_chicken(id, x, y, door)
}

/// Makes a dog named `id` at a place drawn at random.
pub fn random_dog(id: u64) -> (creature: Creature)
    ensures
        is_new_dog(creature, id),
{
    let x: u32 = random_below(PEN_WIDTH);
    let y: u32 = random_below(PEN_HEIGHT);
    let door: u32 = random_below(DOOR_WIDTH);
    new_dog(id, x, y, door)
}

} // verus!
