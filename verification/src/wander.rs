//! Roaming: a target a fixed stride away in a random direction, kept inside a
//! region, and chosen anew when it is reached or left behind.

use vstd::prelude::*;
use crate::fixed::{saturate, saturate_i32, unit_toward, Vec2};
use crate::rng::random_below;

verus! {

/// A target nearer than this counts as reached.
pub const ARRIVE_RADIUS: u32 = 5_000;

/// A target farther than this is given up.
pub const STRAY_RADIUS: u32 = 70_000;

/// How far away a new target is put, in whole units.
pub const STRIDE: i32 = 70;

/// The two numbers that choose a direction are drawn below this; half of it
/// is taken off each.
pub const SPREAD: u32 = 1000;

/// A rectangle with its sides along the axes; the sides belong to it.
#[derive(Clone, Copy, Debug, PartialEq, Eq, Structural)]
pub struct Rect {
    pub left: i32,
    pub right: i32,
    pub top: i32,
    pub bottom: i32,
}

impl Rect {
    /// True when `p` lies in the rectangle or on its sides.
    pub open spec fn contains(self, p: Vec2) -> bool {
        &&& p.y >= self.bottom
        &&& p.y <= self.top
        &&& p.x >= self.left
        &&& p.x <= self.right
    }

    /// Computes [`Rect::contains`].
    pub fn has(self, p: Vec2) -> (b: bool)
        ensures
            b == self.contains(p),
    {
        p.y >= self.bottom && p.y <= self.top && p.x >= self.left && p.x <= self.right
    }
}

/// The region in which dogs and chickens roam: the meadow above the pens.
pub open spec fn outside_spec() -> Rect {
    Rect { left: (-1_000_000) as i32, right: 1_000_000, top: 1_000_000, bottom: (-650_000) as i32 }
}

/// The region in which hybrids roam: the middle pen.
pub open spec fn dogchick_enclot_spec() -> Rect {
    Rect { left: (-217_000) as i32, right: 217_000, top: (-720_000) as i32, bottom: (-1_000_000) as i32 }
}

/// The region in which wolves roam.
pub open spec fn forest_spec() -> Rect {
    Rect { left: (-780_000) as i32, right: 780_000, top: 615_000, bottom: 140_000 }
}

/// Gives [`outside_spec`].
pub fn outside() -> (r: Rect)
    ensures
        r == outside_spec(),
{
    Rect { left: -1_000_000, right: 1_000_000, top: 1_000_000, bottom: -650_000 }
}

/// Gives [`dogchick_enclot_spec`].
pub fn dogchick_enclot() -> (r: Rect)
    ensures
        r == dogchick_enclot_spec(),
{
    Rect { left: -217_000, right: 217_000, top: -720_000, bottom: -1_000_000 }
}

/// Gives [`forest_spec`].
pub fn forest() -> (r: Rect)
    ensures
        r == forest_spec(),
{
    Rect { left: -780_000, right: 780_000, top: 615_000, bottom: 140_000 }
}

/// The roaming target of a creature, if it has one, and the region that the
/// target must lie in.
#[derive(Clone, Copy, Debug, PartialEq, Eq, Structural)]
pub struct Wander {
    pub randobjective: Option<Vec2>,
    pub confined_within: Rect,
}

/// The point one stride from `pos` in the direction chosen by the two drawn
/// numbers, or nothing where they choose no direction.
pub open spec fn stride_from(pos: Vec2, rx: u32, ry: u32) -> Option<Vec2> {
    let dir = unit_toward(rx - SPREAD / 2, ry - SPREAD / 2);
    if dir.x == 0 && dir.y == 0 {
        None
    } else {
        Some(Vec2 { x: saturate(pos.x + dir.x * STRIDE), y: saturate(pos.y + dir.y * STRIDE) })
    }
}

impl Wander {
    /// True when a creature at `pos` needs a new target: it has none, has
    /// reached the one it has, or has strayed too far from it.
    pub open spec fn wants_target(self, pos: Vec2) -> bool {
        match self.randobjective {
            None => true,
            Some(t) => t.near(pos, ARRIVE_RADIUS as int) || t.dist2(pos) > STRAY_RADIUS
                * STRAY_RADIUS,
        }
    }

    /// The target that a creature at `pos` steers for: its roaming target, or
    /// the place where it stands.
    pub open spec fn target_or(self, pos: Vec2) -> Vec2 {
        match self.randobjective {
            Some(t) => t,
            None => pos,
        }
    }

    /// The roaming state of a creature at `pos` after an update for which
    /// `rx` and `ry` were drawn: where a new target is wanted, the point one
    /// stride away becomes the target if it lies in the region; in every
    /// other case nothing changes.
    pub open spec fn updated(self, pos: Vec2, rx: u32, ry: u32) -> Wander {
        if self.wants_target(pos) {
            match stride_from(pos, rx, ry) {
                Some(p) => if self.confined_within.contains(p) {
                    Wander { randobjective: Some(p), confined_within: self.confined_within }
                } else {
                    self
                },
                None => self,
            }
        } else {
            self
        }
    }

    /// Computes [`Wander::wants_target`].
    pub fn needs_target(&self, pos: Vec2) -> (b: bool)
        ensures
            b == self.wants_target(pos),
    {
        match self.randobjective {
            None => true,
            Some(t) => {
                let far: i128 = STRAY_RADIUS as i128;
                assert(far * far == STRAY_RADIUS * STRAY_RADIUS == 4_900_000_000)
                    by (nonlinear_arith)
                    requires
                        far == STRAY_RADIUS == 70_000,
                ;
                t.is_near(pos, ARRIVE_RADIUS) || t.distance_squared(pos) > far * far
            },
        }
    }

    /// Computes [`Wander::target_or`].
    pub fn objective(&self, pos: Vec2) -> (p: Vec2)
        ensures
            p == self.target_or(pos),
    {
        match self.randobjective {
            Some(t) => t,
            None => pos,
        }
    }

    /// Computes [`Wander::updated`] from two numbers drawn below [`SPREAD`].
    pub fn update_with(&self, pos: Vec2, rx: u32, ry: u32) -> (next: Wander)
        requires
            rx < SPREAD,
            ry < SPREAD,
        ensures
            next == self.updated(pos, rx, ry),
            next.confined_within == self.confined_within,
            next.randobjective != self.randobjective ==> self.wants_target(pos) && match next.randobjective {
                Some(p) => self.confined_within.contains(p),
                None => false,
            },
    {
        if !self.needs_target(pos) {
            return *self;
        }
        let centre: Vec2 = Vec2 { x: 500, y: 500 };
        let drawn: Vec2 = Vec2 { x: rx as i32, y: ry as i32 };
        let dir: Vec2 = centre.direction_to(drawn);
        if dir.x == 0 && dir.y == 0 {
            return *self;
        }
        assert(dir.x * dir.x <= 1_000_000 && dir.y * dir.y <= 1_000_000) by (nonlinear_arith)
            requires
                dir.x * dir.x + dir.y * dir.y <= 1000 * 1000,
        ;
        assert(-1000 <= dir.x <= 1000) by (nonlinear_arith)
            requires
                dir.x * dir.x <= 1_000_000,
        ;
        assert(-1000 <= dir.y <= 1000) by (nonlinear_arith)
            requires
                dir.y * dir.y <= 1_000_000,
        ;
        assert(dir.x * STRIDE == 70 * dir.x && dir.y * STRIDE == 70 * dir.y) by (nonlinear_arith)
            requires
                STRIDE == 70,
        ;
        let p: Vec2 = Vec2 {
            x: saturate_i32(pos.x as i128 + 70 * (dir.x as i128)),
            y: saturate_i32(pos.y as i128 + 70 * (dir.y as i128)),
        };
        if self.confined_within.has(p) {
            Wander { randobjective: Some(p), confined_within: self.confined_within }
        } else {
            *self
        }
    }

    /// Updates the roaming target of a creature at `pos`, drawing the
    /// direction at random: the result is [`Wander::updated`] for some two
    /// numbers below [`SPREAD`].
    pub fn update(&self, pos: Vec2) -> (next: Wander)
        ensures
            exists|rx: u32, ry: u32|
                rx < SPREAD && ry < SPREAD && next == #[trigger] self.updated(pos, rx, ry),
            next.confined_within == self.confined_within,
            !self.wants_target(pos) ==> next == *self,
    {
        let rx: u32 = random_below(SPREAD);
        let ry: u32 = random_below(SPREAD);
        self.update_with(pos, rx, ry)
    }
}

} // verus!
