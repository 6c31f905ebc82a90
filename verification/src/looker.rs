//! The mood and whereabouts of dogs, chickens and hybrids.
//!
//! A looker is happy until a wolf comes near, then scared for a fixed time.
//! It is inside or outside its pen, and changes sides only at its door.

use vstd::prelude::*;
use crate::fixed::{deadline, deadline_spec, Vec2};

verus! {

/// How long a fright lasts, in microseconds.
pub const FRIGHT_TIME: u64 = 10_000_000;

/// How near to its door a looker changes sides.
pub const DOOR_RADIUS: u32 = 20_000;

/// Where a looker is, relative to its pen.
#[derive(Clone, Copy, Debug, PartialEq, Eq, Structural)]
pub enum LookerLocation {
    Inside,
    Outside,
}

/// The mood of a looker. The `Inside` variants are those of an animal that
/// wants to be in its pen; a scared animal remembers when its fright ends.
#[derive(Clone, Copy, Debug, PartialEq, Eq, Structural)]
pub enum LookerState {
    Happy,
    HappyInside,
    Scared { until: u64 },
    ScaredInside { until: u64 },
}

impl LookerState {
    /// True for the two scared variants.
    pub open spec fn is_scared(self) -> bool {
        self is Scared || self is ScaredInside
    }

    /// When the fright ends; zero for a happy looker.
    pub open spec fn until_spec(self) -> u64 {
        match self {
            LookerState::Scared { until } => until,
            LookerState::ScaredInside { until } => until,
            _ => 0,
        }
    }

    /// The mood after a wolf was seen at time `now`: a happy looker becomes
    /// scared until [`FRIGHT_TIME`] later, a scared one stays as it is.
    pub open spec fn frightened(self, now: u64) -> LookerState {
        match self {
            LookerState::Happy => LookerState::Scared { until: deadline_spec(now, FRIGHT_TIME) },
            LookerState::HappyInside => LookerState::ScaredInside {
                until: deadline_spec(now, FRIGHT_TIME),
            },
            LookerState::Scared { until } => self,
            LookerState::ScaredInside { until } => self,
        }
    }

    /// The mood at time `now` with no wolf in sight: a fright that has run out
    /// gives way to the happy variant it came from.
    pub open spec fn calmed(self, now: u64) -> LookerState {
        match self {
            LookerState::Scared { until } => if now >= until {
                LookerState::Happy
            } else {
                self
            },
            LookerState::ScaredInside { until } => if now >= until {
                LookerState::HappyInside
            } else {
                self
            },
            _ => self,
        }
    }

    /// The side of the door that a looker in this mood ends up on when it
    /// passes the door.
    pub open spec fn crossing(self) -> LookerLocation {
        match self {
            LookerState::Happy => LookerLocation::Outside,
            _ => LookerLocation::Inside,
        }
    }

    /// Computes [`LookerState::is_scared`].
    pub fn scared(self) -> (b: bool)
        ensures
            b == self.is_scared(),
    {
        match self {
            LookerState::Scared { .. } => true,
            LookerState::ScaredInside { .. } => true,
            _ => false,
        }
    }

    /// Reacts to a wolf seen at time `now`; see [`LookerState::frightened`].
    pub fn frighten(self, now: u64) -> (next: LookerState)
        ensures
            next == self.frightened(now),
            next.is_scared(),
            self.is_scared() ==> next == self,
            !self.is_scared() ==> next.until_spec() >= now,
    {
        match self {
            LookerState::Happy => LookerState::Scared { until: deadline(now, FRIGHT_TIME) },
            LookerState::HappyInside => LookerState::ScaredInside {
                until: deadline(now, FRIGHT_TIME),
            },
            _ => self,
        }
    }

    /// Lets a fright run out; see [`LookerState::calmed`].
    pub fn calm(self, now: u64) -> (next: LookerState)
        ensures
            next == self.calmed(now),
    {
        match self {
            LookerState::Scared { until } => if now >= until {
                LookerState::Happy
            } else {
                self
            },
            LookerState::ScaredInside { until } => if now >= until {
                LookerState::HappyInside
            } else {
                self
            },
            _ => self,
        }
    }

    /// Computes [`LookerState::crossing`].
    pub fn side_after_door(self) -> (side: LookerLocation)
        ensures
            side == self.crossing(),
    {
        match self {
            LookerState::Happy => LookerLocation::Outside,
            _ => LookerLocation::Inside,
        }
    }
}

/// A second fright changes nothing: once a looker is scared, the end of its
/// fright stays where the first fright put it, however often and whenever a
/// wolf is seen again.
pub proof fn lemma_fright_not_refreshed(state: LookerState, first: u64, again: u64)
    ensures
        state.frightened(first).frightened(again) == state.frightened(first),
        state.is_scared() ==> state.frightened(again) == state,
{
}

/// The end of a fright never lies before the moment it was set.
pub proof fn lemma_fright_ends_later(state: LookerState, now: u64)
    requires
        !state.is_scared(),
    ensures
        state.frightened(now).is_scared(),
        state.frightened(now).until_spec() >= now,
{
}

/// A scared looker stays scared while its time has not come, and is happy
/// again, in the variant it came from, from that moment on.
pub proof fn lemma_fright_runs_out(until: u64, now: u64)
    ensures
        now < until ==> (LookerState::Scared { until }).calmed(now) == (LookerState::Scared {
            until,
        }),
        now < until ==> (LookerState::ScaredInside { until }).calmed(now) == (
        LookerState::ScaredInside { until }),
        now >= until ==> (LookerState::Scared { until }).calmed(now) == LookerState::Happy,
        now >= until ==> (LookerState::ScaredInside { until }).calmed(now)
            == LookerState::HappyInside,
{
}

/// What a dog, a chicken or a hybrid knows of itself: where it was put, where
/// its door is, its mood and its side of the door. The two points are fixed
/// when the animal is made.
#[derive(Clone, Copy, Debug, PartialEq, Eq, Structural)]
pub struct Looker {
    pub spawn_point: Vec2,
    pub spawn_door: Vec2,
    pub state: LookerState,
    pub location: LookerLocation,
}

impl Looker {
    /// The looker one tick later, standing at `pos` at time `now`: its fright
    /// runs out if due, and if it stands at its door it takes the side that
    /// its mood, after that, asks for. The two fixed points stay.
    pub open spec fn ticked(self, now: u64, pos: Vec2) -> Looker {
        let state = self.state.calmed(now);
        Looker {
            spawn_point: self.spawn_point,
            spawn_door: self.spawn_door,
            state,
            location: if self.spawn_door.near(pos, DOOR_RADIUS as int) {
                state.crossing()
            } else {
                self.location
            },
        }
    }

    /// The looker after a wolf was seen at time `now`.
    pub open spec fn frightened(self, now: u64) -> Looker {
        Looker {
            spawn_point: self.spawn_point,
            spawn_door: self.spawn_door,
            state: self.state.frightened(now),
            location: self.location,
        }
    }

    /// Computes [`Looker::ticked`].
    pub fn tick(self, now: u64, pos: Vec2) -> (next: Looker)
        ensures
            next == self.ticked(now, pos),
    {
        let state: LookerState = self.state.calm(now);
        let location: LookerLocation = if self.spawn_door.is_near(pos, DOOR_RADIUS) {
            state.side_after_door()
        } else {
            self.location
        };
        Looker { spawn_point: self.spawn_point, spawn_door: self.spawn_door, state, location }
    }

    /// Computes [`Looker::frightened`].
    pub fn frighten(self, now: u64) -> (next: Looker)
        ensures
            next == self.frightened(now),
    {
        Looker {
            spawn_point: self.spawn_point,
            spawn_door: self.spawn_door,
            state: self.state.frighten(now),
            location: self.location,
        }
    }
}

} // verus!
