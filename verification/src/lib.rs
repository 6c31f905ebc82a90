//! Fixed-point simulation core of a small herding game: wolves chase dogs and
//! chickens, frightened animals run home, and a dog and a chicken that meet
//! merge into one hybrid creature.
//!
//! Every quantity is an integer. Lengths and positions count thousandths of a
//! world unit, directions are vectors of length one thousand, speeds count
//! thousandths of a unit per second, and time counts microseconds. No
//! function of the library panics or overflows on what its contract admits,
//! and most admit everything.
//!
//! The numbers and vectors are in [`fixed`]. A creature and its parts are in
//! [`creature`], [`looker`], [`planner`], [`steering`] and [`wander`]. The
//! passes of a tick over the whole herd are in [`herd`], [`fright`], [`ai`],
//! [`merge`] and [`hybrid`], and read the snapshot kept by [`spatial`];
//! [`world`] and [`tick`] put them together, and [`census`] holds what stays
//! true of the world from tick to tick. Around the simulation stand
//! [`score`], [`sound`], [`input`], [`scenery`], [`panels`] and
//! [`leaderboard`].

pub mod ai;
pub mod census;
pub mod creature;
pub mod fixed;
pub mod fright;
pub mod herd;
pub mod hunt;
pub mod hybrid;
pub mod input;
pub mod leaderboard;
pub mod looker;
pub mod merge;
pub mod panels;
pub mod planner;
pub mod repulsion;
mod rng;
pub mod scenery;
pub mod score;
pub mod sound;
pub mod spatial;
pub mod spawn;
pub mod steering;
pub mod tick;
pub mod wander;
pub mod world;
