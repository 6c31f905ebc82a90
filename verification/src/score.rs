//! The score, and when the game is over.

use vstd::prelude::*;
use crate::fixed::{deadline, deadline_spec, saturate, saturate_i32};

verus! {

/// How long a game lasts, in microseconds.
pub const GAME_TIME: u64 = 300_000_000;

/// What one hybrid is worth.
pub const MERGE_POINTS: i32 = 100;

/// The points made so far, and the time at which the game ends.
#[derive(Clone, Copy, Debug, PartialEq, Eq, Structural)]
pub struct Score {
    pub score: i32,
    pub time_end: u64,
}

/// What the player is doing.
#[derive(Clone, Copy, Debug, PartialEq, Eq, Structural)]
pub enum GameState {
    Menu,
    Playing,
    EndGamePlaying,
    EndGame,
}

impl Score {
    /// The score of a game that starts at `start`: no points, and
    /// [`GAME_TIME`] to play.
    pub fn new(start: u64) -> (score: Score)
        ensures
            score == (Score { score: 0, time_end: deadline_spec(start, GAME_TIME) }),
    {
        Score { score: 0, time_end: deadline(start, GAME_TIME) }
    }

    /// The score after `hatched` hybrids have appeared while the player was in
    /// `state`: [`MERGE_POINTS`] more for each while a game is played, up to
    /// the largest number of points there is; the same at any other time.
    pub open spec fn after_merges(self, state: GameState, hatched: nat) -> Score {
        if state is Playing {
            Score { score: saturate(self.score + MERGE_POINTS * hatched), time_end: self.time_end }
        } else {
            self
        }
    }

    /// What the player is doing at time `now`, having been in `state`: a game
    /// that is played is over once its time has passed; nothing else changes.
    pub open spec fn state_at(self, state: GameState, now: u64) -> GameState {
        if state is Playing && now > self.time_end {
            GameState::EndGame
        } else {
            state
        }
    }
}

impl Default for Score {
    fn default() -> (score: Score)
        ensures
            score == (Score { score: 0, time_end: 0 }),
    {
        Score { score: 0, time_end: 0 }
    }
}

/// Ends the game when its time has passed; see [`Score::state_at`].
pub fn game_over_system(score: &Score, state: GameState, now: u64) -> (next: GameState)
    ensures
        next == score.state_at(state, now),
{
    match state {
        GameState::Playing => if now > score.time_end {
            GameState::EndGame
        } else {
            state
        },
        _ => state,
    }
}

/// Counts the hybrids that have appeared; see [`Score::after_merges`].
pub fn score_merge(score: &mut Score, state: GameState, hatched: usize)
    ensures
        *final(score) == old(score).after_merges(state, hatched as nat),
{
    match state {
        GameState::Playing => {
            let count: i128 = hatched as i128;
            let gain: i128 = 100 * count;
            assert(gain == MERGE_POINTS * hatched);
            score.score = saturate_i32(score.score as i128 + gain);
        },
        _ => {},
    }
}

} // verus!
