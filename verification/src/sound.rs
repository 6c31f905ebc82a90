//! Which sounds are due: a cry when an animal is startled, and a call when
//! the player's hand first comes over a chicken or a dog.

use vstd::prelude::*;
use crate::creature::{Creature, CreatureKind};
use crate::fright::ThreatTriggered;
use crate::looker::{LookerLocation, LookerState};
use crate::planner::{MouseProj, HAND_SIZE};

verus! {

/// What is remembered from tick to tick for the sounds: whether a chicken or
/// another animal has been startled since the last cry, and which chickens
/// and dogs the hand was over in the last tick, by their names.
#[derive(Debug, PartialEq, Eq)]
pub struct SoundState {
    pub new_scared_chicken: bool,
    pub new_scared_dog: bool,
    pub hand_state_chick: Vec<u64>,
    pub hand_state_dog: Vec<u64>,
}

/// The sounds that are due in this tick.
#[derive(Clone, Copy, Debug, PartialEq, Eq, Structural)]
pub struct SoundCues {
    pub scared_chicken: bool,
    pub scared_dog: bool,
    pub chicken_call: bool,
    pub dog_bark: bool,
}

/// True when the hand is over the creature: a chicken, if `chicken` is set,
/// or else a dog, that takes part, is happy and outside, and is nearer to the
/// hand than [`HAND_SIZE`].
pub open spec fn under_hand(creature: Creature, hand: MouseProj, chicken: bool) -> bool {
    &&& if chicken {
        creature.kind is Chicken
    } else {
        creature.kind is Dog
    }
    &&& match creature.active_looker() {
        Some(looker) => looker.location is Outside && looker.state is Happy,
        None => false,
    }
    &&& creature.position.near(hand.0, HAND_SIZE as int)
}

/// The names of the creatures that the hand is over, in the order of the herd.
pub open spec fn held(herd: Seq<Creature>, hand: MouseProj, chicken: bool) -> Seq<u64>
    decreases herd.len(),
{
    if herd.len() == 0 {
        Seq::empty()
    } else {
        let rest = held(herd.drop_last(), hand, chicken);
        if under_hand(herd.last(), hand, chicken) {
            rest.push(herd.last().id)
        } else {
            rest
        }
    }
}

/// True when the hand is over a creature that it was not over before.
pub open spec fn newly_held(before: Seq<u64>, now: Seq<u64>) -> bool {
    exists|k: int| 0 <= k < now.len() && !before.contains(#[trigger] now[k])
}

/// True when one of the startled animals is a chicken, if `chicken` is set,
/// or else is none.
pub open spec fn any_startled(frights: Seq<ThreatTriggered>, chicken: bool) -> bool {
    exists|k: int| 0 <= k < frights.len() && (#[trigger] frights[k]).chicken == chicken
}

/// Computes [`under_hand`].
pub fn is_under_hand(creature: &Creature, hand: MouseProj, chicken: bool) -> (b: bool)
    ensures
        b == under_hand(*creature, hand, chicken),
{
    if creature.merge_pending {
        return false;
    }
    let looker = match creature.kind {
        CreatureKind::Chicken(l) => {
            if !chicken {
                return false;
            }
            l
        },
        CreatureKind::Dog(l) => {
            if chicken {
                return false;
            }
            l
        },
        _ => {
            return false;
        },
    };
    match looker.location {
        LookerLocation::Inside => {
            return false;
        },
        LookerLocation::Outside => {},
    }
    match looker.state {
        LookerState::Happy => creature.position.is_near(hand.0, HAND_SIZE),
        _ => false,
    }
}

/// Computes [`held`].
pub fn find_held(herd: &Vec<Creature>, hand: MouseProj, chicken: bool) -> (names: Vec<u64>)
    ensures
        names@ == held(herd@, hand, chicken),
{
    let mut names: Vec<u64> = Vec::new();
    let mut k: usize = 0;
    assert(herd@.take(0) == Seq::<Creature>::empty());
    while k < herd.len()
        invariant
            k <= herd.len(),
            names@ == held(herd@.take(k as int), hand, chicken),
        decreases herd.len() - k,
    {
        assert(herd@.take(k + 1).drop_last() == herd@.take(k as int));
        if is_under_hand(&herd[k], hand, chicken) {
            names.push(herd[k].id);
        }
        k += 1;
    }
    assert(herd@.take(k as int) == herd@);
    names
}

fn has_name(names: &Vec<u64>, name: u64) -> (b: bool)
    ensures
        b == names@.contains(name),
{
    let mut k: usize = 0;
    while k < names.len()
        invariant
            k <= names.len(),
            forall|j: int| 0 <= j < k ==> names@[j] != name,
        decreases names.len() - k,
    {
        if names[k] == name {
            return true;
        }
        k += 1;
    }
    false
}

/// Computes [`newly_held`].
pub fn is_newly_held(before: &Vec<u64>, now: &Vec<u64>) -> (b: bool)
    ensures
        b == newly_held(before@, now@),
{
    let mut k: usize = 0;
    while k < now.len()
        invariant
            k <= now.len(),
            forall|j: int| 0 <= j < k ==> before@.contains(#[trigger] now@[j]),
        decreases now.len() - k,
    {
        if !has_name(before, now[k]) {
            return true;
        }
        k += 1;
    }
    false
}

impl SoundState {
    /// The state in which nothing is remembered.
    pub fn new() -> (state: SoundState)
        ensures
            !state.new_scared_chicken,
            !state.new_scared_dog,
            state.hand_state_chick@.len() == 0,
            state.hand_state_dog@.len() == 0,
    {
        SoundState {
            new_scared_chicken: false,
            new_scared_dog: false,
            hand_state_chick: Vec::new(),
            hand_state_dog: Vec::new(),
        }
    }

    /// Takes note of the animals that were startled: a chicken among them
    /// asks for the cry of a chicken, any other animal for the cry of a dog.
    pub fn hear(&mut self, frights: &Vec<ThreatTriggered>)
        ensures
            final(self).new_scared_chicken == (old(self).new_scared_chicken || any_startled(
                frights@,
                true,
            )),
            final(self).new_scared_dog == (old(self).new_scared_dog || any_startled(
                frights@,
                false,
            )),
            final(self).hand_state_chick == old(self).hand_state_chick,
            final(self).hand_state_dog == old(self).hand_state_dog,
    {
        let mut chicken: bool = false;
        let mut other: bool = false;
        let mut k: usize = 0;
        while k < frights.len()
            invariant
                k <= frights.len(),
                chicken == any_startled(frights@.take(k as int), true),
                other == any_startled(frights@.take(k as int), false),
            decreases frights.len() - k,
        {
            let ghost seen = frights@.take(k as int);
            let ghost more = frights@.take(k + 1);
            proof {
                assert(more[k as int] == frights@[k as int]);
                assert forall|flag: bool|
                    any_startled(more, flag) == (any_startled(seen, flag) || frights@[k as int].chicken
                        == flag) by {
                    if any_startled(seen, flag) {
                        let j = choose|j: int|
                            0 <= j < seen.len() && (#[trigger] seen[j]).chicken == flag;
                        assert(more[j] == seen[j]);
                    }
                    if any_startled(more, flag) {
                        let j = choose|j: int|
                            0 <= j < more.len() && (#[trigger] more[j]).chicken == flag;
                        if j < k {
                            assert(seen[j] == more[j]);
                        }
                    }
                }
            }
            if frights[k].chicken {
                chicken = true;
            } else {
                other = true;
            }
            k += 1;
        }
        assert(frights@.take(k as int) == frights@);
        if chicken {
            self.new_scared_chicken = true;
        }
        if other {
            self.new_scared_dog = true;
        }
    }
}

/// Tells which sounds are due, and remembers what is needed for the next
/// tick.
///
/// A cry is due for each kind that has been startled since the last cry; that
/// is then forgotten. A call is due when the hand is over a chicken that it
/// was not over in the last tick, and a bark likewise for a dog; the creatures
/// that the hand is over now are remembered in place of the earlier ones.
pub fn sound_update(state: &mut SoundState, herd: &Vec<Creature>, hand: MouseProj) -> (cues:
    SoundCues)
    ensures
        cues.scared_chicken == old(state).new_scared_chicken,
        cues.scared_dog == old(state).new_scared_dog,
        cues.chicken_call == newly_held(old(state).hand_state_chick@, held(herd@, hand, true)),
        cues.dog_bark == newly_held(old(state).hand_state_dog@, held(herd@, hand, false)),
        !final(state).new_scared_chicken,
        !final(state).new_scared_dog,
        final(state).hand_state_chick@ == held(herd@, hand, true),
        final(state).hand_state_dog@ == held(herd@, hand, false),
{
    let chicks: Vec<u64> = find_held(herd, hand, true);
    let dogs: Vec<u64> = find_held(herd, hand, false);
    let cues: SoundCues = SoundCues {
        scared_chicken: state.new_scared_chicken,
        scared_dog: state.new_scared_dog,
        chicken_call: is_newly_held(&state.hand_state_chick, &chicks),
        dog_bark: is_newly_held(&state.hand_state_dog, &dogs),
    };
    state.new_scared_chicken = false;
    state.new_scared_dog = false;
    state.hand_state_chick = chicks;
    state.hand_state_dog = dogs;
    cues
}

} // verus!
