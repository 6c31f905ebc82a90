//! The state pass: wolves frighten the lookers near them.

use vstd::prelude::*;
use crate::creature::{Creature, CreatureKind};
use crate::herd::{lemma_hit_is_tracked, lemma_tracked_is_hit, tracks};
use crate::looker::LookerState;
use crate::spatial::{in_reach, Entry, SpatialIndex};

verus! {

/// A wolf nearer than this frightens.
pub const THREAT_RADIUS: u32 = 150_000;

/// Tells that a happy looker has just been frightened: which one, and
/// whether it is a chicken, which cries otherwise than the others.
#[derive(Clone, Copy, Debug, PartialEq, Eq, Structural)]
pub struct ThreatTriggered {
    pub creature_id: u64,
    pub chicken: bool,
}

/// True when some wolf of the herd is nearer than [`THREAT_RADIUS`] to
/// creature `k`, by the places in the snapshot.
pub open spec fn threatened(herd: Seq<Creature>, snap: Seq<Entry>, k: int) -> bool {
    exists|w: int|
        0 <= w < herd.len() && (#[trigger] herd[w]).kind is Wolf && snap[k].position.near(
            snap[w].position,
            THREAT_RADIUS as int,
        )
}

/// The creature after the state pass at time `now`, where `wolf_near` says
/// whether a wolf is near it: a looker that still takes part and has a wolf
/// near is frightened, which changes nothing if it is scared already. Wolves,
/// creatures chosen for a merge and creatures with no wolf near stay as they
/// are.
pub open spec fn frightened_if(creature: Creature, wolf_near: bool, now: u64) -> Creature {
    match creature.active_looker() {
        Some(looker) => if wolf_near {
            Creature { kind: creature.kind.with_looker_spec(looker.frightened(now)), ..creature }
        } else {
            creature
        },
        None => creature,
    }
}

/// True when the state pass turns the creature from happy, in the variant
/// that wants to be outside, to scared.
pub open spec fn startled(creature: Creature, wolf_near: bool) -> bool {
    wolf_near && match creature.active_looker() {
        Some(looker) => looker.state is Happy,
        None => false,
    }
}

/// The events of the state pass for the first `n` creatures of the herd: one
/// for each creature that was startled, in the order of the herd.
pub open spec fn startled_events(herd: Seq<Creature>, snap: Seq<Entry>, n: int) -> Seq<
    ThreatTriggered,
>
    decreases n,
{
    if n <= 0 {
        Seq::empty()
    } else {
        let rest = startled_events(herd, snap, n - 1);
        if startled(herd[n - 1], threatened(herd, snap, n - 1)) {
            rest.push(
                ThreatTriggered {
                    creature_id: herd[n - 1].id,
                    chicken: herd[n - 1].kind is Chicken,
                },
            )
        } else {
            rest
        }
    }
}

/// Computes [`threatened`] with one query of the index.
pub fn wolf_near(herd: &Vec<Creature>, index: &SpatialIndex, k: usize) -> (b: bool)
    requires
        tracks(index@, herd@),
        k < herd@.len(),
    ensures
        b == threatened(herd@, index@, k as int),
{
    let me: Entry = index.entry(k);
    let hits: Vec<Entry> = index.query_radius(me.position, THREAT_RADIUS);
    let ghost pred = in_reach(me.position, THREAT_RADIUS as int);
    let mut h: usize = 0;
    while h < hits.len()
        invariant
            h <= hits.len(),
            tracks(index@, herd@),
            hits@.to_multiset() == index@.filter(pred).to_multiset(),
            pred == in_reach(me.position, THREAT_RADIUS as int),
            me == index@[k as int],
            forall|j: int| 0 <= j < h ==> !(herd@[(#[trigger] hits@[j]).id as int].kind is Wolf),
        decreases hits.len() - h,
    {
        let e: Entry = hits[h];
        proof {
            assert(hits@.contains(e));
            lemma_hit_is_tracked(index@, hits@, pred, e);
        }
        match herd[e.id].kind {
            CreatureKind::Wolf(_) => {
                assert(herd@[e.id as int].kind is Wolf);
                return true;
            },
            _ => {},
        }
        h += 1;
    }
    proof {
        if threatened(herd@, index@, k as int) {
            let w = choose|w: int|
                0 <= w < herd@.len() && (#[trigger] herd@[w]).kind is Wolf
                    && index@[k as int].position.near(index@[w].position, THREAT_RADIUS as int);
            lemma_tracked_is_hit(index@, hits@, pred, w);
            let j = choose|j: int| 0 <= j < hits@.len() && hits@[j] == index@[w];
            assert(hits@[j].id == w);
        }
    }
    false
}

/// The state pass at time `now`: frightens every looker that has a wolf near,
/// and tells which of them were startled.
pub fn fright_pass(herd: &mut Vec<Creature>, index: &SpatialIndex, now: u64) -> (events: Vec<
    ThreatTriggered,
>)
    requires
        tracks(index@, old(herd)@),
    ensures
        final(herd)@.len() == old(herd)@.len(),
        forall|k: int|
            0 <= k < old(herd)@.len() ==> #[trigger] final(herd)@[k] == frightened_if(
                old(herd)@[k],
                threatened(old(herd)@, index@, k),
                now,
            ),
        events@ == startled_events(old(herd)@, index@, old(herd)@.len() as int),
{
    let n: usize = herd.len();
    let mut events: Vec<ThreatTriggered> = Vec::new();
    let mut k: usize = 0;
    while k < n
        invariant
            k <= n,
            n == herd@.len() == old(herd)@.len(),
            tracks(index@, old(herd)@),
            forall|j: int|
                0 <= j < k ==> #[trigger] herd@[j] == frightened_if(
                    old(herd)@[j],
                    threatened(old(herd)@, index@, j),
                    now,
                ),
            forall|j: int| k <= j < n ==> #[trigger] herd@[j] == old(herd)@[j],
            events@ == startled_events(old(herd)@, index@, k as int),
        decreases n - k,
    {
        let creature: Creature = herd[k];
        proof {
            lemma_same_wolves(old(herd)@, herd@, index@, k as int, now);
        }
        if !creature.merge_pending {
            match creature.kind.looker() {
                Some(looker) => {
                    if wolf_near(herd, index, k) {
                        match looker.state {
                            LookerState::Happy => {
                                let chicken: bool = match creature.kind {
                                    CreatureKind::Chicken(_) => true,
                                    _ => false,
                                };
                                events.push(ThreatTriggered { creature_id: creature.id, chicken });
                            },
                            _ => {},
                        }
                        let next: Creature = Creature {
                            id: creature.id,
                            kind: creature.kind.with_looker(looker.frighten(now)),
                            position: creature.position,
                            speed: creature.speed,
                            ai: creature.ai,
                            avoid: creature.avoid,
                            wander: creature.wander,
                            merge_pending: creature.merge_pending,
                        };
                        herd.set(k, next);
                    }
                },
                None => {},
            }
        }
        k += 1;
    }
    events
}

/// A herd in the middle of the state pass has its wolves where the herd had
/// them when the pass began, so the same creatures are threatened.
proof fn lemma_same_wolves(before: Seq<Creature>, herd: Seq<Creature>, snap: Seq<Entry>, k: int, now: u64)
    requires
        before.len() == herd.len(),
        forall|j: int|
            0 <= j < herd.len() ==> #[trigger] herd[j] == before[j] || herd[j] == frightened_if(
                before[j],
                threatened(before, snap, j),
                now,
            ),
    ensures
        threatened(herd, snap, k) == threatened(before, snap, k),
{
    assert forall|w: int| 0 <= w < herd.len() implies (#[trigger] herd[w]).kind is Wolf
        == before[w].kind is Wolf by {
        assert(herd[w] == before[w] || herd[w] == frightened_if(
            before[w],
            threatened(before, snap, w),
            now,
        ));
    }
    if threatened(herd, snap, k) {
        let w = choose|w: int|
            0 <= w < herd.len() && (#[trigger] herd[w]).kind is Wolf && snap[k].position.near(
                snap[w].position,
                THREAT_RADIUS as int,
            );
        assert(before[w].kind is Wolf);
    }
    if threatened(before, snap, k) {
        let w = choose|w: int|
            0 <= w < before.len() && (#[trigger] before[w]).kind is Wolf && snap[k].position.near(
                snap[w].position,
                THREAT_RADIUS as int,
            );
        assert(herd[w].kind is Wolf);
    }
}

/// The herd after the state pass at time `now`.
pub open spec fn herd_frightened(herd: Seq<Creature>, snap: Seq<Entry>, now: u64) -> Seq<Creature> {
    Seq::new(herd.len(), |k: int| frightened_if(herd[k], threatened(herd, snap, k), now))
}

/// A second state pass on the same snapshot, at whatever time, changes
/// nothing: whoever had a wolf near is scared already, and keeps the end of
/// its fright.
pub proof fn lemma_second_pass_changes_nothing(
    herd: Seq<Creature>,
    snap: Seq<Entry>,
    first: u64,
    again: u64,
)
    ensures
        herd_frightened(herd_frightened(herd, snap, first), snap, again) == herd_frightened(
            herd,
            snap,
            first,
        ),
{
    let once = herd_frightened(herd, snap, first);
    let twice = herd_frightened(once, snap, again);
    assert forall|k: int| 0 <= k < herd.len() implies twice[k] == once[k] by {
        lemma_same_wolves(herd, once, snap, k, first);
    }
    assert(twice =~= once);
}

/// Frightening twice in one tick is frightening once: a second state pass at
/// any time leaves a creature that the first has frightened as it is, and so
/// also the end of its fright.
pub proof fn lemma_fright_pass_idempotent(creature: Creature, first: u64, again: u64)
    ensures
        frightened_if(frightened_if(creature, true, first), true, again) == frightened_if(
            creature,
            true,
            first,
        ),
{
}

} // verus!
