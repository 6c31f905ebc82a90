//! The merge pass: a dog and a chicken that meet are chosen to become one
//! hybrid.
//!
//! A creature is chosen at most once in its life. Once chosen it is marked,
//! and no later pass chooses it again.

use vstd::prelude::*;
use crate::creature::Creature;
use crate::herd::{lemma_hit_is_tracked, lemma_tracked_is_hit, tracks};
use crate::spatial::{in_reach, Entry, SpatialIndex};

verus! {

/// A dog and a chicken nearer than this merge.
pub const MERGE_RADIUS: u32 = 20_000;

/// Two creatures of the herd that were chosen to merge, by their places in the
/// herd.
#[derive(Clone, Copy, Debug, PartialEq, Eq, Structural)]
pub struct Merge {
    pub first: usize,
    pub second: usize,
}

/// True when creatures `i` and `j` of the herd may merge: they are a dog and a
/// chicken, neither has been chosen before, and by the snapshot they are
/// nearer than [`MERGE_RADIUS`].
pub open spec fn eligible(herd: Seq<Creature>, snap: Seq<Entry>, i: int, j: int) -> bool {
    &&& 0 <= i < herd.len()
    &&& 0 <= j < herd.len()
    &&& !herd[i].merge_pending
    &&& !herd[j].merge_pending
    &&& herd[i].kind.mates_with(herd[j].kind)
    &&& snap[i].position.near(snap[j].position, MERGE_RADIUS as int)
}

/// True when creature `k` is one of a chosen pair.
pub open spec fn chosen(merges: Seq<Merge>, k: int) -> bool {
    exists|m: int|
        0 <= m < merges.len() && ((#[trigger] merges[m]).first == k || merges[m].second == k)
}

/// True when no creature is in two of the pairs.
pub open spec fn disjoint(merges: Seq<Merge>) -> bool {
    forall|m1: int, m2: int|
        0 <= m1 < m2 < merges.len() ==> {
            &&& (#[trigger] merges[m1]).first != (#[trigger] merges[m2]).first
            &&& merges[m1].first != merges[m2].second
            &&& merges[m1].second != merges[m2].first
            &&& merges[m1].second != merges[m2].second
        }
}

/// The creature, marked as chosen if `pending` says so. A mark that it has
/// stays.
pub open spec fn marked(creature: Creature, pending: bool) -> Creature {
    Creature { merge_pending: creature.merge_pending || pending, ..creature }
}

/// Of two creatures that may merge when a merge pass begins, at least one is
/// chosen in that pass.
pub proof fn lemma_meeting_pair_merges(
    before: Seq<Creature>,
    after: Seq<Creature>,
    snap: Seq<Entry>,
    merges: Seq<Merge>,
    i: int,
    j: int,
)
    requires
        after.len() == before.len(),
        forall|k: int|
            0 <= k < before.len() ==> #[trigger] after[k] == marked(before[k], chosen(merges, k)),
        forall|a: int, b: int| !eligible(after, snap, a, b),
        eligible(before, snap, i, j),
    ensures
        chosen(merges, i) || chosen(merges, j),
        merges.len() > 0,
{
    assert(after[i] == marked(before[i], chosen(merges, i)));
    assert(after[j] == marked(before[j], chosen(merges, j)));
    assert(!eligible(after, snap, i, j));
}

proof fn lemma_chosen_push(merges: Seq<Merge>, pair: Merge, k: int)
    ensures
        chosen(merges.push(pair), k) == (chosen(merges, k) || pair.first == k || pair.second == k),
{
    let more = merges.push(pair);
    if chosen(merges, k) {
        let m = choose|m: int|
            0 <= m < merges.len() && ((#[trigger] merges[m]).first == k || merges[m].second == k);
        assert(more[m] == merges[m]);
    }
    if pair.first == k || pair.second == k {
        assert(more[merges.len() as int] == pair);
    }
    if chosen(more, k) {
        let m = choose|m: int|
            0 <= m < more.len() && ((#[trigger] more[m]).first == k || more[m].second == k);
        if m < merges.len() {
            assert(more[m] == merges[m]);
        }
    }
}

/// The merge pass. It goes through the herd in order and, for each creature
/// that may still merge, through its neighbours as the index gives them, and
/// chooses the first pair that may merge.
///
/// Every chosen pair was eligible when the pass began, no creature is chosen
/// twice, the chosen creatures and no others are newly marked, and when the
/// pass is over no two creatures of the herd are left that may merge.
pub fn merge_pass(herd: &mut Vec<Creature>, index: &SpatialIndex) -> (merges: Vec<Merge>)
    requires
        tracks(index@, old(herd)@),
    ensures
        final(herd)@.len() == old(herd)@.len(),
        forall|k: int|
            0 <= k < old(herd)@.len() ==> #[trigger] final(herd)@[k] == marked(
                old(herd)@[k],
                chosen(merges@, k),
            ),
        forall|m: int|
            0 <= m < merges@.len() ==> eligible(
                old(herd)@,
                index@,
                (#[trigger] merges@[m]).first as int,
                merges@[m].second as int,
            ),
        disjoint(merges@),
        forall|i: int, j: int| !eligible(final(herd)@, index@, i, j),
        forall|k: int| 0 <= k < old(herd)@.len() && old(herd)@[k].merge_pending ==> !chosen(merges@, k),
{
    let n: usize = herd.len();
    let mut merges: Vec<Merge> = Vec::new();
    let mut i: usize = 0;
    while i < n
        invariant
            i <= n,
            n == herd@.len() == old(herd)@.len(),
            tracks(index@, old(herd)@),
            forall|k: int|
                0 <= k < n ==> #[trigger] herd@[k] == marked(old(herd)@[k], chosen(merges@, k)),
            forall|m: int|
                0 <= m < merges@.len() ==> eligible(
                    old(herd)@,
                    index@,
                    (#[trigger] merges@[m]).first as int,
                    merges@[m].second as int,
                ),
            disjoint(merges@),
            forall|a: int, b: int| 0 <= a < i ==> !eligible(herd@, index@, a, b),
        decreases n - i,
    {
        let me: Entry = index.entry(i);
        let hits: Vec<Entry> = index.query_radius(me.position, MERGE_RADIUS);
        let ghost pred = in_reach(me.position, MERGE_RADIUS as int);
        let mut h: usize = 0;
        while h < hits.len()
            invariant
                h <= hits.len(),
                i < n,
                n == herd@.len() == old(herd)@.len(),
                tracks(index@, old(herd)@),
                me == index@[i as int],
                pred == in_reach(me.position, MERGE_RADIUS as int),
                hits@.to_multiset() == index@.filter(pred).to_multiset(),
                forall|k: int|
                    0 <= k < n ==> #[trigger] herd@[k] == marked(
                        old(herd)@[k],
                        chosen(merges@, k),
                    ),
                forall|m: int|
                    0 <= m < merges@.len() ==> eligible(
                        old(herd)@,
                        index@,
                        (#[trigger] merges@[m]).first as int,
                        merges@[m].second as int,
                    ),
                disjoint(merges@),
                forall|a: int, b: int| 0 <= a < i ==> !eligible(herd@, index@, a, b),
                forall|g: int|
                    0 <= g < h ==> !eligible(herd@, index@, i as int, (#[trigger] hits@[g]).id as int),
            decreases hits.len() - h,
        {
            let e: Entry = hits[h];
            proof {
                assert(hits@.contains(e));
                lemma_hit_is_tracked(index@, hits@, pred, e);
            }
            let j: usize = e.id;
            let first: Creature = herd[i];
            let second: Creature = herd[j];
            if !first.merge_pending && !second.merge_pending && first.kind.can_merge_with(
                second.kind,
            ) {
                let ghost before = herd@;
                let ghost pairs = merges@;
                let pair: Merge = Merge { first: i, second: j };
                herd.set(
                    i,
                    Creature {
                        id: first.id,
                        kind: first.kind,
                        position: first.position,
                        speed: first.speed,
                        ai: first.ai,
                        avoid: first.avoid,
                        wander: first.wander,
                        merge_pending: true,
                    },
                );
                herd.set(
                    j,
                    Creature {
                        id: second.id,
                        kind: second.kind,
                        position: second.position,
                        speed: second.speed,
                        ai: second.ai,
                        avoid: second.avoid,
                        wander: second.wander,
                        merge_pending: true,
                    },
                );
                merges.push(pair);
                proof {
                    assert(before[i as int] == marked(old(herd)@[i as int], chosen(pairs, i as int)));
                    assert(before[j as int] == marked(old(herd)@[j as int], chosen(pairs, j as int)));
                    assert(!chosen(pairs, i as int));
                    assert(!chosen(pairs, j as int));
                    assert forall|k: int| 0 <= k < n implies #[trigger] herd@[k] == marked(
                        old(herd)@[k],
                        chosen(merges@, k),
                    ) by {
                        lemma_chosen_push(pairs, pair, k);
                        assert(before[k] == marked(old(herd)@[k], chosen(pairs, k)));
                    }
                    assert forall|m: int| 0 <= m < merges@.len() implies eligible(
                        old(herd)@,
                        index@,
                        (#[trigger] merges@[m]).first as int,
                        merges@[m].second as int,
                    ) by {
                        if m < pairs.len() {
                            assert(merges@[m] == pairs[m]);
                        }
                    }
                    assert forall|m1: int, m2: int| 0 <= m1 < m2 < merges@.len() implies {
                        &&& (#[trigger] merges@[m1]).first != (#[trigger] merges@[m2]).first
                        &&& merges@[m1].first != merges@[m2].second
                        &&& merges@[m1].second != merges@[m2].first
                        &&& merges@[m1].second != merges@[m2].second
                    } by {
                        assert(merges@[m1] == pairs[m1]);
                        if m2 < pairs.len() {
                            assert(merges@[m2] == pairs[m2]);
                        }
                    }
                    assert forall|a: int, b: int| 0 <= a < i implies !eligible(
                        herd@,
                        index@,
                        a,
                        b,
                    ) by {
                        assert(!eligible(before, index@, a, b));
                    }
                    assert forall|g: int| 0 <= g < h + 1 implies !eligible(
                        herd@,
                        index@,
                        i as int,
                        (#[trigger] hits@[g]).id as int,
                    ) by {}
                }
            }
            h += 1;
        }
        proof {
            assert forall|b: int| !eligible(herd@, index@, i as int, b) by {
                if eligible(herd@, index@, i as int, b) {
                    lemma_tracked_is_hit(index@, hits@, pred, b);
                    let g = choose|g: int| 0 <= g < hits@.len() && hits@[g] == index@[b];
                    assert(hits@[g].id == b);
                }
            }
        }
        i += 1;
    }
    proof {
        assert forall|k: int|
            0 <= k < old(herd)@.len() && old(herd)@[k].merge_pending implies !chosen(
            merges@,
            k,
        ) by {
            if chosen(merges@, k) {
                let m = choose|m: int|
                    0 <= m < merges@.len() && ((#[trigger] merges@[m]).first == k
                        || merges@[m].second == k);
                assert(eligible(
                    old(herd)@,
                    index@,
                    merges@[m].first as int,
                    merges@[m].second as int,
                ));
            }
        }
    }
    merges
}

} // verus!
