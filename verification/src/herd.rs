//! The herd as a whole: the snapshot of its places that the passes of a tick
//! read, and the push that each creature gets from it.

use vstd::prelude::*;
use crate::creature::Creature;
use crate::repulsion::{getaway, getaway_spec};
use crate::spatial::{lemma_same_members, Entry, SpatialIndex};
use crate::steering::CollisionAvoid;

verus! {

/// The entries that stand for a herd: each creature's place, numbered by the
/// creature's position in the herd.
pub open spec fn snapshot_of(herd: Seq<Creature>) -> Seq<Entry> {
    Seq::new(herd.len(), |k: int| Entry { position: herd[k].position, id: k as usize })
}

/// True when the entries are numbered by their own position, as a snapshot's
/// are.
pub open spec fn numbered(snap: Seq<Entry>) -> bool {
    forall|k: int| 0 <= k < snap.len() ==> (#[trigger] snap[k]).id == k
}

/// True when `snap` is a snapshot of a herd as large as `herd`: of this herd
/// as it is, or as it was earlier in the tick.
pub open spec fn tracks(snap: Seq<Entry>, herd: Seq<Creature>) -> bool {
    snap.len() == herd.len() && numbered(snap)
}

/// Takes a snapshot of the herd.
pub fn snapshot(herd: &Vec<Creature>) -> (index: SpatialIndex)
    ensures
        index@ == snapshot_of(herd@),
        tracks(index@, herd@),
{
    let mut entries: Vec<Entry> = Vec::new();
    let mut k: usize = 0;
    while k < herd.len()
        invariant
            k <= herd.len(),
            entries@.len() == k,
            forall|j: int| 0 <= j < k ==> entries@[j] == snapshot_of(herd@)[j],
        decreases herd.len() - k,
    {
        entries.push(Entry { position: herd[k].position, id: k });
        k += 1;
    }
    assert(entries@ == snapshot_of(herd@));
    let mut index: SpatialIndex = SpatialIndex::new();
    index.rebuild(&entries);
    index
}

/// What a query of a numbered snapshot gives back names creatures of the
/// herd, each at its place in the snapshot, and passes the test of the query.
pub proof fn lemma_hit_is_tracked(
    snap: Seq<Entry>,
    hits: Seq<Entry>,
    pred: spec_fn(Entry) -> bool,
    e: Entry,
)
    requires
        numbered(snap),
        hits.to_multiset() == snap.filter(pred).to_multiset(),
        hits.contains(e),
    ensures
        0 <= e.id < snap.len(),
        snap[e.id as int] == e,
        pred(e),
{
    let found = snap.filter(pred);
    lemma_same_members(hits, found, e);
    snap.lemma_filter_contains_rev(pred, e);
    let i = choose|i: int| 0 <= i < found.len() && found[i] == e;
    snap.lemma_filter_pred(pred, i);
    let k = choose|k: int| 0 <= k < snap.len() && snap[k] == e;
    assert(snap[k].id == k);
}

/// Every creature whose entry passes the test of a query is among what the
/// query gives back.
pub proof fn lemma_tracked_is_hit(
    snap: Seq<Entry>,
    hits: Seq<Entry>,
    pred: spec_fn(Entry) -> bool,
    k: int,
)
    requires
        hits.to_multiset() == snap.filter(pred).to_multiset(),
        0 <= k < snap.len(),
        pred(snap[k]),
    ensures
        hits.contains(snap[k]),
{
    snap.lemma_filter_contains(pred, k);
    lemma_same_members(hits, snap.filter(pred), snap[k]);
}

/// The creature with the push that the snapshot gives it: the sum of the
/// pushes from every other creature nearer than
/// [`crate::repulsion::AVOID_RADIUS`] to where creature `k` is in the
/// snapshot. Nothing else of it changes.
pub open spec fn pushed(creature: Creature, k: int, snap: Seq<Entry>) -> Creature {
    Creature {
        avoid: CollisionAvoid { getaway: getaway_spec(k as usize, snap[k].position, snap) },
        ..creature
    }
}

/// The repulsion pass: gives every creature of the herd its push anew.
pub fn repulsion_pass(herd: &mut Vec<Creature>, index: &SpatialIndex)
    requires
        tracks(index@, old(herd)@),
    ensures
        final(herd)@.len() == old(herd)@.len(),
        forall|k: int|
            0 <= k < old(herd)@.len() ==> #[trigger] final(herd)@[k] == pushed(
                old(herd)@[k],
                k,
                index@,
            ),
{
    let n: usize = herd.len();
    let mut k: usize = 0;
    while k < n
        invariant
            k <= n,
            n == herd@.len() == old(herd)@.len(),
            tracks(index@, old(herd)@),
            forall|j: int| 0 <= j < k ==> #[trigger] herd@[j] == pushed(old(herd)@[j], j, index@),
            forall|j: int| k <= j < n ==> #[trigger] herd@[j] == old(herd)@[j],
        decreases n - k,
    {
        let me: Entry = index.entry(k);
        let mut creature: Creature = herd[k];
        creature.avoid = CollisionAvoid { getaway: getaway(index, k, me.position) };
        herd.set(k, creature);
        k += 1;
    }
}

} // verus!
