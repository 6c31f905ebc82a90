//! One whole tick of the world, pass by pass.
//!
//! The pairs that spin go first, so that a hybrid that hatches takes part at
//! once. Then one snapshot of the herd is taken, and every pass that asks who
//! is near whom reads that snapshot: the pushes, the frights, and, after
//! everyone has moved, the merges.

use vstd::prelude::*;
use crate::ai::{
    dogchick_ai, herd_strolled, lookers_ticked, wander_update, wolf_ai, wolves_ticked,
};
use crate::census::lemma_same_names;
use crate::creature::Creature;
use crate::fixed::Vec2;
use crate::fright::{fright_pass, herd_frightened, startled_events, ThreatTriggered};
use crate::herd::{repulsion_pass, snapshot, snapshot_of};
use crate::hybrid::{
    anim_for, anims_after, begin_merges, departures, dogchickanim_update, event_for, herd_after,
    leaving, not_parent, CreatureDespawned, DogChickAnim, MergeOccurred,
};
use crate::merge::{chosen, disjoint, eligible, marked, merge_pass, Merge};
use crate::planner::MouseProj;
use crate::spatial::{Entry, SpatialIndex};
use crate::world::{herd_pushed, lemma_pairs_kept, World};

verus! {

/// What happened in one tick: the creatures that left the herd, the pairs
/// that hatched, the creatures that were startled, the pairs that were chosen,
/// by their places in the herd, and what is told of each.
#[derive(Debug, PartialEq, Eq)]
pub struct TickReport {
    pub despawned: Vec<CreatureDespawned>,
    pub hatched: Vec<DogChickAnim>,
    pub frights: Vec<ThreatTriggered>,
    pub pairs: Vec<Merge>,
    pub merges: Vec<MergeOccurred>,
}

/// The herd with the creatures of the chosen pairs marked.
pub open spec fn herd_marked(herd: Seq<Creature>, pairs: Seq<Merge>) -> Seq<Creature> {
    Seq::new(herd.len(), |k: int| marked(herd[k], chosen(pairs, k)))
}

/// True when no creature of the herd moves backwards.
pub open spec fn forward(herd: Seq<Creature>) -> bool {
    forall|k: int| 0 <= k < herd.len() ==> (#[trigger] herd[k]).speed.0 >= 0
}

/// True when the herd `after` comes of the herd `before` and the spinning
/// pairs `anims` by one tick of `dt` microseconds at time `now`, in which
/// `pairs` were chosen and `roams`, `looker_jitters` and `wolf_jitters` were
/// drawn.
///
/// The pairs spin and hatch. A snapshot is taken. Every creature is pushed,
/// every looker with a wolf near is frightened, every creature sees to its
/// roaming target, the lookers move, the wolves move, and last the chosen
/// pairs are marked. The chosen pairs were eligible after the moves, by the
/// snapshot; no creature is in two of them; and none that could merge is
/// left.
pub open spec fn tick_outcome(
    before: Seq<Creature>,
    anims: Seq<DogChickAnim>,
    after: Seq<Creature>,
    now: u64,
    dt: u32,
    pointer: MouseProj,
    pairs: Seq<Merge>,
    roams: Seq<(u32, u32)>,
    looker_jitters: Seq<Vec2>,
    wolf_jitters: Seq<Vec2>,
    moved: Seq<Creature>,
) -> bool {
    let hatched = herd_after(before, anims, dt);
    let snap = snapshot_of(hatched);
    let scared = herd_frightened(herd_pushed(hatched, snap), snap, now);
    exists|strolled: Seq<Creature>, walked: Seq<Creature>|
        {
            &&& #[trigger] herd_strolled(scared, strolled, roams)
            &&& #[trigger] lookers_ticked(strolled, walked, now, dt, pointer, looker_jitters)
            &&& wolves_ticked(walked, moved, now, dt, wolf_jitters)
            &&& after == herd_marked(moved, pairs)
            &&& forall|m: int|
                0 <= m < pairs.len() ==> eligible(
                    moved,
                    snap,
                    (#[trigger] pairs[m]).first as int,
                    pairs[m].second as int,
                )
            &&& disjoint(pairs)
            &&& forall|i: int, j: int| !eligible(after, snap, i, j)
        }
}

/// True when the spinning pairs `after` are the pairs `before` and, after
/// them, one new pair for each of `pairs`, made of the two creatures of the
/// herd that it names; and `merges` tells of each of `pairs`, in their order.
pub open spec fn pairs_spin(
    before: Seq<DogChickAnim>,
    after: Seq<DogChickAnim>,
    herd: Seq<Creature>,
    pairs: Seq<Merge>,
    merges: Seq<MergeOccurred>,
) -> bool {
    &&& after.len() == before.len() + pairs.len()
    &&& merges.len() == pairs.len()
    &&& forall|a: int| 0 <= a < before.len() ==> #[trigger] after[a] == before[a]
    &&& forall|m: int|
        0 <= m < pairs.len() ==> #[trigger] after[before.len() + m] == anim_for(
            herd[pairs[m].first as int],
            herd[pairs[m].second as int],
        )
    &&& forall|m: int|
        0 <= m < pairs.len() ==> #[trigger] merges[m] == event_for(
            herd[pairs[m].first as int],
            herd[pairs[m].second as int],
        )
}

/// No hatching makes a creature move backwards: the parents leave, the
/// others stay as they are, and a hybrid starts at rest.
proof fn lemma_hatching_keeps_forward(herd: Seq<Creature>, anims: Seq<DogChickAnim>, dt: u32)
    requires
        forward(herd),
    ensures
        forward(herd_after(herd, anims, dt)),
    decreases anims.len(),
{
    if anims.len() > 0 {
        let rest = herd_after(herd, anims.drop_last(), dt);
        lemma_hatching_keeps_forward(herd, anims.drop_last(), dt);
        let last = anims.last().advanced(dt);
        if last.done() {
            let kept = rest.filter(not_parent(last));
            assert forall|k: int| 0 <= k < kept.len() implies (#[trigger] kept[k]).speed.0
                >= 0 by {
                assert(kept.contains(kept[k]));
                rest.lemma_filter_contains_rev(not_parent(last), kept[k]);
                let j = choose|j: int| 0 <= j < rest.len() && rest[j] == kept[k];
                assert(rest[j].speed.0 >= 0);
            }
        }
    }
}

impl World {
    /// Runs one tick of `dt` microseconds at time `now`, with the pointer at
    /// `pointer`; see [`tick_outcome`]. The spinning pairs are those that
    /// still spin and, after them, those chosen in this tick. The report
    /// tells of every creature that left. No creature moves backwards
    /// afterwards if none did before, and the books of the world agree
    /// afterwards if they did before.
    pub fn tick(&mut self, now: u64, dt: u32, pointer: MouseProj) -> (report: TickReport)
        ensures
            final(self).next_id == old(self).next_id,
            exists|
                roams: Seq<(u32, u32)>,
                looker_jitters: Seq<Vec2>,
                wolf_jitters: Seq<Vec2>,
                moved: Seq<Creature>,
            |
                {
                    &&& #[trigger] tick_outcome(
                        old(self).herd@,
                        old(self).anims@,
                        final(self).herd@,
                        now,
                        dt,
                        pointer,
                        report.pairs@,
                        roams,
                        looker_jitters,
                        wolf_jitters,
                        moved,
                    )
                    &&& pairs_spin(
                        anims_after(old(self).anims@, dt, false),
                        final(self).anims@,
                        moved,
                        report.pairs@,
                        report.merges@,
                    )
                },
            report.hatched@ == anims_after(old(self).anims@, dt, true),
            report.despawned@ == departures(old(self).herd@, old(self).anims@, dt),
            report.frights@ == startled_events(
                herd_pushed(
                    herd_after(old(self).herd@, old(self).anims@, dt),
                    snapshot_of(herd_after(old(self).herd@, old(self).anims@, dt)),
                ),
                snapshot_of(herd_after(old(self).herd@, old(self).anims@, dt)),
                herd_after(old(self).herd@, old(self).anims@, dt).len() as int,
            ),
            forward(old(self).herd@) ==> forward(final(self).herd@),
            old(self).coherent() ==> final(self).coherent(),
    {
        let ghost before = self.herd@;
        let ghost anims = self.anims@;
        let despawned: Vec<CreatureDespawned> = leaving(&self.herd, &self.anims, dt);
        let hatched: Vec<DogChickAnim> = dogchickanim_update(&mut self.herd, &mut self.anims, dt);
        let ghost h0 = self.herd@;
        let ghost snap = snapshot_of(h0);
        proof {
            if forward(before) {
                lemma_hatching_keeps_forward(before, anims, dt);
            }
        }
        let index: SpatialIndex = snapshot(&self.herd);
        repulsion_pass(&mut self.herd, &index);
        let ghost h1 = self.herd@;
        assert(h1 == herd_pushed(h0, snap));
        let frights: Vec<ThreatTriggered> = fright_pass(&mut self.herd, &index, now);
        let ghost h2 = self.herd@;
        assert(h2 == herd_frightened(h1, snap, now));
        wander_update(&mut self.herd);
        let ghost h3 = self.herd@;
        let ghost roams = choose|roams: Seq<(u32, u32)>| #[trigger] herd_strolled(h2, h3, roams);
        dogchick_ai(&mut self.herd, now, dt, pointer);
        let ghost h4 = self.herd@;
        let ghost looker_jitters = choose|jitters: Seq<Vec2>| #[trigger]
            lookers_ticked(h3, h4, now, dt, pointer, jitters);
        wolf_ai(&mut self.herd, now, dt);
        let ghost h5 = self.herd@;
        let ghost wolf_jitters = choose|jitters: Seq<Vec2>| #[trigger]
            wolves_ticked(h4, h5, now, dt, jitters);
        let pairs: Vec<Merge> = merge_pass(&mut self.herd, &index);
        assert(self.herd@ == herd_marked(h5, pairs@));
        let merges: Vec<MergeOccurred> = begin_merges(&self.herd, &pairs, &mut self.anims);
        proof {
            assert(forward(before) ==> forward(self.herd@)) by {
                if forward(before) {
                    assert(forward(h1));
                    assert(forward(h2));
                    assert forall|k: int| 0 <= k < h3.len() implies (#[trigger] h3[k]).speed.0
                        >= 0 by {
                        assert(roams[k].0 < crate::wander::SPREAD);
                    }
                    assert(forward(h4));
                    assert(forward(h5));
                }
            }
            assert(tick_outcome(
                before,
                anims,
                self.herd@,
                now,
                dt,
                pointer,
                pairs@,
                roams,
                looker_jitters,
                wolf_jitters,
                h5,
            )) by {
                assert(herd_strolled(h2, h3, roams));
                assert(lookers_ticked(h3, h4, now, dt, pointer, looker_jitters));
            }
            let spinning = anims_after(anims, dt, false);
            assert forall|m: int| 0 <= m < pairs@.len() implies #[trigger] self.anims@[spinning.len()
                + m] == anim_for(h5[pairs@[m].first as int], h5[pairs@[m].second as int]) by {
                assert(eligible(h5, index@, pairs@[m].first as int, pairs@[m].second as int));
                lemma_mark_keeps_anim(h5, pairs@, pairs@[m].first as int, pairs@[m].second as int);
            }
            assert forall|m: int| 0 <= m < pairs@.len() implies #[trigger] merges@[m] == event_for(
                h5[pairs@[m].first as int],
                h5[pairs@[m].second as int],
            ) by {
                assert(eligible(h5, index@, pairs@[m].first as int, pairs@[m].second as int));
                lemma_mark_keeps_anim(h5, pairs@, pairs@[m].first as int, pairs@[m].second as int);
            }
            assert(pairs_spin(spinning, self.anims@, h5, pairs@, merges@));
        }
        proof {
            if old(self).coherent() {
                let spinning = anims_after(anims, dt, false);
                lemma_same_names(h0, h5, spinning);
                lemma_pairs_kept(h5, spinning, index@, pairs@, self.herd@, self.anims@);
            }
        }
        let report: TickReport = TickReport { despawned, hatched, frights, pairs, merges };
        proof {
            assert(tick_outcome(
                before,
                anims,
                self.herd@,
                now,
                dt,
                pointer,
                report.pairs@,
                roams,
                looker_jitters,
                wolf_jitters,
                h5,
            ));
            assert(pairs_spin(
                anims_after(anims, dt, false),
                self.anims@,
                h5,
                report.pairs@,
                report.merges@,
            ));
        }
        report
    }
}

/// A creature that bears the mark of an earlier merge when the snapshot of a
/// tick is taken is not chosen in that tick, and bears the mark still when the
/// tick is over.
pub proof fn lemma_marked_are_never_chosen(
    before: Seq<Creature>,
    anims: Seq<DogChickAnim>,
    after: Seq<Creature>,
    now: u64,
    dt: u32,
    pointer: MouseProj,
    pairs: Seq<Merge>,
    roams: Seq<(u32, u32)>,
    looker_jitters: Seq<Vec2>,
    wolf_jitters: Seq<Vec2>,
    moved: Seq<Creature>,
    k: int,
)
    requires
        tick_outcome(
            before,
            anims,
            after,
            now,
            dt,
            pointer,
            pairs,
            roams,
            looker_jitters,
            wolf_jitters,
            moved,
        ),
        0 <= k < herd_after(before, anims, dt).len(),
        herd_after(before, anims, dt)[k].merge_pending,
    ensures
        after.len() == herd_after(before, anims, dt).len(),
        !chosen(pairs, k),
        after[k].merge_pending,
        after[k].id == herd_after(before, anims, dt)[k].id,
{
    let hatched = herd_after(before, anims, dt);
    let snap = snapshot_of(hatched);
    let scared = herd_frightened(herd_pushed(hatched, snap), snap, now);
    let (strolled, walked) = choose|strolled: Seq<Creature>, walked: Seq<Creature>|
        {
            &&& #[trigger] herd_strolled(scared, strolled, roams)
            &&& #[trigger] lookers_ticked(strolled, walked, now, dt, pointer, looker_jitters)
            &&& wolves_ticked(walked, moved, now, dt, wolf_jitters)
            &&& after == herd_marked(moved, pairs)
            &&& forall|m: int|
                0 <= m < pairs.len() ==> eligible(
                    moved,
                    snap,
                    (#[trigger] pairs[m]).first as int,
                    pairs[m].second as int,
                )
            &&& disjoint(pairs)
            &&& forall|i: int, j: int| !eligible(after, snap, i, j)
        };
    assert(scared[k].merge_pending && scared[k].id == hatched[k].id);
    assert(roams[k].0 < crate::wander::SPREAD);
    assert(strolled[k].merge_pending && strolled[k].id == hatched[k].id);
    assert(crate::ai::is_jitter(looker_jitters[k]));
    assert(walked[k].merge_pending && walked[k].id == hatched[k].id);
    assert(crate::ai::is_jitter(wolf_jitters[k]));
    assert(moved[k].merge_pending && moved[k].id == hatched[k].id);
    if chosen(pairs, k) {
        let m = choose|m: int|
            0 <= m < pairs.len() && ((#[trigger] pairs[m]).first == k || pairs[m].second == k);
        assert(eligible(moved, snap, pairs[m].first as int, pairs[m].second as int));
    }
}

/// Marking two creatures changes nothing of the spinning pair made of them.
proof fn lemma_mark_keeps_anim(herd: Seq<Creature>, pairs: Seq<Merge>, i: int, j: int)
    requires
        0 <= i < herd.len(),
        0 <= j < herd.len(),
    ensures
        anim_for(herd_marked(herd, pairs)[i], herd_marked(herd, pairs)[j]) == anim_for(
            herd[i],
            herd[j],
        ),
        event_for(herd_marked(herd, pairs)[i], herd_marked(herd, pairs)[j]) == event_for(
            herd[i],
            herd[j],
        ),
{
}

} // verus!
