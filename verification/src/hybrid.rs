//! From a chosen pair to a hybrid.
//!
//! A chosen pair spins for a second where the two met. Then both parents are
//! taken out of the herd and one hybrid takes their place.

use vstd::prelude::*;
use crate::census::{coherent, lemma_hatched, lemma_same_parents, named_below};
use crate::creature::{Creature, CreatureKind};
use crate::fixed::{deadline, deadline_spec, saturate, saturate_i32, trunc_div, Vec2};
use crate::looker::{Looker, LookerLocation, LookerState};
use crate::merge::Merge;
use crate::steering::{AiResult, CollisionAvoid, Speed};
use crate::wander::{dogchick_enclot, dogchick_enclot_spec, Wander};

verus! {

/// How long a chosen pair spins before the hybrid appears, in microseconds.
pub const SPIN_TIME: u64 = 1_000_000;

/// How far the pens lie apart: a hybrid's home lies this far beside the home
/// of its first parent, toward the middle.
pub const PEN_SHIFT: i32 = 500_000;

/// The speed that steering is taken to have asked of a newly made creature.
pub const FIRST_TARGET_SPEED: i32 = 10_000;

/// Tells that two creatures have been chosen to merge, and where they stood.
#[derive(Clone, Copy, Debug, PartialEq, Eq, Structural)]
pub struct MergeOccurred {
    pub position_a: Vec2,
    pub position_b: Vec2,
}

/// Tells that a creature has left the herd for good.
#[derive(Clone, Copy, Debug, PartialEq, Eq, Structural)]
pub struct CreatureDespawned {
    pub id: u64,
}

/// A chosen pair that spins: where, for how long already, who the parents
/// are, and what the hybrid will know of itself.
#[derive(Clone, Copy, Debug, PartialEq, Eq, Structural)]
pub struct DogChickAnim {
    pub position: Vec2,
    pub t: u64,
    pub first_parent: u64,
    pub second_parent: u64,
    pub looker: Looker,
}

/// The point halfway between two points, each component rounded toward zero.
pub open spec fn midpoint(a: Vec2, b: Vec2) -> Vec2 {
    Vec2 { x: trunc_div(a.x + b.x, 2) as i32, y: trunc_div(a.y + b.y, 2) as i32 }
}

/// The point [`PEN_SHIFT`] beside `p`: to the right if `home` lies left of
/// the middle of the world, else to the left.
pub open spec fn beside(p: Vec2, home: Vec2) -> Vec2 {
    Vec2 {
        x: if home.x < 0 {
            saturate(p.x + PEN_SHIFT)
        } else {
            saturate(p.x - PEN_SHIFT)
        },
        y: p.y,
    }
}

/// What the hybrid of a parent knows of itself: its home and its door lie
/// beside those of the parent, it wants to be inside, and it is outside.
pub open spec fn hybrid_looker(parent: Looker) -> Looker {
    Looker {
        spawn_point: beside(parent.spawn_point, parent.spawn_point),
        spawn_door: beside(parent.spawn_door, parent.spawn_point),
        state: LookerState::HappyInside,
        location: LookerLocation::Outside,
    }
}

/// The spinning pair made of two creatures: it stands halfway between them
/// and has not spun yet, and the hybrid has its home beside that of the
/// first. Where the first is no looker, the hybrid has its home where the
/// first stands.
pub open spec fn anim_for(first: Creature, second: Creature) -> DogChickAnim {
    DogChickAnim {
        position: midpoint(first.position, second.position),
        t: 0,
        first_parent: first.id,
        second_parent: second.id,
        looker: match first.kind.looker_spec() {
            Some(l) => hybrid_looker(l),
            None => Looker {
                spawn_point: first.position,
                spawn_door: first.position,
                state: LookerState::HappyInside,
                location: LookerLocation::Outside,
            },
        },
    }
}

/// What is told of a chosen pair.
pub open spec fn event_for(first: Creature, second: Creature) -> MergeOccurred {
    MergeOccurred { position_a: first.position, position_b: second.position }
}

impl DogChickAnim {
    /// The pair after spinning `dt` microseconds longer.
    pub open spec fn advanced(self, dt: u32) -> DogChickAnim {
        DogChickAnim { t: deadline_spec(self.t, dt as u64), ..self }
    }

    /// True when the pair has spun long enough.
    pub open spec fn done(self) -> bool {
        self.t >= SPIN_TIME
    }

    /// True when the creature is a parent of this pair: it was chosen for a
    /// merge and bears the name of one of the two.
    pub open spec fn is_parent(self, creature: Creature) -> bool {
        creature.merge_pending && (creature.id == self.first_parent || creature.id
            == self.second_parent)
    }

    /// The hybrid that comes of the pair: it stands where the pair spun, bears
    /// the name of the first parent, stands still, roams in the middle pen
    /// with its home as first target, and has not been pushed yet.
    pub open spec fn hybrid(self) -> Creature {
        Creature {
            id: self.first_parent,
            kind: CreatureKind::DogChick(self.looker),
            position: self.position,
            speed: Speed(0),
            ai: AiResult { target_speed: FIRST_TARGET_SPEED, target_dir: Vec2 { x: 0, y: 0 } },
            avoid: CollisionAvoid { getaway: Vec2 { x: 0, y: 0 } },
            wander: Wander {
                randobjective: Some(self.looker.spawn_point),
                confined_within: dogchick_enclot_spec(),
            },
            merge_pending: false,
        }
    }
}

/// The test that a creature is no parent of the pair.
pub open spec fn not_parent(anim: DogChickAnim) -> spec_fn(Creature) -> bool {
    |c: Creature| !anim.is_parent(c)
}

/// The herd after the pair has hatched: without the parents, and with the
/// hybrid at its end.
pub open spec fn hatch(herd: Seq<Creature>, anim: DogChickAnim) -> Seq<Creature> {
    herd.filter(not_parent(anim)).push(anim.hybrid())
}

/// The herd after each of the pairs has spun `dt` microseconds longer and
/// those that are done have hatched, one after the other.
pub open spec fn herd_after(herd: Seq<Creature>, anims: Seq<DogChickAnim>, dt: u32) -> Seq<
    Creature,
>
    decreases anims.len(),
{
    if anims.len() == 0 {
        herd
    } else {
        let rest = herd_after(herd, anims.drop_last(), dt);
        let last = anims.last().advanced(dt);
        if last.done() {
            hatch(rest, last)
        } else {
            rest
        }
    }
}

/// The pairs that still spin after `dt` microseconds more, or, with `done`
/// set, those that are done by then; in their order.
pub open spec fn anims_after(anims: Seq<DogChickAnim>, dt: u32, done: bool) -> Seq<DogChickAnim>
    decreases anims.len(),
{
    if anims.len() == 0 {
        Seq::empty()
    } else {
        let rest = anims_after(anims.drop_last(), dt, done);
        let last = anims.last().advanced(dt);
        if last.done() == done {
            rest.push(last)
        } else {
            rest
        }
    }
}

/// True when the creature is a parent of one of the pairs that are done once
/// they have spun `dt` microseconds longer.
pub open spec fn departs(creature: Creature, anims: Seq<DogChickAnim>, dt: u32) -> bool {
    exists|a: int|
        0 <= a < anims.len() && (#[trigger] anims[a]).advanced(dt).done() && anims[a].is_parent(
            creature,
        )
}

/// The test that a creature is no parent of a pair that is done once the
/// pairs have spun `dt` microseconds longer.
pub open spec fn stays(anims: Seq<DogChickAnim>, dt: u32) -> spec_fn(Creature) -> bool {
    |c: Creature| !departs(c, anims, dt)
}

/// What is told of the creatures of the herd that leave when the pairs have
/// spun `dt` microseconds longer: one event for each, in the order of the
/// herd.
pub open spec fn departures(herd: Seq<Creature>, anims: Seq<DogChickAnim>, dt: u32) -> Seq<
    CreatureDespawned,
>
    decreases herd.len(),
{
    if herd.len() == 0 {
        Seq::empty()
    } else {
        let rest = departures(herd.drop_last(), anims, dt);
        if departs(herd.last(), anims, dt) {
            rest.push(CreatureDespawned { id: herd.last().id })
        } else {
            rest
        }
    }
}

/// The hybrids of the pairs, in their order.
pub open spec fn hybrids(pairs: Seq<DogChickAnim>) -> Seq<Creature> {
    Seq::new(pairs.len(), |k: int| pairs[k].hybrid())
}

proof fn lemma_filter_twice(
    herd: Seq<Creature>,
    first: spec_fn(Creature) -> bool,
    second: spec_fn(Creature) -> bool,
    both: spec_fn(Creature) -> bool,
)
    requires
        forall|c: Creature| #[trigger] both(c) <==> first(c) && second(c),
    ensures
        herd.filter(first).filter(second) == herd.filter(both),
    decreases herd.len(),
{
    reveal(Seq::filter);
    if herd.len() > 0 {
        let rest = herd.drop_last();
        let last = herd.last();
        lemma_filter_twice(rest, first, second, both);
        if first(last) {
            rest.filter(first).lemma_filter_push(last, second);
        }
    }
}

proof fn lemma_filter_all(herd: Seq<Creature>, pred: spec_fn(Creature) -> bool)
    requires
        forall|k: int| 0 <= k < herd.len() ==> pred(#[trigger] herd[k]),
    ensures
        herd.filter(pred) == herd,
    decreases herd.len(),
{
    reveal(Seq::filter);
    if herd.len() > 0 {
        let rest = herd.drop_last();
        assert forall|k: int| 0 <= k < rest.len() implies pred(#[trigger] rest[k]) by {
            assert(rest[k] == herd[k]);
        }
        lemma_filter_all(rest, pred);
        assert(rest.push(herd.last()) == herd);
    }
}

/// Hatching the pairs one after the other comes to the same as taking every
/// parent of a pair that is done out of the herd at once, and putting the
/// hybrids of those pairs at its end, in the order of the pairs.
pub proof fn lemma_hatching_at_once(herd: Seq<Creature>, anims: Seq<DogChickAnim>, dt: u32)
    ensures
        herd_after(herd, anims, dt) == herd.filter(stays(anims, dt)) + hybrids(
            anims_after(anims, dt, true),
        ),
    decreases anims.len(),
{
    let all = stays(anims, dt);
    if anims.len() == 0 {
        lemma_filter_all(herd, all);
        assert(herd + hybrids(Seq::<DogChickAnim>::empty()) == herd);
    } else {
        let earlier = anims.drop_last();
        let last = anims.last().advanced(dt);
        let kept = herd.filter(stays(earlier, dt));
        let born = hybrids(anims_after(earlier, dt, true));
        lemma_hatching_at_once(herd, earlier, dt);
        assert forall|c: Creature| #[trigger]
            departs(c, anims, dt) <==> departs(c, earlier, dt) || (last.done() && last.is_parent(
                c,
            )) by {
            if departs(c, earlier, dt) {
                let a = choose|a: int|
                    0 <= a < earlier.len() && (#[trigger] earlier[a]).advanced(dt).done()
                        && earlier[a].is_parent(c);
                assert(anims[a] == earlier[a]);
            }
            if last.done() && last.is_parent(c) {
                assert(anims[anims.len() - 1].advanced(dt).done());
            }
            if departs(c, anims, dt) {
                let a = choose|a: int|
                    0 <= a < anims.len() && (#[trigger] anims[a]).advanced(dt).done()
                        && anims[a].is_parent(c);
                if a < earlier.len() {
                    assert(earlier[a] == anims[a]);
                }
            }
        }
        if last.done() {
            let test = not_parent(last);
            Seq::filter_distributes_over_add(kept, born, test);
            assert forall|c: Creature| #[trigger] all(c) <==> stays(earlier, dt)(c) && test(c) by {
                assert(all(c) == !departs(c, anims, dt));
                assert(stays(earlier, dt)(c) == !departs(c, earlier, dt));
                assert(test(c) == !last.is_parent(c));
            }
            lemma_filter_twice(herd, stays(earlier, dt), test, all);
            lemma_filter_all(born, test);
            assert(hybrids(anims_after(anims, dt, true)) == born.push(last.hybrid()));
            assert((herd.filter(all) + born).push(last.hybrid()) == herd.filter(all) + born.push(
                last.hybrid(),
            ));
        } else {
            assert forall|c: Creature| #[trigger] all(c) <==> stays(earlier, dt)(c) && stays(
                earlier,
                dt,
            )(c) by {
                assert(all(c) == !departs(c, anims, dt));
                assert(stays(earlier, dt)(c) == !departs(c, earlier, dt));
            }
            lemma_filter_twice(herd, stays(earlier, dt), stays(earlier, dt), all);
            assert forall|k: int| 0 <= k < kept.len() implies stays(earlier, dt)(
                #[trigger] kept[k],
            ) by {
                herd.lemma_filter_pred(stays(earlier, dt), k);
            }
            lemma_filter_all(kept, stays(earlier, dt));
        }
    }
}

fn halfway(a: i32, b: i32) -> (m: i32)
    ensures
        m == trunc_div(a + b, 2),
{
    ((a as i64 + b as i64) / 2) as i32
}

fn shift_beside(p: Vec2, home: Vec2) -> (q: Vec2)
    ensures
        q == beside(p, home),
{
    let x: i128 = if home.x < 0 {
        p.x as i128 + PEN_SHIFT as i128
    } else {
        p.x as i128 - PEN_SHIFT as i128
    };
    Vec2 { x: saturate_i32(x), y: p.y }
}

/// Computes [`anim_for`].
pub fn begin_merge(first: &Creature, second: &Creature) -> (anim: DogChickAnim)
    ensures
        anim == anim_for(*first, *second),
{
    let looker: Looker = match first.kind.looker() {
        Some(l) => Looker {
            spawn_point: shift_beside(l.spawn_point, l.spawn_point),
            spawn_door: shift_beside(l.spawn_door, l.spawn_point),
            state: LookerState::HappyInside,
            location: LookerLocation::Outside,
        },
        None => Looker {
            spawn_point: first.position,
            spawn_door: first.position,
            state: LookerState::HappyInside,
            location: LookerLocation::Outside,
        },
    };
    DogChickAnim {
        position: Vec2 {
            x: halfway(first.position.x, second.position.x),
            y: halfway(first.position.y, second.position.y),
        },
        t: 0,
        first_parent: first.id,
        second_parent: second.id,
        looker,
    }
}

/// Starts the spinning of every chosen pair, and tells of each: one new
/// spinning pair and one event for each pair of `merges`, in their order,
/// after the pairs that spin already.
pub fn begin_merges(herd: &Vec<Creature>, merges: &Vec<Merge>, anims: &mut Vec<DogChickAnim>) -> (events:
    Vec<MergeOccurred>)
    requires
        forall|m: int|
            0 <= m < merges@.len() ==> (#[trigger] merges@[m]).first < herd@.len()
                && merges@[m].second < herd@.len(),
    ensures
        final(anims)@.len() == old(anims)@.len() + merges@.len(),
        events@.len() == merges@.len(),
        forall|a: int| 0 <= a < old(anims)@.len() ==> #[trigger] final(anims)@[a] == old(anims)@[a],
        forall|m: int|
            0 <= m < merges@.len() ==> #[trigger] final(anims)@[old(anims)@.len() + m] == anim_for(
                herd@[merges@[m].first as int],
                herd@[merges@[m].second as int],
            ),
        forall|m: int|
            0 <= m < merges@.len() ==> #[trigger] events@[m] == event_for(
                herd@[merges@[m].first as int],
                herd@[merges@[m].second as int],
            ),
{
    let mut events: Vec<MergeOccurred> = Vec::new();
    let mut k: usize = 0;
    while k < merges.len()
        invariant
            k <= merges@.len(),
            forall|m: int|
                0 <= m < merges@.len() ==> (#[trigger] merges@[m]).first < herd@.len()
                    && merges@[m].second < herd@.len(),
            anims@.len() == old(anims)@.len() + k,
            events@.len() == k,
            forall|a: int| 0 <= a < old(anims)@.len() ==> #[trigger] anims@[a] == old(anims)@[a],
            forall|m: int|
                0 <= m < k ==> #[trigger] anims@[old(anims)@.len() + m] == anim_for(
                    herd@[merges@[m].first as int],
                    herd@[merges@[m].second as int],
                ),
            forall|m: int|
                0 <= m < k ==> #[trigger] events@[m] == event_for(
                    herd@[merges@[m].first as int],
                    herd@[merges@[m].second as int],
                ),
        decreases merges@.len() - k,
    {
        let pair: Merge = merges[k];
        let first: Creature = herd[pair.first];
        let second: Creature = herd[pair.second];
        anims.push(begin_merge(&first, &second));
        events.push(MergeOccurred { position_a: first.position, position_b: second.position });
        k += 1;
    }
    events
}

/// Computes [`DogChickAnim::hybrid`].
pub fn make_hybrid(anim: &DogChickAnim) -> (creature: Creature)
    ensures
        creature == anim.hybrid(),
{
    Creature {
        id: anim.first_parent,
        kind: CreatureKind::DogChick(anim.looker),
        position: anim.position,
        speed: Speed(0),
        ai: AiResult { target_speed: FIRST_TARGET_SPEED, target_dir: Vec2 { x: 0, y: 0 } },
        avoid: CollisionAvoid { getaway: Vec2 { x: 0, y: 0 } },
        wander: Wander {
            randobjective: Some(anim.looker.spawn_point),
            confined_within: dogchick_enclot(),
        },
        merge_pending: false,
    }
}

/// Computes [`hatch`].
pub fn hatch_pair(herd: &Vec<Creature>, anim: &DogChickAnim) -> (next: Vec<Creature>)
    ensures
        next@ == hatch(herd@, *anim),
{
    let ghost pred = not_parent(*anim);
    let mut next: Vec<Creature> = Vec::new();
    let mut k: usize = 0;
    proof {
        assert(herd@.take(0) == Seq::<Creature>::empty());
        reveal(Seq::filter);
    }
    while k < herd.len()
        invariant
            k <= herd.len(),
            pred == not_parent(*anim),
            next@ == herd@.take(k as int).filter(pred),
        decreases herd.len() - k,
    {
        let c: Creature = herd[k];
        proof {
            assert(herd@.take(k + 1) == herd@.take(k as int).push(c));
            herd@.take(k as int).lemma_filter_push(c, pred);
        }
        if !(c.merge_pending && (c.id == anim.first_parent || c.id == anim.second_parent)) {
            next.push(c);
        }
        k += 1;
    }
    assert(herd@.take(k as int) == herd@);
    next.push(make_hybrid(anim));
    next
}

/// Computes [`departs`].
pub fn is_leaving(creature: &Creature, anims: &Vec<DogChickAnim>, dt: u32) -> (b: bool)
    ensures
        b == departs(*creature, anims@, dt),
{
    if !creature.merge_pending {
        return false;
    }
    let mut k: usize = 0;
    while k < anims.len()
        invariant
            k <= anims@.len(),
            creature.merge_pending,
            forall|a: int|
                0 <= a < k ==> !((#[trigger] anims@[a]).advanced(dt).done() && anims@[a].is_parent(
                    *creature,
                )),
        decreases anims@.len() - k,
    {
        let anim: DogChickAnim = anims[k];
        if deadline(anim.t, dt as u64) >= SPIN_TIME && (creature.id == anim.first_parent
            || creature.id == anim.second_parent) {
            return true;
        }
        k += 1;
    }
    false
}

/// Computes [`departures`]: tells which creatures are about to leave the herd,
/// before the pairs spin on.
pub fn leaving(herd: &Vec<Creature>, anims: &Vec<DogChickAnim>, dt: u32) -> (events: Vec<
    CreatureDespawned,
>)
    ensures
        events@ == departures(herd@, anims@, dt),
{
    let mut events: Vec<CreatureDespawned> = Vec::new();
    let mut k: usize = 0;
    assert(herd@.take(0) == Seq::<Creature>::empty());
    while k < herd.len()
        invariant
            k <= herd@.len(),
            events@ == departures(herd@.take(k as int), anims@, dt),
        decreases herd@.len() - k,
    {
        assert(herd@.take(k + 1).drop_last() == herd@.take(k as int));
        if is_leaving(&herd[k], anims, dt) {
            events.push(CreatureDespawned { id: herd[k].id });
        }
        k += 1;
    }
    assert(herd@.take(k as int) == herd@);
    events
}

/// Lets every pair spin `dt` microseconds longer. Each pair that is done by
/// then hatches: its parents leave the herd and its hybrid joins it. The
/// pairs that are done are handed back, in their order; the others go on
/// spinning.
pub fn dogchickanim_update(herd: &mut Vec<Creature>, anims: &mut Vec<DogChickAnim>, dt: u32) -> (hatched:
    Vec<DogChickAnim>)
    ensures
        final(herd)@ == herd_after(old(herd)@, old(anims)@, dt),
        final(anims)@ == anims_after(old(anims)@, dt, false),
        hatched@ == anims_after(old(anims)@, dt, true),
        coherent(old(herd)@, old(anims)@) ==> coherent(final(herd)@, final(anims)@),
        forall|bound: u64|
            coherent(old(herd)@, old(anims)@) && named_below(old(herd)@, bound) ==> named_below(
                final(herd)@,
                bound,
            ),
{
    let mut spinning: Vec<DogChickAnim> = Vec::new();
    let mut hatched: Vec<DogChickAnim> = Vec::new();
    let mut k: usize = 0;
    assert(anims@.take(0) == Seq::<DogChickAnim>::empty());
    assert(spinning@ + anims@.skip(0) == anims@);
    while k < anims.len()
        invariant
            k <= anims@.len(),
            anims@ == old(anims)@,
            herd@ == herd_after(old(herd)@, anims@.take(k as int), dt),
            spinning@ == anims_after(anims@.take(k as int), dt, false),
            hatched@ == anims_after(anims@.take(k as int), dt, true),
            coherent(old(herd)@, old(anims)@) ==> coherent(
                herd@,
                spinning@ + anims@.skip(k as int),
            ),
            forall|bound: u64|
                coherent(old(herd)@, old(anims)@) && named_below(old(herd)@, bound)
                    ==> named_below(herd@, bound),
        decreases anims@.len() - k,
    {
        assert(anims@.take(k + 1).drop_last() == anims@.take(k as int));
        let ghost flock = herd@;
        let ghost live = spinning@ + anims@.skip(k as int);
        let anim: DogChickAnim = anims[k];
        let next: DogChickAnim = DogChickAnim {
            position: anim.position,
            t: deadline(anim.t, dt as u64),
            first_parent: anim.first_parent,
            second_parent: anim.second_parent,
            looker: anim.looker,
        };
        if next.t >= SPIN_TIME {
            let grown: Vec<Creature> = hatch_pair(herd, &next);
            *herd = grown;
            hatched.push(next);
            proof {
                if coherent(old(herd)@, old(anims)@) {
                    let p = spinning@.len() as int;
                    assert(live[p] == anims@[k as int]);
                    lemma_hatched(flock, live, p, next);
                    assert(live.remove(p) == spinning@ + anims@.skip(k + 1));
                }
            }
        } else {
            let ghost before = spinning@;
            spinning.push(next);
            proof {
                if coherent(old(herd)@, old(anims)@) {
                    let after = spinning@ + anims@.skip(k + 1);
                    assert(after.len() == live.len());
                    assert forall|a: int| 0 <= a < live.len() implies (
                    #[trigger] after[a]).first_parent == live[a].first_parent
                        && after[a].second_parent == live[a].second_parent by {
                        if a < before.len() {
                            assert(after[a] == live[a]);
                        } else if a == before.len() {
                            assert(live[a] == anims@[k as int]);
                            assert(after[a] == next);
                        } else {
                            assert(after[a] == anims@[k + 1 + (a - before.len() - 1)]);
                            assert(live[a] == anims@[k + (a - before.len())]);
                        }
                    }
                    lemma_same_parents(flock, live, after);
                }
            }
        }
        k += 1;
    }
    assert(anims@.take(k as int) == anims@);
    assert(spinning@ + anims@.skip(k as int) == spinning@);
    *anims = spinning;
    hatched
}

} // verus!
