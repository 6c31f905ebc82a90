//! What a wolf hunts: the nearest dog, chicken or hybrid that is not inside
//! its pen.

use vstd::prelude::*;
use crate::creature::Creature;
use crate::fixed::Vec2;
use crate::looker::LookerLocation;

verus! {

/// The point of `points` nearest to `pos`, the earliest of them where several
/// are equally near; nothing where there are no points.
pub open spec fn nearest_of(pos: Vec2, points: Seq<Vec2>) -> Option<Vec2>
    decreases points.len(),
{
    if points.len() == 0 {
        None
    } else {
        match nearest_of(pos, points.drop_last()) {
            Some(best) => if points.last().dist2(pos) < best.dist2(pos) {
                Some(points.last())
            } else {
                Some(best)
            },
            None => Some(points.last()),
        }
    }
}

/// The nearest point is one of the points, and none of them is nearer.
pub proof fn lemma_nearest_is_nearest(pos: Vec2, points: Seq<Vec2>)
    ensures
        points.len() == 0 <==> nearest_of(pos, points) is None,
        points.len() > 0 ==> points.contains(nearest_of(pos, points)->0),
        forall|k: int|
            0 <= k < points.len() ==> nearest_of(pos, points)->0.dist2(pos) <= (
            #[trigger] points[k]).dist2(pos),
    decreases points.len(),
{
    if points.len() > 0 {
        let rest = points.drop_last();
        lemma_nearest_is_nearest(pos, rest);
        let best = nearest_of(pos, points)->0;
        if rest.len() > 0 && !(points.last().dist2(pos) < nearest_of(pos, rest)->0.dist2(pos)) {
            let j = choose|j: int| 0 <= j < rest.len() && rest[j] == nearest_of(pos, rest)->0;
            assert(points[j] == best);
        } else {
            assert(points[points.len() - 1] == best);
        }
        assert forall|k: int| 0 <= k < points.len() implies best.dist2(pos) <= (
        #[trigger] points[k]).dist2(pos) by {
            if k < rest.len() {
                assert(rest[k] == points[k]);
            }
        }
    }
}

/// The places of the prey among the herd, in the order of the herd: of the
/// dogs, chickens and hybrids that still take part and are not inside.
pub open spec fn prey_places(herd: Seq<Creature>) -> Seq<Vec2>
    decreases herd.len(),
{
    if herd.len() == 0 {
        Seq::empty()
    } else {
        let rest = prey_places(herd.drop_last());
        if herd.last().is_prey() {
            rest.push(herd.last().position)
        } else {
            rest
        }
    }
}

/// Computes [`Creature::is_prey`].
pub fn is_prey(creature: &Creature) -> (b: bool)
    ensures
        b == creature.is_prey(),
{
    if creature.merge_pending {
        return false;
    }
    match creature.kind.looker() {
        Some(looker) => match looker.location {
            LookerLocation::Inside => false,
            LookerLocation::Outside => true,
        },
        None => false,
    }
}

/// Computes [`prey_places`].
pub fn find_prey(herd: &Vec<Creature>) -> (places: Vec<Vec2>)
    ensures
        places@ == prey_places(herd@),
{
    let mut places: Vec<Vec2> = Vec::new();
    let mut k: usize = 0;
    assert(herd@.take(0) == Seq::<Creature>::empty());
    while k < herd.len()
        invariant
            k <= herd.len(),
            places@ == prey_places(herd@.take(k as int)),
        decreases herd.len() - k,
    {
        assert(herd@.take(k + 1).drop_last() == herd@.take(k as int));
        if is_prey(&herd[k]) {
            places.push(herd[k].position);
        }
        k += 1;
    }
    assert(herd@.take(k as int) == herd@);
    places
}

/// Computes [`nearest_of`].
pub fn nearest(pos: Vec2, points: &Vec<Vec2>) -> (best: Option<Vec2>)
    ensures
        best == nearest_of(pos, points@),
{
    let mut best: Option<Vec2> = None;
    let mut best_d2: i128 = 0;
    let mut k: usize = 0;
    assert(points@.take(0) == Seq::<Vec2>::empty());
    while k < points.len()
        invariant
            k <= points.len(),
            best == nearest_of(pos, points@.take(k as int)),
            best is Some ==> best_d2 == best->0.dist2(pos),
        decreases points.len() - k,
    {
        assert(points@.take(k + 1).drop_last() == points@.take(k as int));
        let p: Vec2 = points[k];
        let d2: i128 = p.distance_squared(pos);
        match best {
            Some(_) => {
                if d2 < best_d2 {
                    best = Some(p);
                    best_d2 = d2;
                }
            },
            None => {
                best = Some(p);
                best_d2 = d2;
            },
        }
        k += 1;
    }
    assert(points@.take(k as int) == points@);
    best
}

} // verus!
