//! The books of the world: that every creature has a name of its own, and
//! that the creatures marked for a merge are just the parents of the pairs
//! that spin.

use vstd::prelude::*;
use crate::creature::Creature;
use crate::hybrid::{anim_for, hatch, not_parent, DogChickAnim};
use crate::merge::{chosen, disjoint, marked, Merge};

verus! {

/// True when every creature of the herd has a name below `bound`.
pub open spec fn named_below(herd: Seq<Creature>, bound: u64) -> bool {
    forall|i: int| 0 <= i < herd.len() ==> (#[trigger] herd[i]).id < bound
}

/// True when no two creatures of the herd have the same name.
pub open spec fn distinct(herd: Seq<Creature>) -> bool {
    forall|i: int, j: int|
        0 <= i < j < herd.len() ==> (#[trigger] herd[i]).id != (#[trigger] herd[j]).id
}

/// True when the herd holds a creature named `id` that is marked for a merge.
#[verifier::opaque]
pub open spec fn marked_in(herd: Seq<Creature>, id: u64) -> bool {
    exists|i: int| 0 <= i < herd.len() && (#[trigger] herd[i]).id == id && herd[i].merge_pending
}

/// True when one of the pairs has a parent named `id`.
#[verifier::opaque]
pub open spec fn parent_in(anims: Seq<DogChickAnim>, id: u64) -> bool {
    exists|a: int|
        0 <= a < anims.len() && ((#[trigger] anims[a]).first_parent == id
            || anims[a].second_parent == id)
}

/// True when two pairs have no parent in common.
pub open spec fn apart(a: DogChickAnim, b: DogChickAnim) -> bool {
    &&& a.first_parent != b.first_parent
    &&& a.first_parent != b.second_parent
    &&& a.second_parent != b.first_parent
    &&& a.second_parent != b.second_parent
}

/// True when the books agree: the names of the herd are distinct; each pair
/// that spins has two parents, both in the herd and marked; no two pairs
/// share a parent; and every marked creature is a parent of a pair.
pub open spec fn coherent(herd: Seq<Creature>, anims: Seq<DogChickAnim>) -> bool {
    &&& distinct(herd)
    &&& forall|a: int|
        0 <= a < anims.len() ==> (#[trigger] anims[a]).first_parent != anims[a].second_parent
            && marked_in(herd, anims[a].first_parent) && marked_in(herd, anims[a].second_parent)
    &&& forall|a: int, b: int|
        0 <= a < b < anims.len() ==> apart(#[trigger] anims[a], #[trigger] anims[b])
    &&& forall|i: int|
        0 <= i < herd.len() && (#[trigger] herd[i]).merge_pending ==> parent_in(anims, herd[i].id)
}

proof fn marked_at(herd: Seq<Creature>, id: u64) -> (i: int)
    requires
        marked_in(herd, id),
    ensures
        0 <= i < herd.len(),
        herd[i].id == id,
        herd[i].merge_pending,
{
    reveal(marked_in);
    choose|i: int| 0 <= i < herd.len() && (#[trigger] herd[i]).id == id && herd[i].merge_pending
}

proof fn lemma_marked(herd: Seq<Creature>, i: int)
    requires
        0 <= i < herd.len(),
        herd[i].merge_pending,
    ensures
        marked_in(herd, herd[i].id),
{
    reveal(marked_in);
}

proof fn parent_at(anims: Seq<DogChickAnim>, id: u64) -> (a: int)
    requires
        parent_in(anims, id),
    ensures
        0 <= a < anims.len(),
        anims[a].first_parent == id || anims[a].second_parent == id,
{
    reveal(parent_in);
    choose|a: int|
        0 <= a < anims.len() && ((#[trigger] anims[a]).first_parent == id
            || anims[a].second_parent == id)
}

proof fn lemma_parent(anims: Seq<DogChickAnim>, a: int, id: u64)
    requires
        0 <= a < anims.len(),
        anims[a].first_parent == id || anims[a].second_parent == id,
    ensures
        parent_in(anims, id),
{
    reveal(parent_in);
}

/// The books go by the names and the marks of the creatures, and by nothing
/// else of them.
pub proof fn lemma_same_names(before: Seq<Creature>, after: Seq<Creature>, anims: Seq<DogChickAnim>)
    requires
        after.len() == before.len(),
        forall|k: int|
            0 <= k < before.len() ==> (#[trigger] after[k]).id == before[k].id
                && after[k].merge_pending == before[k].merge_pending,
        coherent(before, anims),
    ensures
        coherent(after, anims),
        forall|bound: u64| named_below(before, bound) ==> named_below(after, bound),
{
    assert forall|id: u64| marked_in(before, id) implies marked_in(after, id) by {
        let i = marked_at(before, id);
        assert(after[i].id == id && after[i].merge_pending);
        lemma_marked(after, i);
    }
    assert forall|i: int, j: int| 0 <= i < j < after.len() implies (#[trigger] after[i]).id != (
    #[trigger] after[j]).id by {
        assert(before[i].id != before[j].id);
    }
    assert forall|i: int| 0 <= i < after.len() && (#[trigger] after[i]).merge_pending implies parent_in(
        anims,
        after[i].id,
    ) by {
        assert(before[i].merge_pending);
    }
    assert forall|bound: u64| named_below(before, bound) implies named_below(after, bound) by {
        assert forall|i: int| 0 <= i < after.len() implies (#[trigger] after[i]).id < bound by {
            assert(before[i].id < bound);
        }
    }
}

/// The books go by the parents of the pairs, and by nothing else of them.
pub proof fn lemma_same_parents(
    herd: Seq<Creature>,
    before: Seq<DogChickAnim>,
    after: Seq<DogChickAnim>,
)
    requires
        after.len() == before.len(),
        forall|a: int|
            0 <= a < before.len() ==> (#[trigger] after[a]).first_parent == before[a].first_parent
                && after[a].second_parent == before[a].second_parent,
        coherent(herd, before),
    ensures
        coherent(herd, after),
{
    assert forall|a: int| 0 <= a < after.len() implies (#[trigger] after[a]).first_parent
        != after[a].second_parent && marked_in(herd, after[a].first_parent) && marked_in(
        herd,
        after[a].second_parent,
    ) by {
        assert(before[a].first_parent != before[a].second_parent);
    }
    assert forall|a: int, b: int| 0 <= a < b < after.len() implies apart(
        #[trigger] after[a],
        #[trigger] after[b],
    ) by {
        assert(apart(before[a], before[b]));
    }
    assert forall|i: int| 0 <= i < herd.len() && (#[trigger] herd[i]).merge_pending implies parent_in(
        after,
        herd[i].id,
    ) by {
        let a = parent_at(before, herd[i].id);
        assert(after[a].first_parent == before[a].first_parent);
        lemma_parent(after, a, herd[i].id);
    }
}

/// A new creature with the next name, not marked, keeps the books in order.
pub proof fn lemma_newcomer(
    herd: Seq<Creature>,
    anims: Seq<DogChickAnim>,
    creature: Creature,
    bound: u64,
)
    requires
        coherent(herd, anims),
        named_below(herd, bound),
        creature.id == bound,
        bound < u64::MAX,
        !creature.merge_pending,
    ensures
        coherent(herd.push(creature), anims),
        named_below(herd.push(creature), (bound + 1) as u64),
{
    let more = herd.push(creature);
    assert forall|id: u64| marked_in(herd, id) implies marked_in(more, id) by {
        let i = marked_at(herd, id);
        assert(more[i] == herd[i]);
        lemma_marked(more, i);
    }
    assert forall|i: int, j: int| 0 <= i < j < more.len() implies (#[trigger] more[i]).id != (
    #[trigger] more[j]).id by {
        assert(more[i] == herd[i]);
        if j < herd.len() {
            assert(more[j] == herd[j]);
        }
    }
    assert forall|i: int| 0 <= i < more.len() && (#[trigger] more[i]).merge_pending implies parent_in(
        anims,
        more[i].id,
    ) by {
        assert(more[i] == herd[i]);
    }
    assert forall|i: int| 0 <= i < more.len() implies (#[trigger] more[i]).id < bound + 1 by {
        if i < herd.len() {
            assert(more[i] == herd[i]);
        }
    }
}

/// True when the pairs `after` are the pairs `before` and, after them, one
/// new pair for each of `pairs`, whose parents are the two creatures of the
/// herd that it names.
pub open spec fn pairs_joined(
    before: Seq<DogChickAnim>,
    after: Seq<DogChickAnim>,
    herd: Seq<Creature>,
    pairs: Seq<Merge>,
) -> bool {
    &&& after.len() == before.len() + pairs.len()
    &&& forall|a: int| 0 <= a < before.len() ==> #[trigger] after[a] == before[a]
    &&& forall|m: int|
        0 <= m < pairs.len() ==> (#[trigger] after[before.len() + m]).first_parent
            == herd[pairs[m].first as int].id && after[before.len() + m].second_parent
            == herd[pairs[m].second as int].id
}

/// Choosing pairs of creatures that were not marked, no creature twice,
/// marking them and setting them spinning keeps the books in order.
pub proof fn lemma_pairs_chosen(
    herd: Seq<Creature>,
    anims: Seq<DogChickAnim>,
    pairs: Seq<Merge>,
    after: Seq<Creature>,
    spinning: Seq<DogChickAnim>,
)
    requires
        coherent(herd, anims),
        forall|m: int|
            0 <= m < pairs.len() ==> {
                &&& 0 <= (#[trigger] pairs[m]).first < herd.len()
                &&& 0 <= pairs[m].second < herd.len()
                &&& pairs[m].first != pairs[m].second
                &&& !herd[pairs[m].first as int].merge_pending
                &&& !herd[pairs[m].second as int].merge_pending
            },
        disjoint(pairs),
        after.len() == herd.len(),
        forall|k: int| 0 <= k < herd.len() ==> #[trigger] after[k] == marked(herd[k], chosen(pairs, k)),
        pairs_joined(anims, spinning, herd, pairs),
    ensures
        coherent(after, spinning),
        forall|bound: u64| named_below(herd, bound) ==> named_below(after, bound),
{
    let n = anims.len() as int;
    assert forall|k: int| 0 <= k < herd.len() implies (#[trigger] after[k]).id == herd[k].id by {
        assert(after[k] == marked(herd[k], chosen(pairs, k)));
    }
    assert forall|id: u64| marked_in(herd, id) implies marked_in(after, id) by {
        let i = marked_at(herd, id);
        assert(after[i] == marked(herd[i], chosen(pairs, i)));
        lemma_marked(after, i);
    }
    assert forall|i: int, j: int| 0 <= i < j < after.len() implies (#[trigger] after[i]).id != (
    #[trigger] after[j]).id by {
        assert(herd[i].id != herd[j].id);
    }
    assert forall|m: int| 0 <= m < pairs.len() implies marked_in(
        after,
        herd[(#[trigger] pairs[m]).first as int].id,
    ) && marked_in(after, herd[pairs[m].second as int].id) by {
        let i = pairs[m].first as int;
        let j = pairs[m].second as int;
        assert(chosen(pairs, i));
        assert(chosen(pairs, j));
        assert(after[i] == marked(herd[i], chosen(pairs, i)));
        assert(after[j] == marked(herd[j], chosen(pairs, j)));
        lemma_marked(after, i);
        lemma_marked(after, j);
    }
    assert forall|a: int| 0 <= a < spinning.len() implies (#[trigger] spinning[a]).first_parent
        != spinning[a].second_parent && marked_in(after, spinning[a].first_parent) && marked_in(
        after,
        spinning[a].second_parent,
    ) by {
        if a < n {
            assert(spinning[a] == anims[a]);
        } else {
            let m = a - n;
            assert(spinning[n + m].first_parent == herd[pairs[m].first as int].id);
            let i = pairs[m].first as int;
            let j = pairs[m].second as int;
            if i < j {
                assert(herd[i].id != herd[j].id);
            } else {
                assert(herd[j].id != herd[i].id);
            }
        }
    }
    assert forall|a: int, b: int| 0 <= a < b < spinning.len() implies apart(
        #[trigger] spinning[a],
        #[trigger] spinning[b],
    ) by {
        if b < n {
            assert(spinning[a] == anims[a] && spinning[b] == anims[b]);
            assert(apart(anims[a], anims[b]));
        } else if a < n {
            let m = b - n;
            assert(spinning[a] == anims[a]);
            assert(spinning[n + m].first_parent == herd[pairs[m].first as int].id);
            lemma_marked_has_its_name(herd, anims[a].first_parent, pairs[m].first as int);
            lemma_marked_has_its_name(herd, anims[a].first_parent, pairs[m].second as int);
            lemma_marked_has_its_name(herd, anims[a].second_parent, pairs[m].first as int);
            lemma_marked_has_its_name(herd, anims[a].second_parent, pairs[m].second as int);
        } else {
            let m1 = a - n;
            let m2 = b - n;
            assert(spinning[n + m1].first_parent == herd[pairs[m1].first as int].id);
            assert(spinning[n + m2].first_parent == herd[pairs[m2].first as int].id);
            lemma_names_tell(herd, pairs[m1].first as int, pairs[m2].first as int);
            lemma_names_tell(herd, pairs[m1].first as int, pairs[m2].second as int);
            lemma_names_tell(herd, pairs[m1].second as int, pairs[m2].first as int);
            lemma_names_tell(herd, pairs[m1].second as int, pairs[m2].second as int);
        }
    }
    assert forall|i: int| 0 <= i < after.len() && (#[trigger] after[i]).merge_pending implies parent_in(
        spinning,
        after[i].id,
    ) by {
        assert(after[i] == marked(herd[i], chosen(pairs, i)));
        if herd[i].merge_pending {
            let a = parent_at(anims, herd[i].id);
            assert(spinning[a] == anims[a]);
            lemma_parent(spinning, a, after[i].id);
        } else {
            let m = choose|m: int|
                0 <= m < pairs.len() && ((#[trigger] pairs[m]).first == i || pairs[m].second == i);
            assert(spinning[n + m].first_parent == herd[pairs[m].first as int].id);
            lemma_parent(spinning, n + m, after[i].id);
        }
    }
    assert forall|bound: u64| named_below(herd, bound) implies named_below(after, bound) by {
        assert forall|i: int| 0 <= i < after.len() implies (#[trigger] after[i]).id < bound by {
            assert(herd[i].id < bound);
        }
    }
}

/// In a herd of distinct names, two places with the same name are one place.
proof fn lemma_names_tell(herd: Seq<Creature>, i: int, j: int)
    requires
        distinct(herd),
        0 <= i < herd.len(),
        0 <= j < herd.len(),
    ensures
        herd[i].id == herd[j].id ==> i == j,
{
    if i < j {
        assert(herd[i].id != herd[j].id);
    } else if j < i {
        assert(herd[j].id != herd[i].id);
    }
}

/// In a herd of distinct names, the creature with a name that a marked
/// creature has is that marked creature.
proof fn lemma_marked_has_its_name(herd: Seq<Creature>, id: u64, k: int)
    requires
        distinct(herd),
        marked_in(herd, id),
        0 <= k < herd.len(),
    ensures
        herd[k].id == id ==> herd[k].merge_pending,
{
    let i = marked_at(herd, id);
    lemma_names_tell(herd, i, k);
}

/// What passes a test is part of what was put to it: every creature of the
/// result is a creature of the herd, and the order is kept, so that distinct
/// names stay distinct.
proof fn lemma_filter_distinct(herd: Seq<Creature>, pred: spec_fn(Creature) -> bool)
    requires
        distinct(herd),
    ensures
        distinct(herd.filter(pred)),
    decreases herd.len(),
{
    reveal(Seq::filter);
    if herd.len() > 0 {
        let rest = herd.drop_last();
        let last = herd.last();
        assert forall|i: int, j: int| 0 <= i < j < rest.len() implies (#[trigger] rest[i]).id != (
        #[trigger] rest[j]).id by {
            assert(rest[i] == herd[i] && rest[j] == herd[j]);
        }
        lemma_filter_distinct(rest, pred);
        if pred(last) {
            let kept = rest.filter(pred);
            let all = kept.push(last);
            assert forall|i: int, j: int| 0 <= i < j < all.len() implies (#[trigger] all[i]).id != (
            #[trigger] all[j]).id by {
                assert(all[i] == kept[i]);
                if j < kept.len() {
                    assert(all[j] == kept[j]);
                } else {
                    assert(kept.contains(kept[i]));
                    rest.lemma_filter_contains_rev(pred, kept[i]);
                    let k = choose|k: int| 0 <= k < rest.len() && rest[k] == kept[i];
                    assert(herd[k] == rest[k]);
                    assert(herd[k].id != herd[herd.len() - 1].id);
                }
            }
        }
    }
}

/// Hatching a pair keeps the books in order: its two parents leave, the
/// hybrid takes the name of the first, and the pair spins no more.
pub proof fn lemma_hatched(
    herd: Seq<Creature>,
    anims: Seq<DogChickAnim>,
    p: int,
    pair: DogChickAnim,
)
    requires
        coherent(herd, anims),
        0 <= p < anims.len(),
        pair.first_parent == anims[p].first_parent,
        pair.second_parent == anims[p].second_parent,
    ensures
        coherent(hatch(herd, pair), anims.remove(p)),
        forall|bound: u64| named_below(herd, bound) ==> named_below(hatch(herd, pair), bound),
{
    let pred = not_parent(pair);
    let kept = herd.filter(pred);
    let after = hatch(herd, pair);
    let left = anims.remove(p);
    let hybrid = pair.hybrid();
    lemma_filter_distinct(herd, pred);
    // whatever was kept was in the herd and is no parent of the pair
    assert forall|i: int| 0 <= i < kept.len() implies herd.contains(#[trigger] kept[i]) && pred(
        kept[i],
    ) by {
        assert(kept.contains(kept[i]));
        herd.lemma_filter_contains_rev(pred, kept[i]);
        herd.lemma_filter_pred(pred, i);
    }
    // the name of the hybrid is free again
    assert forall|i: int| 0 <= i < kept.len() implies (#[trigger] kept[i]).id != hybrid.id by {
        assert(herd.contains(kept[i]) && pred(kept[i]));
        let k = choose|k: int| 0 <= k < herd.len() && herd[k] == kept[i];
        assert(marked_in(herd, anims[p].first_parent));
        lemma_marked_has_its_name(herd, pair.first_parent, k);
    }
    assert forall|i: int, j: int| 0 <= i < j < after.len() implies (#[trigger] after[i]).id != (
    #[trigger] after[j]).id by {
        assert(after[i] == kept[i]);
        if j < kept.len() {
            assert(after[j] == kept[j]);
        }
    }
    // the other pairs keep their parents
    assert forall|a: int| 0 <= a < left.len() implies (#[trigger] left[a]).first_parent
        != left[a].second_parent && marked_in(after, left[a].first_parent) && marked_in(
        after,
        left[a].second_parent,
    ) by {
        let q = if a < p {
            a
        } else {
            a + 1
        };
        assert(left[a] == anims[q]);
        if q < p {
            assert(apart(anims[q], anims[p]));
        } else {
            assert(apart(anims[p], anims[q]));
        }
        lemma_marked_stays(herd, pair, anims[q].first_parent);
        lemma_marked_stays(herd, pair, anims[q].second_parent);
    }
    assert forall|a: int, b: int| 0 <= a < b < left.len() implies apart(
        #[trigger] left[a],
        #[trigger] left[b],
    ) by {
        let qa = if a < p {
            a
        } else {
            a + 1
        };
        let qb = if b < p {
            b
        } else {
            b + 1
        };
        assert(left[a] == anims[qa] && left[b] == anims[qb]);
        assert(apart(anims[qa], anims[qb]));
    }
    // every creature that is still marked is a parent of another pair
    assert forall|i: int| 0 <= i < after.len() && (#[trigger] after[i]).merge_pending implies parent_in(
        left,
        after[i].id,
    ) by {
        assert(after[i] == kept[i]);
        assert(herd.contains(kept[i]) && pred(kept[i]));
        let k = choose|k: int| 0 <= k < herd.len() && herd[k] == kept[i];
        assert(herd[k].merge_pending);
        let q = parent_at(anims, herd[k].id);
        assert(q != p);
        let a = if q < p {
            q
        } else {
            q - 1
        };
        assert(left[a] == anims[q]);
        lemma_parent(left, a, after[i].id);
    }
    assert forall|bound: u64| named_below(herd, bound) implies named_below(after, bound) by {
        let k = marked_at(herd, anims[p].first_parent);
        assert forall|i: int| 0 <= i < after.len() implies (#[trigger] after[i]).id < bound by {
            if i < kept.len() {
                assert(after[i] == kept[i]);
                assert(herd.contains(kept[i]));
                let j = choose|j: int| 0 <= j < herd.len() && herd[j] == kept[i];
                assert(herd[j].id < bound);
            } else {
                assert(herd[k].id < bound);
            }
        }
    }
}

/// How many creatures of the herd are parents of the pair.
pub open spec fn parents_among(herd: Seq<Creature>, pair: DogChickAnim) -> nat
    decreases herd.len(),
{
    if herd.len() == 0 {
        0
    } else if pair.is_parent(herd.last()) {
        parents_among(herd.drop_last(), pair) + 1
    } else {
        parents_among(herd.drop_last(), pair)
    }
}

proof fn lemma_parents_leave(herd: Seq<Creature>, pair: DogChickAnim)
    ensures
        herd.filter(not_parent(pair)).len() + parents_among(herd, pair) == herd.len(),
    decreases herd.len(),
{
    reveal(Seq::filter);
    if herd.len() > 0 {
        lemma_parents_leave(herd.drop_last(), pair);
    }
}

proof fn lemma_parents_counted(herd: Seq<Creature>, pair: DogChickAnim, i: int, j: int, n: int)
    requires
        0 <= n <= herd.len(),
        0 <= i < herd.len(),
        0 <= j < herd.len(),
        i != j,
        forall|k: int| 0 <= k < herd.len() ==> (pair.is_parent(#[trigger] herd[k]) <==> k == i || k == j),
    ensures
        parents_among(herd.take(n), pair) == (if i < n {
            1nat
        } else {
            0nat
        }) + (if j < n {
            1nat
        } else {
            0nat
        }),
    decreases n,
{
    if n > 0 {
        lemma_parents_counted(herd, pair, i, j, n - 1);
        assert(herd.take(n).drop_last() == herd.take(n - 1));
        assert(herd.take(n).last() == herd[n - 1]);
    }
}

/// When a pair hatches while the books agree, just two creatures leave the
/// herd and one joins it.
pub proof fn lemma_two_leave_one_joins(
    herd: Seq<Creature>,
    anims: Seq<DogChickAnim>,
    p: int,
    pair: DogChickAnim,
)
    requires
        coherent(herd, anims),
        0 <= p < anims.len(),
        pair.first_parent == anims[p].first_parent,
        pair.second_parent == anims[p].second_parent,
    ensures
        parents_among(herd, pair) == 2,
        hatch(herd, pair).len() == herd.len() - 1,
{
    let i = marked_at(herd, anims[p].first_parent);
    let j = marked_at(herd, anims[p].second_parent);
    assert forall|k: int| 0 <= k < herd.len() implies (pair.is_parent(#[trigger] herd[k]) <==> k
        == i || k == j) by {
        lemma_names_tell(herd, i, k);
        lemma_names_tell(herd, j, k);
    }
    lemma_parents_counted(herd, pair, i, j, herd.len() as int);
    assert(herd.take(herd.len() as int) == herd);
    lemma_parents_leave(herd, pair);
}

/// A marked creature that is no parent of a pair is still in the herd, and
/// still marked, when that pair has hatched.
proof fn lemma_marked_stays(herd: Seq<Creature>, pair: DogChickAnim, id: u64)
    requires
        marked_in(herd, id),
        id != pair.first_parent,
        id != pair.second_parent,
    ensures
        marked_in(hatch(herd, pair), id),
{
    let pred = not_parent(pair);
    let kept = herd.filter(pred);
    let i = marked_at(herd, id);
    herd.lemma_filter_contains(pred, i);
    let k = choose|k: int| 0 <= k < kept.len() && kept[k] == herd[i];
    assert(hatch(herd, pair)[k] == kept[k]);
    lemma_marked(hatch(herd, pair), k);
}

} // verus!
