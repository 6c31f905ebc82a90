//! The push that keeps creatures apart.
//!
//! Each neighbour nearer than a fixed radius pushes a creature straight away
//! from itself, the harder the nearer it is: ten units over the distance. A
//! neighbour at the very same place pushes nowhere.

use vstd::prelude::*;
use crate::fixed::{div_toward_zero, saturate, saturate_i32, trunc_div, Vec2};
use crate::spatial::{others_in_reach, Entry, SpatialIndex};

verus! {

/// Neighbours nearer than this push.
pub const AVOID_RADIUS: u32 = 20_000;

/// The strength of the push: ten units, as a fixed-point vector component per
/// fixed-point step of distance.
pub const PUSH: i64 = 10_000_000;

/// One axis of the push on a creature from a neighbour that lies `delta` away
/// along that axis, at squared distance `d2`: against `delta`, rounded toward
/// zero.
pub open spec fn push_axis(delta: int, d2: int) -> int
    recommends
        d2 > 0,
{
    -trunc_div(PUSH * delta, d2)
}

/// The push on a creature at `me` from a neighbour at `other`.
pub open spec fn push_from(me: Vec2, other: Vec2) -> (int, int) {
    let d2 = me.dist2(other);
    if d2 == 0 {
        (0, 0)
    } else {
        (push_axis(other.x - me.x, d2), push_axis(other.y - me.y, d2))
    }
}

/// The sum of the pushes on a creature at `me` from all of `others`.
pub open spec fn push_sum(me: Vec2, others: Seq<Entry>) -> (int, int)
    decreases others.len(),
{
    if others.len() == 0 {
        (0, 0)
    } else {
        let rest = push_sum(me, others.drop_last());
        let last = push_from(me, others.last().position);
        (rest.0 + last.0, rest.1 + last.1)
    }
}

/// The push on the creature numbered `id` at `pos` from everything else in
/// `entries` that is nearer than [`AVOID_RADIUS`], brought into the range of
/// a vector component.
pub open spec fn getaway_spec(id: usize, pos: Vec2, entries: Seq<Entry>) -> Vec2 {
    let sum = push_sum(pos, entries.filter(others_in_reach(id, pos, AVOID_RADIUS as int)));
    Vec2 { x: saturate(sum.0), y: saturate(sum.1) }
}

/// Two creatures push each other with opposite and equal force.
pub proof fn lemma_push_antisymmetric(a: Vec2, b: Vec2)
    ensures
        push_from(a, b).0 == -push_from(b, a).0,
        push_from(a, b).1 == -push_from(b, a).1,
{
    let dx = b.x - a.x;
    let dy = b.y - a.y;
    assert(a.dist2(b) == b.dist2(a)) by (nonlinear_arith)
        requires
            a.dist2(b) == dx * dx + dy * dy,
            b.dist2(a) == (-dx) * (-dx) + (-dy) * (-dy),
    ;
    assert(PUSH * (-dx) == -(PUSH * dx)) by (nonlinear_arith);
    assert(PUSH * (-dy) == -(PUSH * dy)) by (nonlinear_arith);
}

/// The sum of the pushes with the push of one neighbour set apart.
proof fn lemma_push_sum_remove(me: Vec2, others: Seq<Entry>, i: int)
    requires
        0 <= i < others.len(),
    ensures
        push_sum(me, others).0 == push_sum(me, others.remove(i)).0 + push_from(
            me,
            others[i].position,
        ).0,
        push_sum(me, others).1 == push_sum(me, others.remove(i)).1 + push_from(
            me,
            others[i].position,
        ).1,
    decreases others.len(),
{
    if i == others.len() - 1 {
        assert(others.remove(i) == others.drop_last());
    } else {
        assert(others.remove(i).drop_last() == others.drop_last().remove(i));
        assert(others.remove(i).last() == others.last());
        lemma_push_sum_remove(me, others.drop_last(), i);
    }
}

/// The sum of the pushes does not depend on the order of the neighbours.
pub proof fn lemma_push_sum_any_order(me: Vec2, a: Seq<Entry>, b: Seq<Entry>)
    requires
        a.to_multiset() == b.to_multiset(),
    ensures
        push_sum(me, a) == push_sum(me, b),
    decreases a.len(),
{
    vstd::seq_lib::to_multiset_len(a);
    vstd::seq_lib::to_multiset_len(b);
    if a.len() > 0 {
        let last = a.last();
        assert(a.contains(last)) by {
            assert(a[a.len() - 1] == last);
        }
        crate::spatial::lemma_same_members(a, b, last);
        let i = choose|i: int| 0 <= i < b.len() && b[i] == last;
        assert(a.drop_last() == a.remove(a.len() - 1));
        vstd::seq_lib::to_multiset_remove(a, a.len() - 1);
        vstd::seq_lib::to_multiset_remove(b, i);
        lemma_push_sum_any_order(me, a.drop_last(), b.remove(i));
        lemma_push_sum_remove(me, b, i);
    }
}

/// No single push is stronger than [`PUSH`] along an axis.
proof fn lemma_push_axis_bound(delta: int, d2: int)
    requires
        d2 > 0,
        delta * delta <= d2,
    ensures
        -PUSH <= push_axis(delta, d2) <= PUSH,
{
    let a = if delta < 0 {
        -delta
    } else {
        delta
    };
    assert(a * a == delta * delta) by (nonlinear_arith)
        requires
            a == delta || a == -delta,
    ;
    assert(a <= d2) by (nonlinear_arith)
        requires
            a >= 0,
            a * a <= d2,
            d2 > 0,
    ;
    assert(PUSH * delta == if delta < 0 {
        -(PUSH * a)
    } else {
        PUSH * a
    }) by (nonlinear_arith)
        requires
            a == if delta < 0 {
                -delta
            } else {
                delta
            },
    ;
    assert(0 <= PUSH * a <= PUSH * d2) by (nonlinear_arith)
        requires
            0 <= a <= d2,
    ;
    vstd::arithmetic::div_mod::lemma_div_pos_is_pos(PUSH * a, d2);
    vstd::arithmetic::div_mod::lemma_div_is_ordered(PUSH * a, PUSH * d2, d2);
    vstd::arithmetic::div_mod::lemma_div_multiples_vanish(PUSH as int, d2);
    assert(PUSH * d2 == d2 * PUSH) by (nonlinear_arith);
    if delta == 0 {
        assert(PUSH * delta == 0);
    }
}

fn push_along(delta: i128, d2: i128) -> (p: i128)
    requires
        d2 > 0,
        delta * delta <= d2,
        -0x1_0000_0000 <= delta <= 0x1_0000_0000,
    ensures
        p == push_axis(delta as int, d2 as int),
        -PUSH <= p <= PUSH,
{
    proof {
        lemma_push_axis_bound(delta as int, d2 as int);
    }
    assert(PUSH * delta == 10_000_000 * delta) by (nonlinear_arith)
        requires
            PUSH == 10_000_000,
    ;
    let scaled: i128 = 10_000_000 * delta;
    let q: i128 = div_toward_zero(scaled, d2);
    -q
}

/// Computes [`push_from`].
pub fn push(me: Vec2, other: Vec2) -> (p: (i128, i128))
    ensures
        p.0 == push_from(me, other).0,
        p.1 == push_from(me, other).1,
        -PUSH <= p.0 <= PUSH,
        -PUSH <= p.1 <= PUSH,
{
    let d2: i128 = me.distance_squared(other);
    if d2 == 0 {
        return (0, 0);
    }
    let dx: i128 = other.x as i128 - me.x as i128;
    let dy: i128 = other.y as i128 - me.y as i128;
    assert(dx * dx >= 0 && dy * dy >= 0) by (nonlinear_arith);
    (push_along(dx, d2), push_along(dy, d2))
}

/// Computes [`getaway_spec`] with one query of the index.
pub fn getaway(index: &SpatialIndex, id: usize, pos: Vec2) -> (v: Vec2)
    ensures
        v == getaway_spec(id, pos, index@),
{
    let hits: Vec<Entry> = index.neighbours(id, pos, AVOID_RADIUS);
    let mut sum_x: i128 = 0;
    let mut sum_y: i128 = 0;
    let mut k: usize = 0;
    assert(hits@.take(0) == Seq::<Entry>::empty());
    while k < hits.len()
        invariant
            k <= hits.len(),
            sum_x == push_sum(pos, hits@.take(k as int)).0,
            sum_y == push_sum(pos, hits@.take(k as int)).1,
            -10_000_000 * k <= sum_x <= 10_000_000 * k,
            -10_000_000 * k <= sum_y <= 10_000_000 * k,
        decreases hits.len() - k,
    {
        let p: (i128, i128) = push(pos, hits[k].position);
        assert(hits@.take(k + 1).drop_last() == hits@.take(k as int));
        sum_x = sum_x + p.0;
        sum_y = sum_y + p.1;
        k += 1;
    }
    assert(hits@.take(k as int) == hits@);
    proof {
        lemma_push_sum_any_order(
            pos,
            hits@,
            index@.filter(others_in_reach(id, pos, AVOID_RADIUS as int)),
        );
    }
    Vec2 { x: saturate_i32(sum_x), y: saturate_i32(sum_y) }
}

} // verus!
