//! The trees of the forest: scattered at random, but never two of them close
//! together.

use vstd::prelude::*;
use crate::fixed::Vec2;
use crate::rng::random_below;

verus! {

/// How many places are tried for trees.
pub const TREE_TRIES: u32 = 300;

/// No tree stands nearer to another than this.
pub const TREE_SPACING: u32 = 20_000;

/// The width of the strip in which trees are tried.
pub const GROVE_WIDTH: u32 = 1_500_000;

/// The height of the strip in which trees are tried.
pub const GROVE_HEIGHT: u32 = 350_000;

/// The left edge of the strip in which trees are tried.
pub const GROVE_LEFT: i32 = -750_000;

/// The lower edge of the strip in which trees are tried.
pub const GROVE_BOTTOM: i32 = 200_000;

/// True when none of the trees stands nearer to `place` than
/// [`TREE_SPACING`].
pub open spec fn clear_of(trees: Seq<Vec2>, place: Vec2) -> bool {
    forall|k: int| 0 <= k < trees.len() ==> !(#[trigger] trees[k]).near(place, TREE_SPACING as int)
}

/// The trees that come of trying the places one after the other: a place gets
/// a tree if it is clear of the trees planted before it.
pub open spec fn planted(places: Seq<Vec2>) -> Seq<Vec2>
    decreases places.len(),
{
    if places.len() == 0 {
        Seq::empty()
    } else {
        let before = planted(places.drop_last());
        if clear_of(before, places.last()) {
            before.push(places.last())
        } else {
            before
        }
    }
}

/// True when the place lies in the strip in which trees are tried.
pub open spec fn in_grove(place: Vec2) -> bool {
    &&& GROVE_LEFT <= place.x < GROVE_LEFT + GROVE_WIDTH
    &&& GROVE_BOTTOM <= place.y < GROVE_BOTTOM + GROVE_HEIGHT
}

/// No two of the planted trees stand nearer to each other than
/// [`TREE_SPACING`], every tree stands on one of the places that were tried,
/// and there are no more trees than places.
pub proof fn lemma_trees_stand_apart(places: Seq<Vec2>)
    ensures
        forall|i: int, j: int|
            0 <= i < j < planted(places).len() ==> !(#[trigger] planted(places)[i]).near(
                #[trigger] planted(places)[j],
                TREE_SPACING as int,
            ),
        forall|k: int| 0 <= k < planted(places).len() ==> places.contains(#[trigger] planted(places)[k]),
        planted(places).len() <= places.len(),
    decreases places.len(),
{
    if places.len() > 0 {
        let earlier = places.drop_last();
        let before = planted(earlier);
        let trees = planted(places);
        lemma_trees_stand_apart(earlier);
        assert forall|k: int| 0 <= k < trees.len() implies places.contains(#[trigger] trees[k]) by {
            if k < before.len() {
                assert(trees[k] == before[k]);
                assert(earlier.contains(before[k]));
                let m = choose|m: int| 0 <= m < earlier.len() && earlier[m] == before[k];
                assert(places[m] == earlier[m]);
            } else {
                assert(places[places.len() - 1] == trees[k]);
            }
        }
        assert forall|i: int, j: int| 0 <= i < j < trees.len() implies !(#[trigger] trees[i]).near(
            #[trigger] trees[j],
            TREE_SPACING as int,
        ) by {
            assert(trees[i] == before[i]);
            if j < before.len() {
                assert(trees[j] == before[j]);
            }
        }
    }
}

/// Computes [`clear_of`].
pub fn is_clear(trees: &Vec<Vec2>, place: Vec2) -> (b: bool)
    ensures
        b == clear_of(trees@, place),
{
    let mut k: usize = 0;
    while k < trees.len()
        invariant
            k <= trees@.len(),
            forall|j: int| 0 <= j < k ==> !(#[trigger] trees@[j]).near(place, TREE_SPACING as int),
        decreases trees@.len() - k,
    {
        if trees[k].is_near(place, TREE_SPACING) {
            return false;
        }
        k += 1;
    }
    true
}

/// Computes [`planted`].
pub fn plant(places: &Vec<Vec2>) -> (trees: Vec<Vec2>)
    ensures
        trees@ == planted(places@),
{
    let mut trees: Vec<Vec2> = Vec::new();
    let mut k: usize = 0;
    assert(places@.take(0) == Seq::<Vec2>::empty());
    while k < places.len()
        invariant
            k <= places@.len(),
            trees@ == planted(places@.take(k as int)),
        decreases places@.len() - k,
    {
        assert(places@.take(k + 1).drop_last() == places@.take(k as int));
        if is_clear(&trees, places[k]) {
            trees.push(places[k]);
        }
        k += 1;
    }
    assert(places@.take(k as int) == places@);
    trees
}

/// Draws a place in the strip in which trees are tried.
pub fn random_place() -> (place: Vec2)
    ensures
        in_grove(place),
{
    let x: u32 = random_below(GROVE_WIDTH);
    let y: u32 = random_below(GROVE_HEIGHT);
    Vec2 { x: GROVE_LEFT + x as i32, y: GROVE_BOTTOM + y as i32 }
}

/// Tries `tries` places drawn at random, and plants the trees: the result is
/// [`planted`] for some places in the strip.
pub fn random_grove(tries: u32) -> (trees: Vec<Vec2>)
    ensures
        exists|places: Seq<Vec2>|
            places.len() == tries && (forall|k: int|
                0 <= k < places.len() ==> in_grove(#[trigger] places[k])) && trees@ == planted(
                places,
            ),
{
    let mut places: Vec<Vec2> = Vec::new();
    let mut k: u32 = 0;
    while k < tries
        invariant
            k <= tries,
            places@.len() == k,
            forall|j: int| 0 <= j < places@.len() ==> in_grove(#[trigger] places@[j]),
        decreases tries - k,
    {
        places.push(random_place());
        k += 1;
    }
    plant(&places)
}

} // verus!
