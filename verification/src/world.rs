//! The world: the herd, the pairs that spin, and what happens to them in one
//! tick.

use vstd::prelude::*;
use crate::census::{
    coherent, lemma_newcomer, lemma_pairs_chosen, lemma_same_names, named_below, pairs_joined,
};
use crate::creature::Creature;
use crate::fright::{fright_pass, frightened_if, startled_events, threatened, ThreatTriggered};
use crate::herd::{pushed, repulsion_pass, snapshot, snapshot_of};
use crate::hybrid::{anim_for, begin_merges, event_for, DogChickAnim, MergeOccurred};
use crate::merge::{chosen, disjoint, eligible, marked, merge_pass, Merge};
use crate::score::Score;
use crate::spatial::SpatialIndex;
use crate::spawn::{
    is_new_chicken, is_new_dog, is_new_wolf, random_chicken, random_dog, random_wolf,
};

verus! {

/// How many wolves a game starts with.
pub const WOLVES: u32 = 10;

/// How many dogs a game starts with.
pub const DOGS: u32 = 70;

/// How many chickens a game starts with.
pub const CHICKENS: u32 = 70;

/// All that is simulated: the herd, the chosen pairs that still spin, and the
/// name that the next new creature gets.
#[derive(Debug, PartialEq, Eq)]
pub struct World {
    pub herd: Vec<Creature>,
    pub anims: Vec<DogChickAnim>,
    pub next_id: u64,
}

/// What happened in one pass of [`collision_avoidance`]: which pairs were
/// chosen, by their places in the herd, what is told of each, and which
/// creatures were startled.
#[derive(Debug, PartialEq, Eq)]
pub struct Encounters {
    pub pairs: Vec<Merge>,
    pub merges: Vec<MergeOccurred>,
    pub frights: Vec<ThreatTriggered>,
}

/// The herd with every creature pushed as the snapshot says.
pub open spec fn herd_pushed(herd: Seq<Creature>, snap: Seq<crate::spatial::Entry>) -> Seq<Creature> {
    Seq::new(herd.len(), |k: int| pushed(herd[k], k, snap))
}

impl World {
    /// A world with nothing in it.
    pub fn new() -> (world: World)
        ensures
            world.herd@.len() == 0,
            world.anims@.len() == 0,
            world.next_id == 0,
            world.coherent(),
    {
        World { herd: Vec::new(), anims: Vec::new(), next_id: 0 }
    }

    /// True when the books of the world agree: every creature has a name of
    /// its own, below the name that comes next, and the marked creatures
    /// are just the parents of the pairs that spin.
    pub open spec fn coherent(self) -> bool {
        coherent(self.herd@, self.anims@) && named_below(self.herd@, self.next_id)
    }

    /// True when the world is the same as `before` but for one more creature
    /// at the end of the herd, which bears the name that was next.
    pub open spec fn grew_from(self, before: World) -> bool {
        &&& before.next_id < u64::MAX
        &&& self.next_id == before.next_id + 1
        &&& self.anims@ == before.anims@
        &&& self.herd@.len() == before.herd@.len() + 1
        &&& self.herd@.drop_last() == before.herd@
        &&& self.herd@.last().id == before.next_id
    }
}

/// Puts a new wolf into the world, at a place drawn at random, and gives its
/// name; does nothing and gives no name when the names have run out.
pub fn spawn_wolf(world: &mut World) -> (id: Option<u64>)
    ensures
        match id {
            Some(id) => final(world).grew_from(*old(world)) && id == old(world).next_id
                && is_new_wolf(final(world).herd@.last(), id),
            None => old(world).next_id == u64::MAX && *final(world) == *old(world),
        },
        old(world).coherent() ==> final(world).coherent(),
{
    if world.next_id == u64::MAX {
        return None;
    }
    let id: u64 = world.next_id;
    let creature: Creature = random_wolf(id);
    world.herd.push(creature);
    world.next_id = id + 1;
    proof {
        assert(world.herd@.drop_last() == old(world).herd@);
        if old(world).coherent() {
            lemma_newcomer(old(world).herd@, old(world).anims@, creature, id);
        }
    }
    Some(id)
}

/// Puts a new chicken into the world, at a place drawn at random, and gives
/// its name; does nothing and gives no name when the names have run out.
pub fn spawn_chicken(world: &mut World) -> (id: Option<u64>)
    ensures
        match id {
            Some(id) => final(world).grew_from(*old(world)) && id == old(world).next_id
                && is_new_chicken(final(world).herd@.last(), id),
            None => old(world).next_id == u64::MAX && *final(world) == *old(world),
        },
        old(world).coherent() ==> final(world).coherent(),
{
    if world.next_id == u64::MAX {
        return None;
    }
    let id: u64 = world.next_id;
    let creature: Creature = random_chicken(id);
    world.herd.push(creature);
    world.next_id = id + 1;
    proof {
        assert(world.herd@.drop_last() == old(world).herd@);
        if old(world).coherent() {
            lemma_newcomer(old(world).herd@, old(world).anims@, creature, id);
        }
    }
    Some(id)
}

/// Puts a new dog into the world, at a place drawn at random, and gives its
/// name; does nothing and gives no name when the names have run out.
pub fn spawn_dog(world: &mut World) -> (id: Option<u64>)
    ensures
        match id {
            Some(id) => final(world).grew_from(*old(world)) && id == old(world).next_id
                && is_new_dog(final(world).herd@.last(), id),
            None => old(world).next_id == u64::MAX && *final(world) == *old(world),
        },
        old(world).coherent() ==> final(world).coherent(),
{
    if world.next_id == u64::MAX {
        return None;
    }
    let id: u64 = world.next_id;
    let creature: Creature = random_dog(id);
    world.herd.push(creature);
    world.next_id = id + 1;
    proof {
        assert(world.herd@.drop_last() == old(world).herd@);
        if old(world).coherent() {
            lemma_newcomer(old(world).herd@, old(world).anims@, creature, id);
        }
    }
    Some(id)
}

/// Empties the world and fills it anew: with `wolves` wolves, then `dogs`
/// dogs, then `chickens` chickens, each at a place drawn at random and
/// named by its place in the herd.
pub fn reset(world: &mut World, wolves: u32, dogs: u32, chickens: u32)
    ensures
        final(world).anims@.len() == 0,
        final(world).herd@.len() == wolves + dogs + chickens,
        final(world).next_id == wolves + dogs + chickens,
        forall|k: int| 0 <= k < wolves ==> is_new_wolf(#[trigger] final(world).herd@[k], k as u64),
        forall|k: int|
            wolves <= k < wolves + dogs ==> is_new_dog(#[trigger] final(world).herd@[k], k as u64),
        forall|k: int|
            wolves + dogs <= k < wolves + dogs + chickens ==> is_new_chicken(
                #[trigger] final(world).herd@[k],
                k as u64,
            ),
        final(world).coherent(),
{
    let mut herd: Vec<Creature> = Vec::new();
    let mut id: u64 = 0;
    let mut made: u32 = 0;
    while made < wolves
        invariant
            made <= wolves,
            id == made,
            herd@.len() == made,
            forall|k: int| 0 <= k < made ==> is_new_wolf(#[trigger] herd@[k], k as u64),
        decreases wolves - made,
    {
        herd.push(random_wolf(id));
        id += 1;
        made += 1;
    }
    made = 0;
    while made < dogs
        invariant
            made <= dogs,
            id == wolves + made,
            herd@.len() == wolves + made,
            forall|k: int| 0 <= k < wolves ==> is_new_wolf(#[trigger] herd@[k], k as u64),
            forall|k: int| wolves <= k < wolves + made ==> is_new_dog(#[trigger] herd@[k], k as u64),
        decreases dogs - made,
    {
        herd.push(random_dog(id));
        id += 1;
        made += 1;
    }
    made = 0;
    while made < chickens
        invariant
            made <= chickens,
            id == wolves + dogs + made,
            herd@.len() == wolves + dogs + made,
            forall|k: int| 0 <= k < wolves ==> is_new_wolf(#[trigger] herd@[k], k as u64),
            forall|k: int| wolves <= k < wolves + dogs ==> is_new_dog(#[trigger] herd@[k], k as u64),
            forall|k: int|
                wolves + dogs <= k < wolves + dogs + made ==> is_new_chicken(
                    #[trigger] herd@[k],
                    k as u64,
                ),
        decreases chickens - made,
    {
        herd.push(random_chicken(id));
        id += 1;
        made += 1;
    }
    proof {
        let none = Seq::<DogChickAnim>::empty();
        assert forall|k: int| 0 <= k < herd@.len() implies (#[trigger] herd@[k]).id == k
            && !herd@[k].merge_pending by {
            if k < wolves {
                assert(is_new_wolf(herd@[k], k as u64));
            } else if k < wolves + dogs {
                assert(is_new_dog(herd@[k], k as u64));
            } else {
                assert(is_new_chicken(herd@[k], k as u64));
            }
        }
        assert(coherent(herd@, none));
    }
    world.herd = herd;
    world.anims = Vec::new();
    world.next_id = id;
}

/// Starts a game at time `now`: the world is filled anew with [`WOLVES`]
/// wolves, [`DOGS`] dogs and [`CHICKENS`] chickens, see [`reset`], and the
/// score starts at nothing.
pub fn start_game(world: &mut World, now: u64) -> (score: Score)
    ensures
        score == (Score {
            score: 0,
            time_end: crate::fixed::deadline_spec(now, crate::score::GAME_TIME),
        }),
        final(world).anims@.len() == 0,
        final(world).herd@.len() == WOLVES + DOGS + CHICKENS,
        final(world).next_id == WOLVES + DOGS + CHICKENS,
        forall|k: int| 0 <= k < WOLVES ==> is_new_wolf(#[trigger] final(world).herd@[k], k as u64),
        forall|k: int|
            WOLVES <= k < WOLVES + DOGS ==> is_new_dog(#[trigger] final(world).herd@[k], k as u64),
        forall|k: int|
            WOLVES + DOGS <= k < WOLVES + DOGS + CHICKENS ==> is_new_chicken(
                #[trigger] final(world).herd@[k],
                k as u64,
            ),
        final(world).coherent(),
{
    reset(world, WOLVES, DOGS, CHICKENS);
    Score::new(now)
}

/// One pass of pushing, frightening and merging at time `now`, all judged on
/// one snapshot of the herd taken when the pass begins.
///
/// Every creature gets its push anew; then every looker with a wolf near is
/// frightened; then dogs and chickens that meet are chosen to merge, marked,
/// and set spinning. The herd keeps its size and its order. Afterwards no
/// dog and chicken are left that could merge.
pub fn collision_avoidance(world: &mut World, now: u64) -> (met: Encounters)
    ensures
        final(world).next_id == old(world).next_id,
        final(world).herd@.len() == old(world).herd@.len(),
        forall|k: int|
            0 <= k < old(world).herd@.len() ==> #[trigger] final(world).herd@[k] == marked(
                frightened_if(
                    pushed(old(world).herd@[k], k, snapshot_of(old(world).herd@)),
                    threatened(old(world).herd@, snapshot_of(old(world).herd@), k),
                    now,
                ),
                chosen(met.pairs@, k),
            ),
        met.frights@ == startled_events(
            herd_pushed(old(world).herd@, snapshot_of(old(world).herd@)),
            snapshot_of(old(world).herd@),
            old(world).herd@.len() as int,
        ),
        forall|m: int|
            0 <= m < met.pairs@.len() ==> eligible(
                old(world).herd@,
                snapshot_of(old(world).herd@),
                (#[trigger] met.pairs@[m]).first as int,
                met.pairs@[m].second as int,
            ),
        disjoint(met.pairs@),
        forall|i: int, j: int|
            !eligible(final(world).herd@, snapshot_of(old(world).herd@), i, j),
        final(world).anims@.len() == old(world).anims@.len() + met.pairs@.len(),
        met.merges@.len() == met.pairs@.len(),
        forall|a: int|
            0 <= a < old(world).anims@.len() ==> #[trigger] final(world).anims@[a]
                == old(world).anims@[a],
        forall|m: int|
            0 <= m < met.pairs@.len() ==> #[trigger] final(world).anims@[old(world).anims@.len()
                + m] == anim_for(
                final(world).herd@[met.pairs@[m].first as int],
                final(world).herd@[met.pairs@[m].second as int],
            ),
        forall|m: int|
            0 <= m < met.pairs@.len() ==> #[trigger] met.merges@[m] == event_for(
                final(world).herd@[met.pairs@[m].first as int],
                final(world).herd@[met.pairs@[m].second as int],
            ),
        old(world).coherent() ==> final(world).coherent(),
{
    let ghost before = world.herd@;
    let ghost snap = snapshot_of(before);
    let index: SpatialIndex = snapshot(&world.herd);
    repulsion_pass(&mut world.herd, &index);
    let ghost pushed_herd = world.herd@;
    assert(pushed_herd == herd_pushed(before, snap));
    let frights: Vec<ThreatTriggered> = fright_pass(&mut world.herd, &index, now);
    let ghost scared_herd = world.herd@;
    proof {
        assert forall|k: int| 0 <= k < before.len() implies threatened(pushed_herd, snap, k)
            == threatened(before, snap, k) by {
            lemma_threat_by_kind(before, pushed_herd, snap, k);
        }
    }
    let pairs: Vec<Merge> = merge_pass(&mut world.herd, &index);
    proof {
        assert forall|m: int| 0 <= m < pairs@.len() implies eligible(
            before,
            snap,
            (#[trigger] pairs@[m]).first as int,
            pairs@[m].second as int,
        ) by {
            assert(eligible(scared_herd, snap, pairs@[m].first as int, pairs@[m].second as int));
        }
    }
    let merges: Vec<MergeOccurred> = begin_merges(&world.herd, &pairs, &mut world.anims);
    proof {
        if old(world).coherent() {
            lemma_same_names(before, scared_herd, old(world).anims@);
            lemma_pairs_kept(
                scared_herd,
                old(world).anims@,
                index@,
                pairs@,
                world.herd@,
                world.anims@,
            );
        }
    }
    Encounters { pairs, merges, frights }
}

/// The pairs that a merge pass chose, once they spin, keep the books in order.
pub proof fn lemma_pairs_kept(
    herd: Seq<Creature>,
    anims: Seq<DogChickAnim>,
    snap: Seq<crate::spatial::Entry>,
    pairs: Seq<Merge>,
    after: Seq<Creature>,
    spinning: Seq<DogChickAnim>,
)
    requires
        coherent(herd, anims),
        forall|m: int|
            0 <= m < pairs.len() ==> eligible(
                herd,
                snap,
                (#[trigger] pairs[m]).first as int,
                pairs[m].second as int,
            ),
        disjoint(pairs),
        after.len() == herd.len(),
        forall|k: int| 0 <= k < herd.len() ==> #[trigger] after[k] == marked(herd[k], chosen(pairs, k)),
        spinning.len() == anims.len() + pairs.len(),
        forall|a: int| 0 <= a < anims.len() ==> #[trigger] spinning[a] == anims[a],
        forall|m: int|
            0 <= m < pairs.len() ==> #[trigger] spinning[anims.len() + m] == anim_for(
                after[pairs[m].first as int],
                after[pairs[m].second as int],
            ),
    ensures
        coherent(after, spinning),
        forall|bound: u64| named_below(herd, bound) ==> named_below(after, bound),
{
    assert forall|m: int| 0 <= m < pairs.len() implies {
        &&& 0 <= (#[trigger] pairs[m]).first < herd.len()
        &&& 0 <= pairs[m].second < herd.len()
        &&& pairs[m].first != pairs[m].second
        &&& !herd[pairs[m].first as int].merge_pending
        &&& !herd[pairs[m].second as int].merge_pending
    } by {
        assert(eligible(herd, snap, pairs[m].first as int, pairs[m].second as int));
    }
    assert(pairs_joined(anims, spinning, herd, pairs)) by {
        assert forall|m: int| 0 <= m < pairs.len() implies (#[trigger] spinning[anims.len()
            + m]).first_parent == herd[pairs[m].first as int].id && spinning[anims.len()
            + m].second_parent == herd[pairs[m].second as int].id by {
            assert(eligible(herd, snap, pairs[m].first as int, pairs[m].second as int));
            let i = pairs[m].first as int;
            let j = pairs[m].second as int;
            assert(after[i] == marked(herd[i], chosen(pairs, i)));
            assert(after[j] == marked(herd[j], chosen(pairs, j)));
        }
    }
    lemma_pairs_chosen(herd, anims, pairs, after, spinning);
}

/// Whether a wolf is near depends on which creatures are wolves, and on
/// nothing else of the herd.
proof fn lemma_threat_by_kind(
    a: Seq<Creature>,
    b: Seq<Creature>,
    snap: Seq<crate::spatial::Entry>,
    k: int,
)
    requires
        a.len() == b.len(),
        forall|w: int| 0 <= w < a.len() ==> (#[trigger] a[w]).kind == b[w].kind,
    ensures
        threatened(a, snap, k) == threatened(b, snap, k),
{
    if threatened(a, snap, k) {
        let w = choose|w: int|
            0 <= w < a.len() && (#[trigger] a[w]).kind is Wolf && snap[k].position.near(
                snap[w].position,
                crate::fright::THREAT_RADIUS as int,
            );
        assert(b[w].kind is Wolf);
    }
    if threatened(b, snap, k) {
        let w = choose|w: int|
            0 <= w < b.len() && (#[trigger] b[w]).kind is Wolf && snap[k].position.near(
                snap[w].position,
                crate::fright::THREAT_RADIUS as int,
            );
        assert(a[w].kind == b[w].kind);
        assert(a[w].kind is Wolf);
    }
}

} // verus!
