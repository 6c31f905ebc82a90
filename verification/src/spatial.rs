//! The spatial index: a snapshot of where everything is, which answers who is
//! near a point.
//!
//! The index is filled once per tick and then only read, so that every pass of
//! the tick sees the same places. Filling it sorts the entries from left to
//! right; a query then looks only at the entries in the vertical strip that
//! the circle asked for lies in.

use vstd::prelude::*;
use crate::fixed::Vec2;

verus! {

/// One thing in the index: where it is, and a number that tells it from the
/// others.
#[derive(Clone, Copy, Debug, PartialEq, Eq, Structural)]
pub struct Entry {
    pub position: Vec2,
    pub id: usize,
}

/// The test that an entry lies nearer to `point` than `radius`.
pub open spec fn in_reach(point: Vec2, radius: int) -> spec_fn(Entry) -> bool {
    |e: Entry| point.near(e.position, radius)
}

/// The test that an entry is not the one numbered `id` and lies nearer to
/// `point` than `radius`. The entry numbered `id` fails it even where another
/// entry lies at the very same place and passes.
pub open spec fn others_in_reach(id: usize, point: Vec2, radius: int) -> spec_fn(Entry) -> bool {
    |e: Entry| e.id != id && point.near(e.position, radius)
}

/// True when the entries go from left to right.
pub open spec fn ascending(s: Seq<Entry>) -> bool {
    forall|i: int, j: int| 0 <= i <= j < s.len() ==> s[i].position.x <= s[j].position.x
}

/// A set of entries that can be asked for those near a point. Its view is the
/// sequence of its entries, in the order in which they were handed over.
pub struct SpatialIndex {
    entries: Vec<Entry>,
    by_x: Vec<Entry>,
}

impl View for SpatialIndex {
    type V = Seq<Entry>;

    closed spec fn view(&self) -> Seq<Entry> {
        self.entries@
    }
}

/// Two sequences that hold the same entries equally often hold the same
/// entries.
pub proof fn lemma_same_members(a: Seq<Entry>, b: Seq<Entry>, e: Entry)
    requires
        a.to_multiset() == b.to_multiset(),
    ensures
        a.contains(e) == b.contains(e),
{
    vstd::seq_lib::to_multiset_contains(a, e);
    vstd::seq_lib::to_multiset_contains(b, e);
}

/// How often an entry is among those of `s` that pass a test: as often as it
/// is in `s` if it passes, and never if it fails.
proof fn lemma_filter_count(s: Seq<Entry>, pred: spec_fn(Entry) -> bool, e: Entry)
    ensures
        s.filter(pred).to_multiset().count(e) == if pred(e) {
            s.to_multiset().count(e)
        } else {
            0
        },
    decreases s.len(),
{
    broadcast use vstd::multiset::group_multiset_axioms;

    reveal(Seq::filter);
    if s.len() == 0 {
        assert(s.to_multiset().len() == 0) by {
            vstd::seq_lib::to_multiset_len(s);
        }
        assert(s.filter(pred).to_multiset().len() == 0) by {
            vstd::seq_lib::to_multiset_len(s.filter(pred));
        }
        vstd::multiset::axiom_count_le_len(s.to_multiset(), e);
        vstd::multiset::axiom_count_le_len(s.filter(pred).to_multiset(), e);
    } else {
        let rest = s.drop_last();
        let last = s.last();
        lemma_filter_count(rest, pred, e);
        assert(s == rest.push(last));
        vstd::seq_lib::to_multiset_build(rest, last);
        if pred(last) {
            vstd::seq_lib::to_multiset_build(rest.filter(pred), last);
        }
    }
}

/// Sequences that hold the same entries equally often still do so when both
/// are put to the same test.
pub proof fn lemma_filter_keeps_balance(a: Seq<Entry>, b: Seq<Entry>, pred: spec_fn(Entry) -> bool)
    requires
        a.to_multiset() == b.to_multiset(),
    ensures
        a.filter(pred).to_multiset() == b.filter(pred).to_multiset(),
{
    assert forall|e: Entry|
        a.filter(pred).to_multiset().count(e) == b.filter(pred).to_multiset().count(e) by {
        lemma_filter_count(a, pred, e);
        lemma_filter_count(b, pred, e);
    }
    assert(a.filter(pred).to_multiset() =~= b.filter(pred).to_multiset());
}

/// None of the entries passes a test that each of them fails.
proof fn lemma_filter_of_failures(s: Seq<Entry>, pred: spec_fn(Entry) -> bool)
    requires
        forall|k: int| 0 <= k < s.len() ==> !pred(#[trigger] s[k]),
    ensures
        s.filter(pred) == Seq::<Entry>::empty(),
    decreases s.len(),
{
    reveal(Seq::filter);
    if s.len() > 0 {
        assert forall|k: int| 0 <= k < s.drop_last().len() implies !pred(
            #[trigger] s.drop_last()[k],
        ) by {
            assert(s.drop_last()[k] == s[k]);
        }
        lemma_filter_of_failures(s.drop_last(), pred);
    }
}

/// An entry that lies `radius` or more to the side of a point is not nearer to
/// it than `radius`.
proof fn lemma_strip(point: Vec2, radius: int, p: Vec2)
    requires
        radius >= 0,
        p.x - point.x >= radius || point.x - p.x >= radius,
    ensures
        !point.near(p, radius),
{
    let dx = p.x - point.x;
    let dy = p.y - point.y;
    assert(dx * dx >= radius * radius) by (nonlinear_arith)
        requires
            radius >= 0,
            dx >= radius || -dx >= radius,
    ;
    assert(dy * dy >= 0) by (nonlinear_arith);
}

/// Merges two sequences that go from left to right into one.
fn merge(a: &Vec<Entry>, b: &Vec<Entry>) -> (m: Vec<Entry>)
    requires
        ascending(a@),
        ascending(b@),
    ensures
        ascending(m@),
        m@.to_multiset() == a@.to_multiset().add(b@.to_multiset()),
{
    let mut m: Vec<Entry> = Vec::new();
    let mut i: usize = 0;
    let mut j: usize = 0;
    proof {
        broadcast use vstd::multiset::group_multiset_axioms;

        assert(a@.take(0) == Seq::<Entry>::empty());
        assert(b@.take(0) == Seq::<Entry>::empty());
        vstd::seq_lib::to_multiset_len(Seq::<Entry>::empty());
        vstd::multiset::lemma_multiset_empty_len(Seq::<Entry>::empty().to_multiset());
        assert(m@.to_multiset() =~= a@.take(0).to_multiset().add(b@.take(0).to_multiset()));
    }
    while i < a.len() || j < b.len()
        invariant
            i <= a@.len(),
            j <= b@.len(),
            ascending(a@),
            ascending(b@),
            ascending(m@),
            m@.to_multiset() == a@.take(i as int).to_multiset().add(
                b@.take(j as int).to_multiset(),
            ),
            forall|k: int| 0 <= k < m@.len() && i < a@.len() ==> m@[k].position.x <= a@[i as int].position.x,
            forall|k: int| 0 <= k < m@.len() && j < b@.len() ==> m@[k].position.x <= b@[j as int].position.x,
        decreases a@.len() - i + b@.len() - j,
    {
        let ghost before = m@;
        let from_a: bool = if i == a.len() {
            false
        } else if j == b.len() {
            true
        } else {
            a[i].position.x <= b[j].position.x
        };
        if from_a {
            let e: Entry = a[i];
            m.push(e);
            proof {
                broadcast use vstd::multiset::group_multiset_axioms;

                assert(a@.take(i + 1) == a@.take(i as int).push(e));
                vstd::seq_lib::to_multiset_build(a@.take(i as int), e);
                vstd::seq_lib::to_multiset_build(before, e);
                assert(m@.to_multiset() =~= a@.take(i + 1).to_multiset().add(
                    b@.take(j as int).to_multiset(),
                ));
            }
            i += 1;
        } else {
            let e: Entry = b[j];
            m.push(e);
            proof {
                broadcast use vstd::multiset::group_multiset_axioms;

                assert(b@.take(j + 1) == b@.take(j as int).push(e));
                vstd::seq_lib::to_multiset_build(b@.take(j as int), e);
                vstd::seq_lib::to_multiset_build(before, e);
                assert(m@.to_multiset() =~= a@.take(i as int).to_multiset().add(
                    b@.take(j + 1).to_multiset(),
                ));
            }
            j += 1;
        }
    }
    assert(a@.take(i as int) == a@);
    assert(b@.take(j as int) == b@);
    m
}

/// Sorts the entries of `v` from `lo` up to, not including, `hi` from left to
/// right.
fn sort_range(v: &Vec<Entry>, lo: usize, hi: usize) -> (s: Vec<Entry>)
    requires
        lo <= hi <= v@.len(),
    ensures
        ascending(s@),
        s@.to_multiset() == v@.subrange(lo as int, hi as int).to_multiset(),
    decreases hi - lo,
{
    if hi - lo <= 1 {
        let mut s: Vec<Entry> = Vec::new();
        if hi - lo == 1 {
            s.push(v[lo]);
        }
        assert(s@ == v@.subrange(lo as int, hi as int));
        return s;
    }
    let mid: usize = lo + (hi - lo) / 2;
    let left: Vec<Entry> = sort_range(v, lo, mid);
    let right: Vec<Entry> = sort_range(v, mid, hi);
    proof {
        assert(v@.subrange(lo as int, hi as int) == v@.subrange(lo as int, mid as int)
            + v@.subrange(mid as int, hi as int));
        vstd::seq_lib::lemma_multiset_commutative(
            v@.subrange(lo as int, mid as int),
            v@.subrange(mid as int, hi as int),
        );
    }
    merge(&left, &right)
}

impl SpatialIndex {
    #[verifier::type_invariant]
    spec fn sorted(self) -> bool {
        ascending(self.by_x@) && self.by_x@.to_multiset() == self.entries@.to_multiset()
    }

    /// An index with nothing in it.
    pub fn new() -> (index: SpatialIndex)
        ensures
            index@ == Seq::<Entry>::empty(),
    {
        SpatialIndex { entries: Vec::new(), by_x: Vec::new() }
    }

    /// How many entries the index holds.
    pub fn len(&self) -> (n: usize)
        ensures
            n == self@.len(),
    {
        self.entries.len()
    }

    /// The entry at place `k` of the index.
    pub fn entry(&self, k: usize) -> (e: Entry)
        requires
            k < self@.len(),
        ensures
            e == self@[k as int],
    {
        self.entries[k]
    }

    /// Replaces what the index holds by `entities`.
    pub fn rebuild(&mut self, entities: &Vec<Entry>)
        ensures
            final(self)@ == entities@,
    {
        let mut entries: Vec<Entry> = Vec::new();
        let mut k: usize = 0;
        while k < entities.len()
            invariant
                k <= entities.len(),
                entries@ == entities@.take(k as int),
            decreases entities.len() - k,
        {
            entries.push(entities[k]);
            assert(entities@.take(k + 1) == entities@.take(k as int).push(entities@[k as int]));
            k += 1;
        }
        assert(entities@.take(k as int) == entities@);
        let by_x: Vec<Entry> = sort_range(&entries, 0, entries.len());
        assert(entries@.subrange(0, entries@.len() as int) == entries@);
        *self = SpatialIndex { entries, by_x };
    }

    /// The place in the sorted entries from which on every entry lies right
    /// of `bound`, with every entry before it at `bound` or left of it.
    fn first_right_of(&self, bound: i64) -> (lo: usize)
        ensures
            lo <= self.by_x@.len(),
            forall|k: int| 0 <= k < lo ==> self.by_x@[k].position.x <= bound,
            forall|k: int| lo <= k < self.by_x@.len() ==> self.by_x@[k].position.x > bound,
    {
        proof {
            use_type_invariant(self);
        }
        let mut lo: usize = 0;
        let mut hi: usize = self.by_x.len();
        while lo < hi
            invariant
                lo <= hi <= self.by_x@.len(),
                ascending(self.by_x@),
                forall|k: int| 0 <= k < lo ==> self.by_x@[k].position.x <= bound,
                forall|k: int| hi <= k < self.by_x@.len() ==> self.by_x@[k].position.x > bound,
            decreases hi - lo,
        {
            let mid: usize = lo + (hi - lo) / 2;
            if self.by_x[mid].position.x as i64 <= bound {
                lo = mid + 1;
            } else {
                hi = mid;
            }
        }
        lo
    }

    /// The entries nearer to `point` than `radius`, in no promised order, each
    /// as often as the index holds it. An empty index gives none.
    pub fn query_radius(&self, point: Vec2, radius: u32) -> (hits: Vec<Entry>)
        ensures
            hits@.to_multiset() == self@.filter(in_reach(point, radius as int)).to_multiset(),
    {
        let ghost pred = in_reach(point, radius as int);
        let hits: Vec<Entry> = self.scan(usize::MAX, false, point, radius);
        proof {
            use_type_invariant(self);
            assert(pred =~= strip_test(usize::MAX, false, point, radius as int));
            lemma_filter_keeps_balance(self.by_x@, self.entries@, pred);
        }
        hits
    }

    /// The entries nearer to `point` than `radius`, but for the one numbered
    /// `id`, in no promised order, each as often as the index holds it.
    pub fn neighbours(&self, id: usize, point: Vec2, radius: u32) -> (hits: Vec<Entry>)
        ensures
            hits@.to_multiset() == self@.filter(
                others_in_reach(id, point, radius as int),
            ).to_multiset(),
    {
        let ghost pred = others_in_reach(id, point, radius as int);
        let hits: Vec<Entry> = self.scan(id, true, point, radius);
        proof {
            use_type_invariant(self);
            assert(pred =~= strip_test(id, true, point, radius as int));
            lemma_filter_keeps_balance(self.by_x@, self.entries@, pred);
        }
        hits
    }

    /// Goes through the strip of the sorted entries that the circle lies in,
    /// and collects those that pass the test.
    fn scan(&self, id: usize, skip: bool, point: Vec2, radius: u32) -> (hits: Vec<Entry>)
        ensures
            hits@ == self.by_x@.filter(strip_test(id, skip, point, radius as int)),
    {
        let ghost pred = strip_test(id, skip, point, radius as int);
        let left: i64 = point.x as i64 - radius as i64;
        let right: i64 = point.x as i64 + radius as i64;
        let start: usize = self.first_right_of(left);
        let mut hits: Vec<Entry> = Vec::new();
        let mut k: usize = start;
        proof {
            assert forall|j: int| 0 <= j < self.by_x@.take(start as int).len() implies !pred(
                #[trigger] self.by_x@.take(start as int)[j],
            ) by {
                lemma_strip(point, radius as int, self.by_x@[j].position);
            }
            lemma_filter_of_failures(self.by_x@.take(start as int), pred);
        }
        while k < self.by_x.len() && (self.by_x[k].position.x as i64) < right
            invariant
                start <= k <= self.by_x@.len(),
                pred == strip_test(id, skip, point, radius as int),
                right == point.x + radius,
                hits@ == self.by_x@.take(k as int).filter(pred),
            decreases self.by_x@.len() - k,
        {
            let e: Entry = self.by_x[k];
            proof {
                assert(self.by_x@.take(k + 1) == self.by_x@.take(k as int).push(e));
                self.by_x@.take(k as int).lemma_filter_push(e, pred);
            }
            if !(skip && e.id == id) && point.is_near(e.position, radius) {
                hits.push(e);
            }
            k += 1;
        }
        proof {
            use_type_invariant(self);
            let seen = self.by_x@.take(k as int);
            let rest = self.by_x@.skip(k as int);
            assert forall|j: int| 0 <= j < rest.len() implies !pred(#[trigger] rest[j]) by {
                assert(self.by_x@[k as int].position.x <= self.by_x@[k + j].position.x);
                lemma_strip(point, radius as int, rest[j].position);
            }
            lemma_filter_of_failures(rest, pred);
            assert(self.by_x@ == seen + rest);
            Seq::filter_distributes_over_add(seen, rest, pred);
            assert(seen.filter(pred) + Seq::<Entry>::empty() == seen.filter(pred));
        }
        hits
    }
}

/// The test that a scan puts the entries to: that an entry lies nearer to
/// `point` than `radius`, and, with `skip` set, is not the one numbered `id`.
pub open spec fn strip_test(id: usize, skip: bool, point: Vec2, radius: int) -> spec_fn(
    Entry,
) -> bool {
    |e: Entry| !(skip && e.id == id) && point.near(e.position, radius)
}

/// What a query gives back is in the index and in reach, and whatever is in
/// the index and in reach is given back.
pub proof fn lemma_query_exact(
    entries: Seq<Entry>,
    hits: Seq<Entry>,
    point: Vec2,
    radius: int,
    e: Entry,
)
    requires
        hits.to_multiset() == entries.filter(in_reach(point, radius)).to_multiset(),
    ensures
        hits.contains(e) <==> entries.contains(e) && point.near(e.position, radius),
{
    let pred = in_reach(point, radius);
    let found = entries.filter(pred);
    lemma_same_members(hits, found, e);
    if found.contains(e) {
        entries.lemma_filter_contains_rev(pred, e);
        let i = choose|i: int| 0 <= i < found.len() && found[i] == e;
        entries.lemma_filter_pred(pred, i);
    }
    if entries.contains(e) && point.near(e.position, radius) {
        let i = choose|i: int| 0 <= i < entries.len() && entries[i] == e;
        entries.lemma_filter_contains(pred, i);
    }
}

/// A creature is never its own neighbour: what [`SpatialIndex::neighbours`]
/// gives back for a number holds no entry with that number, and holds every
/// other entry in reach, also one at the very same place.
pub proof fn lemma_neighbours_exact(
    entries: Seq<Entry>,
    hits: Seq<Entry>,
    id: usize,
    point: Vec2,
    radius: int,
    e: Entry,
)
    requires
        hits.to_multiset() == entries.filter(others_in_reach(id, point, radius)).to_multiset(),
    ensures
        hits.contains(e) <==> entries.contains(e) && e.id != id && point.near(e.position, radius),
{
    let pred = others_in_reach(id, point, radius);
    let found = entries.filter(pred);
    lemma_same_members(hits, found, e);
    if found.contains(e) {
        entries.lemma_filter_contains_rev(pred, e);
        let i = choose|i: int| 0 <= i < found.len() && found[i] == e;
        entries.lemma_filter_pred(pred, i);
    }
    if entries.contains(e) && e.id != id && point.near(e.position, radius) {
        let i = choose|i: int| 0 <= i < entries.len() && entries[i] == e;
        entries.lemma_filter_contains(pred, i);
    }
}

} // verus!
