use dogchick::fixed::Vec2;
use dogchick::spatial::{Entry, SpatialIndex};

fn sp_entry(x: i32, y: i32, id: usize) -> Entry {
    Entry { position: Vec2 { x, y }, id }
}

fn sp_index(entries: Vec<Entry>) -> SpatialIndex {
    let mut index = SpatialIndex::new();
    index.rebuild(&entries);
    index
}

fn sp_by_id(mut hits: Vec<Entry>) -> Vec<Entry> {
    hits.sort_by_key(|e| e.id);
    hits
}

#[test]
fn empty_index_answers_with_nothing() {
    let index = SpatialIndex::new();
    assert_eq!(index.len(), 0);
    assert_eq!(index.query_radius(Vec2 { x: 0, y: 0 }, u32::MAX), vec![]);
    assert_eq!(index.neighbours(0, Vec2 { x: 0, y: 0 }, u32::MAX), vec![]);
    let rebuilt = sp_index(vec![]);
    assert_eq!(rebuilt.len(), 0);
    assert_eq!(rebuilt.query_radius(Vec2 { x: 5, y: 5 }, 20_000), vec![]);
}

#[test]
fn query_gives_what_is_nearer_than_the_radius() {
    let index = sp_index(vec![
        sp_entry(0, 0, 0),
        sp_entry(19_999, 0, 1),
        sp_entry(20_000, 0, 2),
        sp_entry(-12_000, 16_000, 3),
        sp_entry(-12_000, 15_999, 4),
        sp_entry(1_000_000, 1_000_000, 5),
    ]);
    assert_eq!(index.len(), 6);
    let hits = sp_by_id(index.query_radius(Vec2 { x: 0, y: 0 }, 20_000));
    assert_eq!(hits, vec![sp_entry(0, 0, 0), sp_entry(19_999, 0, 1), sp_entry(-12_000, 15_999, 4)]);
    let hits = index.query_radius(Vec2 { x: 1_000_000, y: 1_000_010 }, 11);
    assert_eq!(hits, vec![sp_entry(1_000_000, 1_000_000, 5)]);
    assert_eq!(index.query_radius(Vec2 { x: 0, y: 0 }, 0), vec![]);
}

#[test]
fn index_keeps_the_entries_in_the_order_they_came_in() {
    let entries = vec![sp_entry(9, 0, 0), sp_entry(-9, 0, 1), sp_entry(3, 3, 2), sp_entry(-9, 1, 3)];
    let index = sp_index(entries.clone());
    assert_eq!(index.len(), 4);
    for k in 0..4 {
        assert_eq!(index.entry(k), entries[k]);
    }
}

#[test]
fn rebuild_forgets_what_was_there() {
    let mut index = sp_index(vec![sp_entry(0, 0, 0), sp_entry(1, 1, 1)]);
    index.rebuild(&vec![sp_entry(5, 5, 9)]);
    assert_eq!(index.len(), 1);
    assert_eq!(index.entry(0), sp_entry(5, 5, 9));
    assert_eq!(index.query_radius(Vec2 { x: 0, y: 0 }, 100), vec![sp_entry(5, 5, 9)]);
}

#[test]
fn creature_is_never_its_own_neighbour() {
    let index = sp_index(vec![sp_entry(0, 0, 0), sp_entry(0, 0, 1), sp_entry(5, 0, 2)]);
    let hits = sp_by_id(index.neighbours(0, Vec2 { x: 0, y: 0 }, 20_000));
    assert_eq!(hits, vec![sp_entry(0, 0, 1), sp_entry(5, 0, 2)]);
    let hits = sp_by_id(index.neighbours(1, Vec2 { x: 0, y: 0 }, 20_000));
    assert_eq!(hits, vec![sp_entry(0, 0, 0), sp_entry(5, 0, 2)]);
    let hits = sp_by_id(index.neighbours(7, Vec2 { x: 0, y: 0 }, 5));
    assert_eq!(hits, vec![sp_entry(0, 0, 0), sp_entry(0, 0, 1)]);
}

#[test]
fn entry_that_is_there_twice_is_given_twice() {
    let index = sp_index(vec![sp_entry(1, 1, 4), sp_entry(1, 1, 4), sp_entry(1, 1, 5)]);
    let hits = sp_by_id(index.query_radius(Vec2 { x: 0, y: 0 }, 10));
    assert_eq!(hits, vec![sp_entry(1, 1, 4), sp_entry(1, 1, 4), sp_entry(1, 1, 5)]);
    let hits = index.neighbours(4, Vec2 { x: 0, y: 0 }, 10);
    assert_eq!(hits, vec![sp_entry(1, 1, 5)]);
}

#[test]
fn query_can_be_asked_again_and_again() {
    let index = sp_index(vec![sp_entry(0, 0, 0), sp_entry(100_000, 0, 1)]);
    let first = index.query_radius(Vec2 { x: 0, y: 0 }, 150_000);
    let second = index.query_radius(Vec2 { x: 0, y: 0 }, 150_000);
    assert_eq!(first, second);
    assert_eq!(first.len(), 2);
}

#[test]
fn query_across_the_whole_world_does_not_overflow() {
    let index = sp_index(vec![sp_entry(i32::MIN, i32::MIN, 0), sp_entry(i32::MAX, i32::MAX, 1)]);
    let hits = index.query_radius(Vec2 { x: i32::MAX, y: i32::MAX }, u32::MAX);
    assert_eq!(hits, vec![sp_entry(i32::MAX, i32::MAX, 1)]);
    let hits = index.query_radius(Vec2 { x: 0, y: 0 }, u32::MAX);
    assert_eq!(hits.len(), 2);
    let hits = index.query_radius(Vec2 { x: i32::MIN, y: i32::MIN }, 1);
    assert_eq!(hits, vec![sp_entry(i32::MIN, i32::MIN, 0)]);
}

#[test]
fn query_agrees_with_looking_at_every_entry() {
    let mut entries: Vec<Entry> = vec![];
    let mut seed: u64 = 12_345;
    let mut id = 0;
    while id < 500 {
        seed = seed.wrapping_mul(6_364_136_223_846_793_005).wrapping_add(1_442_695_040_888_963_407);
        let x = ((seed >> 33) % 400_000) as i32 - 200_000;
        seed = seed.wrapping_mul(6_364_136_223_846_793_005).wrapping_add(1_442_695_040_888_963_407);
        let y = ((seed >> 33) % 400_000) as i32 - 200_000;
        entries.push(sp_entry(x, y, id));
        id += 1;
    }
    let index = sp_index(entries.clone());
    let radii: [u32; 5] = [0, 1, 20_000, 150_000, 600_000];
    for (k, me) in entries.iter().enumerate().step_by(7) {
        for radius in radii {
            let expected: Vec<Entry> = entries
                .iter()
                .filter(|e| me.position.is_near(e.position, radius))
                .cloned()
                .collect();
            assert_eq!(sp_by_id(index.query_radius(me.position, radius)), expected);
            let others: Vec<Entry> = expected.iter().filter(|e| e.id != k).cloned().collect();
            assert_eq!(sp_by_id(index.neighbours(k, me.position, radius)), others);
        }
    }
}
