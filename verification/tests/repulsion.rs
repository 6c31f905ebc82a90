use dogchick::fixed::Vec2;
use dogchick::repulsion::{getaway, push, AVOID_RADIUS, PUSH};
use dogchick::spatial::{Entry, SpatialIndex};

fn rp_index(points: &[(i32, i32)]) -> SpatialIndex {
    let mut entries: Vec<Entry> = Vec::new();
    for (id, p) in points.iter().enumerate() {
        entries.push(Entry { position: Vec2 { x: p.0, y: p.1 }, id });
    }
    let mut index = SpatialIndex::new();
    index.rebuild(&entries);
    index
}

#[test]
fn push_is_ten_units_over_the_distance() {
    let me = Vec2 { x: 0, y: 0 };
    assert_eq!(push(me, Vec2 { x: 10_000, y: 0 }), (-1000, 0));
    assert_eq!(push(me, Vec2 { x: 3_000, y: 4_000 }), (-1200, -1600));
    assert_eq!(push(me, Vec2 { x: -3_000, y: 4_000 }), (1200, -1600));
    assert_eq!(push(Vec2 { x: 5, y: 5 }, Vec2 { x: 5, y: 6 }), (0, -(PUSH as i128)));
    let d: f64 = 5.0;
    let force = 10.0 * (3.0 / d) / d;
    assert_eq!(-push(me, Vec2 { x: 3_000, y: 4_000 }).0 as f64 / 1000.0, force);
}

#[test]
fn neighbour_at_the_same_place_pushes_nowhere() {
    let me = Vec2 { x: 77, y: -3 };
    assert_eq!(push(me, me), (0, 0));
}

#[test]
fn two_creatures_push_each_other_with_opposite_force() {
    let points = [
        (Vec2 { x: 0, y: 0 }, Vec2 { x: 10_000, y: 0 }),
        (Vec2 { x: 13, y: -7 }, Vec2 { x: -4_001, y: 12_345 }),
        (Vec2 { x: 1, y: 1 }, Vec2 { x: 2, y: 3 }),
        (Vec2 { x: -19_000, y: 1 }, Vec2 { x: 0, y: 0 }),
        (Vec2 { x: i32::MIN, y: i32::MIN }, Vec2 { x: i32::MAX, y: i32::MAX }),
        (Vec2 { x: 5, y: 5 }, Vec2 { x: 5, y: 5 }),
    ];
    for (a, b) in points {
        let on_a = push(a, b);
        let on_b = push(b, a);
        assert_eq!(on_a.0, -on_b.0);
        assert_eq!(on_a.1, -on_b.1);
    }
}

#[test]
fn pushes_of_all_near_neighbours_add_up() {
    let index = rp_index(&[(0, 0), (10_000, 0), (0, -5_000), (3_000, 4_000), (20_000, 0), (0, 0)]);
    assert_eq!(getaway(&index, 0, Vec2 { x: 0, y: 0 }), Vec2 { x: -1000 - 1200, y: 2000 - 1600 });
    assert_eq!(AVOID_RADIUS, 20_000);
}

#[test]
fn push_in_the_index_is_opposite_for_a_pair() {
    let index = rp_index(&[(1_000, 2_000), (-6_000, 9_500)]);
    let on_first = getaway(&index, 0, Vec2 { x: 1_000, y: 2_000 });
    let on_second = getaway(&index, 1, Vec2 { x: -6_000, y: 9_500 });
    assert_eq!(on_first.x, -on_second.x);
    assert_eq!(on_first.y, -on_second.y);
    assert!(on_first.x > 0 && on_first.y < 0);
}

#[test]
fn lonely_creature_is_not_pushed() {
    let index = rp_index(&[(0, 0), (20_000, 0), (-20_000, 0), (0, 20_000)]);
    assert_eq!(getaway(&index, 0, Vec2 { x: 0, y: 0 }), Vec2 { x: 0, y: 0 });
    let empty = SpatialIndex::new();
    assert_eq!(getaway(&empty, 0, Vec2 { x: 0, y: 0 }), Vec2 { x: 0, y: 0 });
}

#[test]
fn push_of_a_crowd_is_clipped() {
    let mut points: Vec<(i32, i32)> = vec![(0, 0)];
    let mut k = 0;
    while k < 300 {
        points.push((1, 0));
        k += 1;
    }
    let index = rp_index(&points);
    assert_eq!(getaway(&index, 0, Vec2 { x: 0, y: 0 }), Vec2 { x: i32::MIN, y: 0 });
}
