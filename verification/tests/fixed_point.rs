use dogchick::fixed::{deadline, div_toward_zero, isqrt_ceil, saturate_i32, Vec2, SECOND, UNIT};

fn fp_len2(v: Vec2) -> i64 {
    (v.x as i64) * (v.x as i64) + (v.y as i64) * (v.y as i64)
}

#[test]
fn division_rounds_toward_zero() {
    assert_eq!(div_toward_zero(7, 2), 3);
    assert_eq!(div_toward_zero(-7, 2), -3);
    assert_eq!(div_toward_zero(-1, 1000), 0);
    assert_eq!(div_toward_zero(0, 5), 0);
    assert_eq!(div_toward_zero(-2000, 1000), -2);
}

#[test]
fn saturation_stops_at_the_edges() {
    assert_eq!(saturate_i32(5), 5);
    assert_eq!(saturate_i32(-5), -5);
    assert_eq!(saturate_i32(i32::MAX as i128 + 1), i32::MAX);
    assert_eq!(saturate_i32(i32::MIN as i128 - 1), i32::MIN);
    assert_eq!(saturate_i32(i128::MAX), i32::MAX);
    assert_eq!(saturate_i32(i128::MIN), i32::MIN);
}

#[test]
fn deadline_adds_and_stops_at_the_end_of_time() {
    assert_eq!(deadline(5 * SECOND, 10 * SECOND), 15_000_000);
    assert_eq!(deadline(u64::MAX - 3, 10), u64::MAX);
    assert_eq!(deadline(u64::MAX, 0), u64::MAX);
    assert_eq!(deadline(0, 0), 0);
}

#[test]
fn square_root_is_rounded_up() {
    assert_eq!(isqrt_ceil(0), 0);
    assert_eq!(isqrt_ceil(1), 1);
    assert_eq!(isqrt_ceil(2), 2);
    assert_eq!(isqrt_ceil(4), 2);
    assert_eq!(isqrt_ceil(5), 3);
    assert_eq!(isqrt_ceil(1_000_000_000_000), 1_000_000);
    assert_eq!(isqrt_ceil(1_000_000_000_001), 1_000_001);
    assert_eq!(isqrt_ceil(u128::MAX), 1u128 << 64);
    assert_eq!(isqrt_ceil((u64::MAX as u128) * (u64::MAX as u128)), u64::MAX as u128);
}

#[test]
fn squared_distance_of_far_corners_does_not_overflow() {
    let a = Vec2 { x: i32::MIN, y: i32::MIN };
    let b = Vec2 { x: i32::MAX, y: i32::MAX };
    let side = (1i128 << 32) - 1;
    assert_eq!(a.distance_squared(b), 2 * side * side);
    assert_eq!(b.distance_squared(a), 2 * side * side);
    assert_eq!(a.distance_squared(a), 0);
}

#[test]
fn nearness_is_strict() {
    let a = Vec2 { x: 0, y: 0 };
    assert!(a.is_near(Vec2 { x: 19_999, y: 0 }, 20_000));
    assert!(!a.is_near(Vec2 { x: 20_000, y: 0 }, 20_000));
    assert!(!a.is_near(a, 0));
    assert!(a.is_near(a, 1));
    assert!(a.is_near(Vec2 { x: 3_000, y: 4_000 }, 5_001));
    assert!(!a.is_near(Vec2 { x: 3_000, y: 4_000 }, 5_000));
}

#[test]
fn direction_of_a_three_four_five_triangle() {
    let a = Vec2 { x: 1_000, y: 1_000 };
    let b = Vec2 { x: 4_000, y: 5_000 };
    assert_eq!(a.direction_to(b), Vec2 { x: 600, y: 800 });
    assert_eq!(b.direction_to(a), Vec2 { x: -600, y: -800 });
}

#[test]
fn direction_to_the_same_point_is_zero() {
    let a = Vec2 { x: -77, y: 12 };
    assert_eq!(a.direction_to(a), Vec2::zero());
    assert_eq!(Vec2::zero(), Vec2 { x: 0, y: 0 });
}

#[test]
fn direction_along_an_axis_has_length_one() {
    let o = Vec2 { x: 0, y: 0 };
    assert_eq!(o.direction_to(Vec2 { x: 50_000, y: 0 }), Vec2 { x: UNIT, y: 0 });
    assert_eq!(o.direction_to(Vec2 { x: -1, y: 0 }), Vec2 { x: -UNIT, y: 0 });
    assert_eq!(o.direction_to(Vec2 { x: 0, y: -7 }), Vec2 { x: 0, y: -UNIT });
}

#[test]
fn direction_of_the_shortest_diagonal() {
    let o = Vec2 { x: 0, y: 0 };
    assert_eq!(o.direction_to(Vec2 { x: 1, y: 1 }), Vec2 { x: 706, y: 706 });
    assert_eq!(o.direction_to(Vec2 { x: 1, y: 2 }), Vec2 { x: 447, y: 894 });
    assert_eq!(o.direction_to(Vec2 { x: 123_456, y: -654_321 }), Vec2 { x: 185, y: -982 });
}

#[test]
fn direction_between_the_far_corners() {
    let a = Vec2 { x: i32::MIN, y: i32::MIN };
    let b = Vec2 { x: i32::MAX, y: i32::MAX };
    assert_eq!(a.direction_to(b), Vec2 { x: 707, y: 707 });
    assert_eq!(b.direction_to(a), Vec2 { x: -707, y: -707 });
}

#[test]
fn every_direction_has_length_zero_or_one() {
    let from = Vec2 { x: 13, y: -8 };
    let mut dx: i32 = -40;
    while dx <= 40 {
        let mut dy: i32 = -40;
        while dy <= 40 {
            let to = Vec2 { x: from.x + dx * 37, y: from.y + dy * 91 };
            let dir = from.direction_to(to);
            if dx == 0 && dy == 0 {
                assert_eq!(dir, Vec2 { x: 0, y: 0 });
            } else {
                let len2 = fp_len2(dir);
                assert!(len2 <= 1_000_000, "{:?} is too long", dir);
                assert!(len2 >= 997 * 997, "{:?} is too short", dir);
                assert!(dx == 0 || (dir.x > 0) == (dx > 0) || dir.x == 0);
                assert!(dy == 0 || (dir.y > 0) == (dy > 0) || dir.y == 0);
            }
            dy += 1;
        }
        dx += 1;
    }
}

#[test]
fn direction_is_close_to_the_real_one() {
    let from = Vec2 { x: 0, y: 0 };
    let to = Vec2 { x: 250_000, y: -130_000 };
    let dir = from.direction_to(to);
    let len = ((to.x as f64).powi(2) + (to.y as f64).powi(2)).sqrt();
    assert!((dir.x as f64 - 1000.0 * to.x as f64 / len).abs() <= 1.0);
    assert!((dir.y as f64 - 1000.0 * to.y as f64 / len).abs() <= 1.0);
}
