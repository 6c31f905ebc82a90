use dogchick::fixed::Vec2;
use dogchick::planner::{FOLLOW_SPEED, LOOKER_GAIN, WOLF_GAIN};
use dogchick::steering::{
    advance_position, advance_speed, steer, AiResult, Objective, Speed, ACCEL, JITTER,
};

const ST_ZERO: Vec2 = Vec2 { x: 0, y: 0 };

#[test]
fn wanted_speed_grows_with_the_square_of_the_distance() {
    let pos = ST_ZERO;
    let obj = Objective { point: Vec2 { x: 7_000, y: 0 }, max_speed: 50_000 };
    let res = steer(pos, obj, LOOKER_GAIN);
    assert_eq!(res, AiResult { target_speed: 39_200, target_dir: Vec2 { x: 1000, y: 0 } });
    let obj = Objective { point: Vec2 { x: 1_000, y: 0 }, max_speed: 50_000 };
    assert_eq!(steer(pos, obj, LOOKER_GAIN).target_speed, 800);
    assert_eq!(steer(pos, obj, WOLF_GAIN).target_speed, 300);
}

#[test]
fn wanted_speed_is_capped() {
    let obj = Objective { point: Vec2 { x: 50_000, y: 0 }, max_speed: FOLLOW_SPEED };
    let res = steer(ST_ZERO, obj, LOOKER_GAIN);
    assert_eq!(res.target_speed, FOLLOW_SPEED);
    assert_eq!(res.target_dir, Vec2 { x: 1000, y: 0 });
}

#[test]
fn follower_of_a_pointer_fifty_units_away_goes_at_full_speed() {
    let k_times_d2: f64 = 0.8 * 50.0 * 50.0;
    let cap: f64 = 150.0;
    let expected = k_times_d2.min(cap);
    let obj = Objective { point: Vec2 { x: 50_000, y: 0 }, max_speed: FOLLOW_SPEED };
    let res = steer(ST_ZERO, obj, LOOKER_GAIN);
    assert_eq!(res.target_speed as f64 / 1000.0, expected);
    assert_eq!(res.target_dir.x as f64 / 1000.0, 1.0);
    assert_eq!(res.target_dir.y as f64 / 1000.0, 0.0);
}

#[test]
fn steering_at_the_objective_asks_for_nothing() {
    let p = Vec2 { x: 33, y: -44 };
    let res = steer(p, Objective { point: p, max_speed: 50_000 }, LOOKER_GAIN);
    assert_eq!(res, AiResult { target_speed: 0, target_dir: ST_ZERO });
}

#[test]
fn steering_across_the_whole_world_does_not_overflow() {
    let a = Vec2 { x: i32::MIN, y: i32::MIN };
    let b = Vec2 { x: i32::MAX, y: i32::MAX };
    let res = steer(a, Objective { point: b, max_speed: i32::MAX }, u32::MAX);
    assert_eq!(res.target_speed, i32::MAX);
    assert_eq!(res.target_dir, Vec2 { x: 707, y: 707 });
}

#[test]
fn speed_rises_by_no_more_than_the_acceleration() {
    assert_eq!(ACCEL, 100_000);
    let next = advance_speed(Speed(0), 50_000, 16_667);
    assert_eq!(next, Speed(1_666));
    let next = advance_speed(Speed(10_000), 50_000, 100_000);
    assert_eq!(next, Speed(20_000));
    let next = advance_speed(Speed(45_000), 50_000, 100_000);
    assert_eq!(next, Speed(50_000));
}

#[test]
fn speed_falls_at_once() {
    assert_eq!(advance_speed(Speed(180_000), 800, 1), Speed(800));
    assert_eq!(advance_speed(Speed(180_000), 0, 0), Speed(0));
    assert_eq!(advance_speed(Speed(5), 5, 16_667), Speed(5));
}

#[test]
fn speed_does_not_rise_in_no_time() {
    assert_eq!(advance_speed(Speed(10), 50_000, 0), Speed(10));
    assert_eq!(advance_speed(Speed(10), 50_000, 9), Speed(10));
    assert_eq!(advance_speed(Speed(10), 50_000, 10), Speed(11));
}

#[test]
fn speed_never_turns_negative() {
    let targets: [i32; 5] = [0, 1, 800, 50_000, i32::MAX];
    let speeds: [i32; 5] = [0, 1, 799, 180_000, i32::MAX];
    let ticks: [u32; 5] = [0, 1, 16_667, 1_000_000, u32::MAX];
    for target in targets {
        for speed in speeds {
            for dt in ticks {
                let next = advance_speed(Speed(speed), target, dt);
                assert!(next.0 >= 0);
                assert!(next.0 <= target || next.0 <= speed);
            }
        }
    }
}

#[test]
fn speed_stays_non_negative_over_many_ticks() {
    let mut speed = Speed(0);
    let mut tick: u32 = 0;
    while tick < 2_000 {
        let target: i32 = if tick % 7 == 0 { 0 } else { ((tick * 97) % 180_000) as i32 };
        speed = advance_speed(speed, target, 16_667 + (tick % 13) * 1_000);
        assert!(speed.0 >= 0);
        tick += 1;
    }
}

#[test]
fn backward_speed_is_carried_to_the_target() {
    assert_eq!(advance_speed(Speed(-1_000), 50_000, 5_000), Speed(-500));
    assert_eq!(advance_speed(Speed(-1_000), -2_000, 5_000), Speed(-2_000));
}

#[test]
fn creature_moves_by_speed_times_time_times_heading() {
    let pos = Vec2 { x: 10_000, y: -10_000 };
    let next = advance_position(
        pos,
        Speed(50_000),
        16_667,
        Vec2 { x: 1000, y: -1000 },
        ST_ZERO,
        ST_ZERO,
    );
    assert_eq!(next, Vec2 { x: 10_833, y: -10_833 });
    let next = advance_position(
        pos,
        Speed(50_000),
        16_667,
        Vec2 { x: 1000, y: 0 },
        Vec2 { x: 50, y: 99 },
        ST_ZERO,
    );
    assert_eq!(next, Vec2 { x: 10_875, y: -9_918 });
}

#[test]
fn creature_moves_one_second_at_full_speed() {
    let next = advance_position(
        ST_ZERO,
        Speed(180_000),
        1_000_000,
        Vec2 { x: 600, y: 800 },
        ST_ZERO,
        Vec2 { x: 400, y: -800 },
    );
    assert_eq!(next, Vec2 { x: 180_000, y: 0 });
}

#[test]
fn creature_at_rest_stays_where_it_is() {
    let pos = Vec2 { x: 5, y: 6 };
    let dir = Vec2 { x: 1000, y: 0 };
    let push = Vec2 { x: i32::MAX, y: i32::MIN };
    assert_eq!(advance_position(pos, Speed(0), 16_667, dir, ST_ZERO, push), pos);
    assert_eq!(advance_position(pos, Speed(50_000), 0, dir, ST_ZERO, push), pos);
}

#[test]
fn creature_stops_at_the_edge_of_the_numbers() {
    let pos = Vec2 { x: i32::MAX - 5, y: i32::MIN + 5 };
    let next = advance_position(
        pos,
        Speed(i32::MAX),
        u32::MAX,
        Vec2 { x: 1000, y: -1000 },
        Vec2 { x: 99, y: 0 },
        Vec2 { x: i32::MAX, y: i32::MIN },
    );
    assert_eq!(next, Vec2 { x: i32::MAX, y: i32::MIN });
}

#[test]
fn jitter_is_a_tenth_of_a_unit_vector() {
    assert_eq!(JITTER as f64 / 1000.0, 0.1);
}
