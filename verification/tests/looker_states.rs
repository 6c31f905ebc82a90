use dogchick::fixed::Vec2;
use dogchick::looker::{Looker, LookerLocation, LookerState, DOOR_RADIUS, FRIGHT_TIME};

fn ls_looker(state: LookerState, location: LookerLocation) -> Looker {
    Looker {
        spawn_point: Vec2 { x: 500_000, y: -900_000 },
        spawn_door: Vec2 { x: 500_000, y: -650_000 },
        state,
        location,
    }
}

#[test]
fn happy_looker_is_scared_for_ten_seconds() {
    let state = LookerState::Happy.frighten(5_000_000);
    assert_eq!(state, LookerState::Scared { until: 15_000_000 });
    assert_eq!(FRIGHT_TIME, 10_000_000);
}

#[test]
fn happy_inside_looker_is_scared_inside() {
    let state = LookerState::HappyInside.frighten(1);
    assert_eq!(state, LookerState::ScaredInside { until: 10_000_001 });
}

#[test]
fn second_fright_does_not_refresh_the_timer() {
    let first = LookerState::Happy.frighten(1_000_000);
    let again = first.frighten(1_000_000);
    assert_eq!(again, first);
    let later = first.frighten(9_000_000);
    assert_eq!(later, LookerState::Scared { until: 11_000_000 });
    let inside = LookerState::ScaredInside { until: 42 };
    assert_eq!(inside.frighten(1_000), inside);
    assert_eq!(inside.frighten(u64::MAX), inside);
}

#[test]
fn fright_near_the_end_of_time_ends_at_the_end_of_time() {
    let state = LookerState::Happy.frighten(u64::MAX - 5);
    assert_eq!(state, LookerState::Scared { until: u64::MAX });
}

#[test]
fn scared_looker_stays_scared_until_its_time_has_come() {
    let t0: u64 = 100_000_000;
    let scared = LookerState::Scared { until: t0 + 10_000_000 };
    let mut state = scared;
    let mut now = t0;
    while now <= t0 + 9_900_000 {
        state = state.calm(now);
        assert_eq!(state, scared);
        now += 100_000;
    }
    assert_eq!(state.calm(t0 + 10_100_000), LookerState::Happy);
}

#[test]
fn scared_inside_looker_calms_to_happy_inside() {
    let t0: u64 = 7;
    let scared = LookerState::ScaredInside { until: t0 + 10_000_000 };
    assert_eq!(scared.calm(t0 + 9_900_000), scared);
    assert_eq!(scared.calm(t0 + 10_100_000), LookerState::HappyInside);
}

#[test]
fn fright_ends_exactly_when_its_time_is_reached() {
    let scared = LookerState::Scared { until: 500 };
    assert_eq!(scared.calm(499), scared);
    assert_eq!(scared.calm(500), LookerState::Happy);
    assert_eq!(scared.calm(501), LookerState::Happy);
}

#[test]
fn happy_lookers_are_not_changed_by_calming() {
    assert_eq!(LookerState::Happy.calm(0), LookerState::Happy);
    assert_eq!(LookerState::HappyInside.calm(u64::MAX), LookerState::HappyInside);
}

#[test]
fn scared_tells_the_scared_variants() {
    assert!(!LookerState::Happy.scared());
    assert!(!LookerState::HappyInside.scared());
    assert!(LookerState::Scared { until: 0 }.scared());
    assert!(LookerState::ScaredInside { until: 0 }.scared());
}

#[test]
fn side_after_the_door_goes_by_the_mood() {
    assert_eq!(LookerState::Happy.side_after_door(), LookerLocation::Outside);
    assert_eq!(LookerState::HappyInside.side_after_door(), LookerLocation::Inside);
    assert_eq!(LookerState::Scared { until: 3 }.side_after_door(), LookerLocation::Inside);
    assert_eq!(LookerState::ScaredInside { until: 3 }.side_after_door(), LookerLocation::Inside);
}

#[test]
fn looker_changes_sides_only_at_its_door() {
    let looker = ls_looker(LookerState::Happy, LookerLocation::Inside);
    let far = Vec2 { x: 500_000, y: -650_000 - DOOR_RADIUS as i32 };
    assert_eq!(looker.tick(0, far).location, LookerLocation::Inside);
    let near = Vec2 { x: 500_000, y: -650_000 - DOOR_RADIUS as i32 + 1 };
    assert_eq!(looker.tick(0, near).location, LookerLocation::Outside);
    let scared = ls_looker(LookerState::Scared { until: 50 }, LookerLocation::Outside);
    assert_eq!(scared.tick(10, near).location, LookerLocation::Inside);
    assert_eq!(scared.tick(10, far).location, LookerLocation::Outside);
}

#[test]
fn looker_that_calms_at_the_door_crosses_by_its_new_mood() {
    let scared = ls_looker(LookerState::Scared { until: 50 }, LookerLocation::Inside);
    let next = scared.tick(50, scared.spawn_door);
    assert_eq!(next.state, LookerState::Happy);
    assert_eq!(next.location, LookerLocation::Outside);
    assert_eq!(next.spawn_point, scared.spawn_point);
    assert_eq!(next.spawn_door, scared.spawn_door);
}

#[test]
fn frightening_a_looker_keeps_its_place_and_its_points() {
    let looker = ls_looker(LookerState::HappyInside, LookerLocation::Outside);
    let next = looker.frighten(3);
    assert_eq!(next.state, LookerState::ScaredInside { until: 10_000_003 });
    assert_eq!(next.location, LookerLocation::Outside);
    assert_eq!(next.spawn_point, looker.spawn_point);
    assert_eq!(next.spawn_door, looker.spawn_door);
    assert_eq!(next.frighten(900), next);
}
