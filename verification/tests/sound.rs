use dogchick::creature::{Creature, CreatureKind};
use dogchick::fixed::Vec2;
use dogchick::fright::ThreatTriggered;
use dogchick::looker::{Looker, LookerLocation, LookerState};
use dogchick::planner::{MouseProj, HAND_SIZE};
use dogchick::sound::{
    find_held, is_newly_held, is_under_hand, sound_update, SoundCues, SoundState,
};
use dogchick::spawn::{new_chicken, new_dog, new_wolf};

const SO_QUIET: SoundCues =
    SoundCues { scared_chicken: false, scared_dog: false, chicken_call: false, dog_bark: false };

fn so_place(mut c: Creature, x: i32, state: LookerState, location: LookerLocation) -> Creature {
    c.position = Vec2 { x, y: 0 };
    let looker = c.kind.looker().unwrap();
    c.kind = c.kind.with_looker(Looker { state, location, ..looker });
    c
}

fn so_hen(id: u64, x: i32) -> Creature {
    so_place(new_chicken(id, 0, 0, 0), x, LookerState::Happy, LookerLocation::Outside)
}

fn so_dog(id: u64, x: i32) -> Creature {
    so_place(new_dog(id, 0, 0, 0), x, LookerState::Happy, LookerLocation::Outside)
}

#[test]
fn hand_is_over_happy_animals_outside_that_are_near() {
    let hand = MouseProj(Vec2 { x: 0, y: 0 });
    assert_eq!(HAND_SIZE, 80_000);
    assert!(is_under_hand(&so_hen(1, 79_999), hand, true));
    assert!(!is_under_hand(&so_hen(1, 80_000), hand, true));
    assert!(!is_under_hand(&so_hen(1, 0), hand, false));
    assert!(is_under_hand(&so_dog(1, 0), hand, false));
    assert!(!is_under_hand(&so_dog(1, 0), hand, true));
    let inside = so_place(new_dog(1, 0, 0, 0), 0, LookerState::Happy, LookerLocation::Inside);
    assert!(!is_under_hand(&inside, hand, false));
    let scared =
        so_place(new_dog(1, 0, 0, 0), 0, LookerState::Scared { until: 9 }, LookerLocation::Outside);
    assert!(!is_under_hand(&scared, hand, false));
    let homing =
        so_place(new_dog(1, 0, 0, 0), 0, LookerState::HappyInside, LookerLocation::Outside);
    assert!(!is_under_hand(&homing, hand, false));
    let mut chosen = so_dog(1, 0);
    chosen.merge_pending = true;
    assert!(!is_under_hand(&chosen, hand, false));
    let mut wolf = new_wolf(1, 0, 0);
    wolf.position = Vec2 { x: 0, y: 0 };
    assert!(!is_under_hand(&wolf, hand, false));
    assert!(!is_under_hand(&wolf, hand, true));
}

#[test]
fn held_animals_are_named_in_the_order_of_the_herd() {
    let hand = MouseProj(Vec2 { x: 0, y: 0 });
    let herd = vec![so_hen(4, 10), so_dog(5, 20), so_hen(6, 900_000), so_hen(7, -30), so_dog(8, 0)];
    assert_eq!(find_held(&herd, hand, true), vec![4, 7]);
    assert_eq!(find_held(&herd, hand, false), vec![5, 8]);
    assert_eq!(find_held(&vec![], hand, true), vec![]);
}

#[test]
fn newly_held_tells_a_new_name() {
    assert!(!is_newly_held(&vec![], &vec![]));
    assert!(is_newly_held(&vec![], &vec![3]));
    assert!(!is_newly_held(&vec![3], &vec![3]));
    assert!(!is_newly_held(&vec![3, 4], &vec![4]));
    assert!(is_newly_held(&vec![3, 4], &vec![4, 5]));
    assert!(!is_newly_held(&vec![3, 4], &vec![]));
}

#[test]
fn call_sounds_once_when_the_hand_comes_over_a_chicken() {
    let hand = MouseProj(Vec2 { x: 0, y: 0 });
    let mut state = SoundState::new();
    let herd = vec![so_hen(1, 10), so_hen(2, 20), so_dog(3, 500_000)];
    let cues = sound_update(&mut state, &herd, hand);
    assert_eq!(cues, SoundCues { chicken_call: true, ..SO_QUIET });
    assert_eq!(state.hand_state_chick, vec![1, 2]);
    assert_eq!(state.hand_state_dog, vec![]);
    let cues = sound_update(&mut state, &herd, hand);
    assert_eq!(cues, SO_QUIET);
    let herd = vec![so_hen(1, 10), so_hen(2, 200_000), so_dog(3, 5)];
    let cues = sound_update(&mut state, &herd, hand);
    assert_eq!(cues, SoundCues { dog_bark: true, ..SO_QUIET });
    assert_eq!(state.hand_state_chick, vec![1]);
    assert_eq!(state.hand_state_dog, vec![3]);
    let herd = vec![so_hen(1, 10), so_hen(2, 20), so_dog(3, 5)];
    let cues = sound_update(&mut state, &herd, hand);
    assert_eq!(cues, SoundCues { chicken_call: true, ..SO_QUIET });
}

#[test]
fn cry_sounds_once_for_each_kind_that_was_startled() {
    let hand = MouseProj(Vec2 { x: 0, y: 0 });
    let mut state = SoundState::new();
    state.hear(&vec![]);
    assert!(!state.new_scared_chicken && !state.new_scared_dog);
    state.hear(&vec![ThreatTriggered { creature_id: 5, chicken: true }]);
    assert!(state.new_scared_chicken && !state.new_scared_dog);
    state.hear(&vec![]);
    assert!(state.new_scared_chicken && !state.new_scared_dog);
    let cues = sound_update(&mut state, &vec![], hand);
    assert_eq!(cues, SoundCues { scared_chicken: true, ..SO_QUIET });
    assert!(!state.new_scared_chicken && !state.new_scared_dog);
    state.hear(&vec![
        ThreatTriggered { creature_id: 6, chicken: false },
        ThreatTriggered { creature_id: 7, chicken: true },
        ThreatTriggered { creature_id: 8, chicken: false },
    ]);
    let cues = sound_update(&mut state, &vec![], hand);
    assert_eq!(cues, SoundCues { scared_chicken: true, scared_dog: true, ..SO_QUIET });
    assert_eq!(sound_update(&mut state, &vec![], hand), SO_QUIET);
}

#[test]
fn hybrids_cry_like_dogs() {
    let mut state = SoundState::new();
    let hybrid = CreatureKind::DogChick(new_dog(1, 0, 0, 0).kind.looker().unwrap());
    let chicken = match hybrid {
        CreatureKind::Chicken(_) => true,
        _ => false,
    };
    state.hear(&vec![ThreatTriggered { creature_id: 1, chicken }]);
    assert!(state.new_scared_dog && !state.new_scared_chicken);
}
