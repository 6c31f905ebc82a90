use dogchick::input::{key_action, Action, Actions, Inputs, KEY_DOWN, KEY_LEFT, KEY_RIGHT, KEY_UP};

const IN_ALL: [Action; 6] = [
    Action::CamRight,
    Action::CamLeft,
    Action::CamUp,
    Action::CamDown,
    Action::Zoom,
    Action::Dezoom,
];

#[test]
fn four_keys_move_the_camera() {
    assert_eq!(key_action(17), Some(Action::CamUp));
    assert_eq!(key_action(31), Some(Action::CamDown));
    assert_eq!(key_action(32), Some(Action::CamRight));
    assert_eq!(key_action(30), Some(Action::CamLeft));
    assert_eq!((KEY_UP, KEY_DOWN, KEY_RIGHT, KEY_LEFT), (17, 31, 32, 30));
    assert_eq!(key_action(0), None);
    assert_eq!(key_action(18), None);
    assert_eq!(key_action(u32::MAX), None);
}

#[test]
fn set_of_actions_holds_what_was_put_in() {
    let mut set = Actions::none();
    for action in IN_ALL {
        assert!(!set.contains(action));
    }
    for action in IN_ALL {
        set.set(action, true);
        assert!(set.contains(action));
        for other in IN_ALL {
            if other != action {
                assert!(!set.contains(other));
            }
        }
        set.set(action, true);
        assert!(set.contains(action));
        set.set(action, false);
        assert_eq!(set, Actions::none());
    }
}

#[test]
fn key_that_goes_down_begins_an_action_and_keeps_it_going() {
    let mut inputs = Inputs::new();
    assert_eq!(inputs, Inputs::default());
    inputs.key(KEY_UP, true);
    assert!(inputs.just_pressed.contains(Action::CamUp));
    assert!(inputs.pressed.contains(Action::CamUp));
    inputs.begin_frame();
    assert_eq!(inputs.just_pressed, Actions::none());
    assert!(inputs.pressed.contains(Action::CamUp));
    inputs.key(KEY_LEFT, true);
    inputs.begin_frame();
    inputs.key(KEY_UP, false);
    assert!(!inputs.pressed.contains(Action::CamUp));
    assert!(inputs.pressed.contains(Action::CamLeft));
    assert_eq!(inputs.just_pressed, Actions::none());
}

#[test]
fn key_that_goes_down_and_up_in_one_frame_has_still_begun() {
    let mut inputs = Inputs::new();
    inputs.key(KEY_RIGHT, true);
    inputs.key(KEY_RIGHT, false);
    assert!(inputs.just_pressed.contains(Action::CamRight));
    assert!(!inputs.pressed.contains(Action::CamRight));
}

#[test]
fn other_keys_change_nothing() {
    let mut inputs = Inputs::new();
    inputs.key(KEY_DOWN, true);
    let before = inputs;
    inputs.key(99, true);
    inputs.key(99, false);
    inputs.key(0, true);
    assert_eq!(inputs, before);
}

#[test]
fn wheel_begins_a_zoom_by_its_direction() {
    let mut inputs = Inputs::new();
    inputs.scroll(0);
    assert_eq!(inputs, Inputs::new());
    inputs.scroll(3);
    assert!(inputs.just_pressed.contains(Action::Zoom));
    assert!(!inputs.just_pressed.contains(Action::Dezoom));
    assert_eq!(inputs.pressed, Actions::none());
    inputs.scroll(i32::MIN);
    assert!(inputs.just_pressed.contains(Action::Zoom));
    assert!(inputs.just_pressed.contains(Action::Dezoom));
    inputs.begin_frame();
    assert_eq!(inputs, Inputs::new());
}
