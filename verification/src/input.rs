//! What the player asks of the camera: which keys move it, and which of them
//! are held.

use vstd::prelude::*;

verus! {

/// The key that moves the camera up, by its scan code.
pub const KEY_UP: u32 = 17;

/// The key that moves the camera down, by its scan code.
pub const KEY_DOWN: u32 = 31;

/// The key that moves the camera right, by its scan code.
pub const KEY_RIGHT: u32 = 32;

/// The key that moves the camera left, by its scan code.
pub const KEY_LEFT: u32 = 30;

/// Something that the player can ask of the camera.
#[derive(Clone, Copy, Debug, PartialEq, Eq, Hash, Structural)]
pub enum Action {
    CamRight,
    CamLeft,
    CamUp,
    CamDown,
    Zoom,
    Dezoom,
}

/// A set of actions.
#[derive(Clone, Copy, Debug, PartialEq, Eq, Structural)]
pub struct Actions {
    pub cam_right: bool,
    pub cam_left: bool,
    pub cam_up: bool,
    pub cam_down: bool,
    pub zoom: bool,
    pub dezoom: bool,
}

/// The actions that began in this frame, and those that go on.
#[derive(Clone, Copy, Debug, PartialEq, Eq, Structural)]
pub struct Inputs {
    pub just_pressed: Actions,
    pub pressed: Actions,
}

/// The action that a key stands for, by its scan code; nothing for any other
/// key.
pub open spec fn key_action_spec(scan_code: u32) -> Option<Action> {
    if scan_code == KEY_UP {
        Some(Action::CamUp)
    } else if scan_code == KEY_DOWN {
        Some(Action::CamDown)
    } else if scan_code == KEY_RIGHT {
        Some(Action::CamRight)
    } else if scan_code == KEY_LEFT {
        Some(Action::CamLeft)
    } else {
        None
    }
}

/// Computes [`key_action_spec`].
pub fn key_action(scan_code: u32) -> (action: Option<Action>)
    ensures
        action == key_action_spec(scan_code),
{
    if scan_code == KEY_UP {
        Some(Action::CamUp)
    } else if scan_code == KEY_DOWN {
        Some(Action::CamDown)
    } else if scan_code == KEY_RIGHT {
        Some(Action::CamRight)
    } else if scan_code == KEY_LEFT {
        Some(Action::CamLeft)
    } else {
        None
    }
}

impl Actions {
    /// True when the action is in the set.
    pub open spec fn has(self, action: Action) -> bool {
        match action {
            Action::CamRight => self.cam_right,
            Action::CamLeft => self.cam_left,
            Action::CamUp => self.cam_up,
            Action::CamDown => self.cam_down,
            Action::Zoom => self.zoom,
            Action::Dezoom => self.dezoom,
        }
    }

    /// The set with the action put in, if `held` is set, or taken out.
    pub open spec fn with(self, action: Action, held: bool) -> Actions {
        match action {
            Action::CamRight => Actions { cam_right: held, ..self },
            Action::CamLeft => Actions { cam_left: held, ..self },
            Action::CamUp => Actions { cam_up: held, ..self },
            Action::CamDown => Actions { cam_down: held, ..self },
            Action::Zoom => Actions { zoom: held, ..self },
            Action::Dezoom => Actions { dezoom: held, ..self },
        }
    }

    /// The empty set.
    pub fn none() -> (set: Actions)
        ensures
            forall|action: Action| !set.has(action),
    {
        Actions {
            cam_right: false,
            cam_left: false,
            cam_up: false,
            cam_down: false,
            zoom: false,
            dezoom: false,
        }
    }

    /// Computes [`Actions::has`].
    pub fn contains(&self, action: Action) -> (b: bool)
        ensures
            b == self.has(action),
    {
        match action {
            Action::CamRight => self.cam_right,
            Action::CamLeft => self.cam_left,
            Action::CamUp => self.cam_up,
            Action::CamDown => self.cam_down,
            Action::Zoom => self.zoom,
            Action::Dezoom => self.dezoom,
        }
    }

    /// Puts the action into the set, if `held` is set, or takes it out. The
    /// other actions stay as they are.
    pub fn set(&mut self, action: Action, held: bool)
        ensures
            *final(self) == old(self).with(action, held),
            final(self).has(action) == held,
            forall|other: Action| other != action ==> final(self).has(other) == old(self).has(other),
    {
        match action {
            Action::CamRight => {
                self.cam_right = held;
            },
            Action::CamLeft => {
                self.cam_left = held;
            },
            Action::CamUp => {
                self.cam_up = held;
            },
            Action::CamDown => {
                self.cam_down = held;
            },
            Action::Zoom => {
                self.zoom = held;
            },
            Action::Dezoom => {
                self.dezoom = held;
            },
        }
    }
}

impl Inputs {
    /// No action has begun and none goes on.
    pub fn new() -> (inputs: Inputs)
        ensures
            forall|action: Action|
                !inputs.just_pressed.has(action) && !inputs.pressed.has(action),
    {
        Inputs { just_pressed: Actions::none(), pressed: Actions::none() }
    }

    /// Begins a frame: no action has begun in it yet; those that go on, go
    /// on.
    pub fn begin_frame(&mut self)
        ensures
            forall|action: Action| !final(self).just_pressed.has(action),
            final(self).pressed == old(self).pressed,
    {
        self.just_pressed = Actions::none();
    }

    /// The inputs after a key went down, if `down` is set, or up. A key that
    /// stands for an action begins that action and makes it go on when it goes
    /// down, and ends it when it goes up, without a word on whether it has
    /// begun in this frame. Any other key changes nothing.
    pub open spec fn after_key(self, scan_code: u32, down: bool) -> Inputs {
        match key_action_spec(scan_code) {
            Some(action) => if down {
                Inputs {
                    just_pressed: self.just_pressed.with(action, true),
                    pressed: self.pressed.with(action, true),
                }
            } else {
                Inputs { just_pressed: self.just_pressed, pressed: self.pressed.with(action, false) }
            },
            None => self,
        }
    }

    /// The inputs after the wheel has turned by `y`: forward begins a zoom,
    /// backward the opposite, and no turn changes nothing. What goes on is
    /// not touched.
    pub open spec fn after_scroll(self, y: int) -> Inputs {
        if y > 0 {
            Inputs { just_pressed: self.just_pressed.with(Action::Zoom, true), pressed: self.pressed }
        } else if y < 0 {
            Inputs {
                just_pressed: self.just_pressed.with(Action::Dezoom, true),
                pressed: self.pressed,
            }
        } else {
            self
        }
    }

    /// Takes note of a key that went down or up; see [`Inputs::after_key`].
    pub fn key(&mut self, scan_code: u32, down: bool)
        ensures
            *final(self) == old(self).after_key(scan_code, down),
    {
        match key_action(scan_code) {
            Some(action) => {
                if down {
                    self.just_pressed.set(action, true);
                    self.pressed.set(action, true);
                } else {
                    self.pressed.set(action, false);
                }
            },
            None => {},
        }
    }

    /// Takes note of a turn of the wheel, of which only the direction
    /// counts; see [`Inputs::after_scroll`].
    pub fn scroll(&mut self, y: i32)
        ensures
            *final(self) == old(self).after_scroll(y as int),
    {
        if y > 0 {
            self.just_pressed.set(Action::Zoom, true);
        } else if y < 0 {
            self.just_pressed.set(Action::Dezoom, true);
        }
    }
}

impl Default for Inputs {
    fn default() -> (inputs: Inputs)
        ensures
            forall|action: Action|
                !inputs.just_pressed.has(action) && !inputs.pressed.has(action),
    {
        Inputs::new()
    }
}

} // verus!
