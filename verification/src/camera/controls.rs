use vstd::prelude::*;

verus! {

/// Index of the forward (W) flag in the movement inputs.
pub const W: usize = 0;
/// Index of the left (A) flag in the movement inputs.
pub const A: usize = 1;
/// Index of the back (S) flag in the movement inputs.
pub const S: usize = 2;
/// Index of the right (D) flag in the movement inputs.
pub const D: usize = 3;
/// Index of the jump flag in the movement inputs.
pub const J: usize = 4;
/// The movement input indices in order.
pub const WASDJ: [usize; 5] = [W, A, S, D, J];

/// The physical keys that camera control reacts to.
#[derive(Debug, Clone, Copy, PartialEq, Eq, Structural)]
pub enum Key {
    W,
    A,
    S,
    D,
    Space,
    L,
    M,
    Other,
}

/// The mouse buttons that camera control tracks.
#[derive(Debug, Clone, Copy, PartialEq, Eq, Structural)]
pub enum MouseButton {
    Left,
    Right,
    Other,
}

/// A camera action an input can request.
#[derive(Debug)]
pub enum Action {
    Projection,
    Movement(bool),
}

/// The state of a mouse button: held down, and pressed by the last update.
#[derive(Debug, Clone, Copy, PartialEq, Eq, Structural)]
pub struct MouseState {
    pub is_down: bool,
    pub just_pressed: bool,
}

impl MouseState {
    /// A released button.
    pub fn new() -> (r: Self)
        ensures
            !r.is_down,
            !r.just_pressed,
    {
        Self { is_down: false, just_pressed: false }
    }

    /// Records the button's state now; it was just pressed when it is down now and was not
    /// before.
    pub fn update(&mut self, is_down_now: bool)
        ensures
            *final(self) == old(self).after_update(is_down_now),
    {
        self.just_pressed = is_down_now && !self.is_down;
        self.is_down = is_down_now;
    }
}

/// The discrete part of camera control: which movement keys are held and the state of the two
/// mouse buttons.
#[derive(Debug, Clone, Copy, PartialEq, Eq, Structural)]
pub struct ControlState {
    pub forward: bool,
    pub back: bool,
    pub left: bool,
    pub right: bool,
    pub jump: bool,
    pub mouse_left: MouseState,
    pub mouse_right: MouseState,
}

/// Whether `key` is one of the movement keys (W, A, S, D, Space).
pub open spec fn is_movement_key(key: Key) -> bool {
    key is W || key is A || key is S || key is D || key is Space
}

impl ControlState {
    /// The state after `key` goes down (`pressed`) or up: a movement key's flag follows it.
    pub open spec fn with_key(self, key: Key, pressed: bool) -> ControlState {
        match key {
            Key::W => ControlState { forward: pressed, ..self },
            Key::S => ControlState { back: pressed, ..self },
            Key::A => ControlState { left: pressed, ..self },
            Key::D => ControlState { right: pressed, ..self },
            Key::Space => ControlState { jump: pressed, ..self },
            _ => self,
        }
    }

    /// The state after `button` is seen down (`pressed`) or up: the left and right buttons
    /// states are updated, other buttons change nothing.
    pub open spec fn with_button(self, button: MouseButton, pressed: bool) -> ControlState {
        match button {
            MouseButton::Left => ControlState {
                mouse_left: self.mouse_left.after_update(pressed),
                ..self
            },
            MouseButton::Right => ControlState {
                mouse_right: self.mouse_right.after_update(pressed),
                ..self
            },
            MouseButton::Other => self,
        }
    }

    /// No key held, both buttons released.
    pub fn new() -> (r: Self)
        ensures
            !r.forward && !r.back && !r.left && !r.right && !r.jump,
            r.mouse_left == MouseState::new_spec(),
            r.mouse_right == MouseState::new_spec(),
    {
        Self {
            forward: false,
            back: false,
            left: false,
            right: false,
            jump: false,
            mouse_left: MouseState::new(),
            mouse_right: MouseState::new(),
        }
    }

    /// Records a key going down (`pressed`) or up. A movement key sets its flag to `pressed`
    /// and is consumed; any other key changes nothing and is not.
    pub fn process_key(&mut self, key: Key, pressed: bool) -> (consumed: bool)
        ensures
            consumed == is_movement_key(key),
            *final(self) == old(self).with_key(key, pressed),
    {
        match key {
            Key::W => {
                self.forward = pressed;
                true
            },
            Key::S => {
                self.back = pressed;
                true
            },
            Key::A => {
                self.left = pressed;
                true
            },
            Key::D => {
                self.right = pressed;
                true
            },
            Key::Space => {
                self.jump = pressed;
                true
            },
            _ => false,
        }
    }

    /// Records a mouse button's state; the left and right buttons are tracked and consumed,
    /// others are not.
    pub fn process_mouse_button(&mut self, button: MouseButton, pressed: bool) -> (consumed: bool)
        ensures
            consumed == !(button is Other),
            *final(self) == old(self).with_button(button, pressed),
    {
        match button {
            MouseButton::Left => {
                self.mouse_left.update(pressed);
                true
            },
            MouseButton::Right => {
                self.mouse_right.update(pressed);
                true
            },
            MouseButton::Other => false,
        }
    }

    /// The movement flags in the order of `WASDJ`: forward, left, back, right, jump.
    pub fn inputs(&self) -> (r: [bool; 5])
        ensures
            r@ == seq![self.forward, self.left, self.back, self.right, self.jump],
    {
        [self.forward, self.left, self.back, self.right, self.jump]
    }

    /// Whether the left and the right button are held.
    pub fn mouse_state_is_down(&self) -> (r: (bool, bool))
        ensures
            r == (self.mouse_left.is_down, self.mouse_right.is_down),
    {
        (self.mouse_left.is_down, self.mouse_right.is_down)
    }

    /// Whether the left and the right button were just pressed.
    pub fn mouse_just_pressed(&self) -> (r: (bool, bool))
        ensures
            r == (self.mouse_left.just_pressed, self.mouse_right.just_pressed),
    {
        (self.mouse_left.just_pressed, self.mouse_right.just_pressed)
    }
}

impl MouseState {
    /// The state after an update with the button down (`is_down_now`) or up.
    pub open spec fn after_update(self, is_down_now: bool) -> MouseState {
        MouseState { is_down: is_down_now, just_pressed: is_down_now && !self.is_down }
    }

    /// A released button, as a value.
    pub open spec fn new_spec() -> Self {
        MouseState { is_down: false, just_pressed: false }
    }
}

/// A button reads as just pressed only on the update that finds it down after it was up: held
/// down over two updates, it is just pressed at most on the first; released, it never is.
pub proof fn law_just_pressed_once(s: MouseState, down: bool)
    ensures
        s.after_update(down).just_pressed == (down && !s.is_down),
        !s.after_update(true).after_update(true).just_pressed,
        !s.after_update(false).just_pressed,
{
}

/// Releasing a key after pressing it leaves the controls as releasing it alone would; movement
/// keys set only their own flag, and other keys change nothing.
pub proof fn law_key_press_release(st: ControlState, key: Key)
    ensures
        st.with_key(key, true).with_key(key, false) == st.with_key(key, false),
        !is_movement_key(key) ==> st.with_key(key, true) == st,
        key is W ==> st.with_key(key, true).forward,
        key is A ==> st.with_key(key, true).left,
        key is S ==> st.with_key(key, true).back,
        key is D ==> st.with_key(key, true).right,
        key is Space ==> st.with_key(key, true).jump,
{
}

} // verus!
