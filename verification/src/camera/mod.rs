pub mod controls;
pub mod projection;

pub use controls::{Action, ControlState, Key, MouseButton, MouseState, A, D, J, S, W, WASDJ};
pub use projection::{toggled_free_look, Projection};
