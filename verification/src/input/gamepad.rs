//! Gamepad buttons and axes.

use vstd::prelude::*;

verus! {

/// A gamepad button.
#[derive(Debug, Clone, Copy, PartialEq, Eq, Hash, Structural)]
pub enum GamepadButton {
    /// The lower face button.
    South,
    /// The right face button.
    East,
    /// The left face button.
    West,
    /// The upper face button.
    North,
    /// The left bumper.
    LeftBumper,
    /// The right bumper.
    RightBumper,
    /// A press of the left stick.
    LeftStick,
    /// A press of the right stick.
    RightStick,
    /// The start button.
    Start,
    /// The select or back button.
    Select,
    /// Up on the directional pad.
    DPadUp,
    /// Down on the directional pad.
    DPadDown,
    /// Left on the directional pad.
    DPadLeft,
    /// Right on the directional pad.
    DPadRight,
}

/// A gamepad axis.
#[derive(Debug, Clone, Copy, PartialEq, Eq, Hash, Structural)]
pub enum GamepadAxis {
    /// The left stick, horizontally.
    LeftStickX,
    /// The left stick, vertically.
    LeftStickY,
    /// The right stick, horizontally.
    RightStickX,
    /// The right stick, vertically.
    RightStickY,
    /// The left trigger.
    LeftTrigger,
    /// The right trigger.
    RightTrigger,
}

} // verus!
