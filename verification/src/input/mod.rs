//! Input vocabulary: keys, buttons, axes, and named actions bound to them.

pub mod action;
pub mod gamepad;
pub mod keyboard;
pub mod mouse;
