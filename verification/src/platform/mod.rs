//! Platform vocabulary: window events, window configuration and a timer.

pub mod events;
pub mod time;
pub mod window;
