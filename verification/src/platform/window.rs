//! Window configuration.

use vstd::prelude::*;

verus! {

/// How a window is to be created.
#[derive(Debug, Clone)]
pub struct WindowConfig {
    /// The window's title.
    pub title: String,
    /// The window's width in pixels.
    pub width: u32,
    /// The window's height in pixels.
    pub height: u32,
    /// Whether the user may resize the window.
    pub resizable: bool,
    /// Whether presentation waits for the display's vertical sync.
    pub vsync: bool,
}

impl Default for WindowConfig {
    /// A resizable 1280 by 720 window titled "Synarion Engine", with
    /// vertical sync.
    fn default() -> (config: Self)
        ensures
            config.title@ == "Synarion Engine"@,
            config.width == 1280,
            config.height == 720,
            config.resizable,
            config.vsync,
    {
        WindowConfig {
            title: "Synarion Engine".to_owned(),
            width: 1280,
            height: 720,
            resizable: true,
            vsync: true,
        }
    }
}

} // verus!
