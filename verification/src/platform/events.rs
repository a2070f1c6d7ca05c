//! Window events.

use vstd::prelude::*;

verus! {

/// Something that happened to a window.
#[derive(Debug, Clone)]
pub enum Event {
    /// The window has a new size, in pixels.
    Resized { width: u32, height: u32 },
    /// The user asked to close the window.
    CloseRequested,
    /// The window gained (`true`) or lost (`false`) the focus.
    Focused(bool),
    /// The window should draw itself again.
    RedrawRequested,
}

} // verus!
