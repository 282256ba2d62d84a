use vstd::prelude::*;

verus! {

/// Position and size of a window on screen.
#[derive(Debug, Clone, Copy, PartialEq, Eq, Structural)]
pub struct WindowInfo {
    pub x: i32,
    pub y: i32,
    pub width: u32,
    pub height: u32,
}

/// Why the active window could not be found.
#[derive(Debug, Clone, Copy, PartialEq, Eq, Structural)]
pub enum WindowError {
    NoActiveWindow,
}

/// Geometry of the active window. No compositor query is made: a fixed
/// 800x600 window at (100, 100) stands for it.
pub fn get_active_window() -> (r: Result<WindowInfo, WindowError>)
    ensures
        r == Ok::<WindowInfo, WindowError>(WindowInfo { x: 100, y: 100, width: 800, height: 600 }),
{
    Ok(WindowInfo { x: 100, y: 100, width: 800, height: 600 })
}

} // verus!
