//! Window configuration choices the host honours.

use vstd::prelude::*;

verus! {

/// Supported render resolutions.
#[derive(Clone, Copy, Debug, PartialEq, Eq, Structural)]
pub enum Resolution {
    Resolution640x480,
}

impl Default for Resolution {
    /// The one supported resolution.
    fn default() -> (r: Resolution)
        ensures
            r is Resolution640x480,
    {
        Resolution::Resolution640x480
    }
}

/// Fullscreen or windowed presentation.
#[derive(Clone, Copy, Debug, PartialEq, Eq, Structural)]
pub enum WindowMode {
    Fullscreen,
    Windowed,
}

impl Default for WindowMode {
    /// Windowed presentation to start with.
    fn default() -> (r: WindowMode)
        ensures
            r is Windowed,
    {
        WindowMode::Windowed
    }
}

} // verus!
