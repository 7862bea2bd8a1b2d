use vstd::prelude::*;

verus! {

/// The resolution and desktop position of one output, as it was active.
#[derive(Clone, Copy, Debug, PartialEq, Eq, Structural)]
pub struct DisplayMode {
    pub width: u32,
    pub height: u32,
    pub x: i32,
    pub y: i32,
}

impl DisplayMode {
    pub open spec fn spec_zeroed(self) -> DisplayMode {
        DisplayMode { width: 0, height: 0, x: self.x, y: self.y }
    }

    /// The mode that switches an output off: no pixels, same position.
    pub fn zeroed(&self) -> (r: DisplayMode)
        ensures
            r == self.spec_zeroed(),
    {
        DisplayMode { width: 0, height: 0, x: self.x, y: self.y }
    }
}

} // verus!
