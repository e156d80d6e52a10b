//! Camera state: a single yaw angle advanced by a fixed step per frame.

use vstd::prelude::*;

verus! {

/// Holds the rotating camera yaw, in turn units (65536 per full turn), and
/// the fixed step it advances by once per rendered frame. The angle wraps
/// modulo a full turn, so it never grows without bound.
pub struct CameraController {
    yaw: u16,
    step: u16,
}

impl CameraController {
    pub closed spec fn spec_yaw(self) -> int {
        self.yaw as int
    }

    pub closed spec fn spec_step(self) -> int {
        self.step as int
    }

    pub fn new(initial_yaw: u16, yaw_step: u16) -> (r: CameraController)
        ensures
            r.spec_yaw() == initial_yaw,
            r.spec_step() == yaw_step,
    {
        CameraController { yaw: initial_yaw, step: yaw_step }
    }

    /// Advances the yaw by the configured step, wrapping a full turn.
    pub fn advance(&mut self)
        ensures
            final(self).spec_yaw() == (old(self).spec_yaw() + old(self).spec_step()) % 65536,
            final(self).spec_step() == old(self).spec_step(),
    {
        let next: u32 = (self.yaw as u32 + self.step as u32) % 65536;
        self.yaw = next as u16;
    }

    pub fn current_yaw(&self) -> (r: u16)
        ensures
            r == self.spec_yaw(),
    {
        self.yaw
    }
}

} // verus!
