//! Configuration state of the screen-corner detector. The polling loop that
//! reads the mouse position and the screen geometry works on floating-point
//! coordinates and runs on its own thread, so it lives outside the library;
//! it consults this state before every probe.

use vstd::prelude::*;

use crate::prefs::Corner;

verus! {

/// Which corner triggers, how large the trigger zone is in pixels, and
/// whether the detector is active at all.
pub struct HotCornerService {
    pub corner: Corner,
    pub size: u32,
    pub enabled: bool,
}

impl HotCornerService {
    /// A detector watching the default corner with the default zone size.
    pub fn new() -> (r: Self)
        ensures
            r.corner == Corner::TopRight,
            r.size == 10,
            r.enabled,
    {
        HotCornerService { corner: Corner::TopRight, size: 10, enabled: true }
    }

    /// Replaces the detector's configuration.
    pub fn update_config(&mut self, new_corner: Corner, new_size: u32, new_enabled: bool)
        ensures
            final(self).corner == new_corner,
            final(self).size == new_size,
            final(self).enabled == new_enabled,
    {
        self.corner = new_corner;
        self.size = new_size;
        self.enabled = new_enabled;
    }
}

} // verus!
