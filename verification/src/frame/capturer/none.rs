//! No frames: the screen counts as black.

use vstd::prelude::*;

verus! {

/// How often the brightness is adjusted without frames, in milliseconds.
pub const ADJUST_INTERVAL_MS: u64 = 200;

#[derive(Clone, Copy, Debug, PartialEq, Eq, Structural)]
pub struct Capturer {}

impl Default for Capturer {
    fn default() -> (r: Capturer)
        ensures
            r == (Capturer {  }),
    {
        Capturer {  }
    }
}

impl Capturer {
    /// The lightness to adjust for, as long as the output is in use.
    pub fn luma(&self, active: bool) -> (r: Option<u8>)
        ensures
            r == if active {
                Some(0u8)
            } else {
                None
            },
    {
        if active {
            Some(0)
        } else {
            None
        }
    }
}

} // verus!
