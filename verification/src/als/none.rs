//! No ambient light.

use vstd::prelude::*;

verus! {

#[derive(Clone, Copy, Debug, PartialEq, Eq, Structural)]
pub struct Als {}

impl Default for Als {
    fn default() -> (r: Als)
        ensures
            r == (Als {  }),
    {
        Als {  }
    }
}

impl Als {
    /// It is always dark.
    pub fn get(&self) -> (r: u64)
        ensures
            r == 0,
    {
        0
    }
}

} // verus!
