//! What observers see of a child journey.

use vstd::prelude::*;

verus! {

/// Whether the model of a child is frozen.
#[derive(Clone, Copy, Debug, PartialEq, Eq, Structural)]
pub struct Ray {
    pub frozen: bool,
}

impl Default for Ray {
    fn default() -> (ray: Ray)
        ensures
            !ray.frozen,
    {
        Ray { frozen: false }
    }
}

} // verus!
