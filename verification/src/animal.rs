//! Animals: journeys that can be spawned and observed.

use vstd::prelude::*;

use crate::nodes::cell::CellState;
use crate::ray::Ray;

verus! {

/// The first and simplest cell: a bare inference loop without input or output
/// processing and without metadata.
#[derive(Clone, Copy)]
pub struct Progenitor;

impl Progenitor {
    /// What observers see of a progenitor.
    pub fn observe(state: &CellState<()>) -> (ray: Ray)
        ensures
            ray == (Ray { frozen: state.is_frozen }),
    {
        Ray { frozen: state.is_frozen }
    }
}

} // verus!
