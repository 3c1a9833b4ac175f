//! Sun programs: what a compiled graph is used for.

pub mod checkpoint_evaluate;
pub mod driver;
pub mod forward_only;
pub mod pipeline_backward;
pub mod seeds;
pub mod two_sided_zo;
