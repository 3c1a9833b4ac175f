//! Node flows: what the animals at the vertices of a graph do.

pub mod atom;
pub mod boundary;
pub mod cell;
pub mod flow;
pub mod fusion;
pub mod meld;
pub mod protocol;
pub mod twin;
pub mod warp;
