//! Line charts as PNG bytes: input normalization, viewport computation and
//! the framing and encoding of the rendered pixel buffer.
use vstd::prelude::*;

pub mod input;
pub mod viewport;
pub mod render;

verus! {

/// The plugin command itself; it holds no state between calls.
#[derive(Clone, Copy, Debug, PartialEq, Eq, Structural)]
pub struct Plot;

impl Plot {
    pub fn new() -> (r: Plot)
        ensures
            r == Plot,
    {
        Plot
    }
}

} // verus!
