//! Camera projection kind.

use vstd::prelude::*;

verus! {

/// Projection type.
#[derive(Clone, Copy, Debug, PartialEq, Eq, Structural)]
pub enum Projection {
    Perspective,
    Orthographic,
}

} // verus!
