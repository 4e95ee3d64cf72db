//! Sizes that a flow has before any space is handed to it.

use vstd::prelude::*;
use crate::geometry::Au;

verus! {

/// The intrinsic inline-sizes of a flow: the least it can do with, and what it would like.
#[derive(Clone, Copy, PartialEq, Eq, Structural, Debug)]
pub struct IntrinsicISizes {
    pub minimum_inline_size: Au,
    pub preferred_inline_size: Au,
}

impl IntrinsicISizes {
    /// Intrinsic sizes of zero.
    pub fn new() -> (sizes: IntrinsicISizes)
        ensures
            sizes == (IntrinsicISizes { minimum_inline_size: Au(0), preferred_inline_size: Au(0) }),
    {
        IntrinsicISizes { minimum_inline_size: Au(0), preferred_inline_size: Au(0) }
    }
}

} // verus!
