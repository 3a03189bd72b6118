//! The quality gate's buckets.

use vstd::prelude::*;

verus! {

/// Where the quality gate puts an item: straight in, to review, or aside
/// as an exception.
#[derive(Debug, Clone, Copy, PartialEq, Eq, Structural)]
pub enum GateBucket {
    Direct,
    Review,
    Exception,
}

} // verus!
