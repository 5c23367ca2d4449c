//! Marker type for the hybrid integer-score / float-probability softmax.
//!
//! The softmax computes `exp` in `f32` and runs outside the library.

use vstd::prelude::*;

verus! {

/// Softmax over integer attention scores.
pub struct QSoftmax;

} // verus!
