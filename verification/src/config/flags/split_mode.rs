//! How a model is split over several GPUs.

use vstd::prelude::*;

verus! {

/// Whole layers, one GPU behind the other.
pub const LAYER: &'static str = "layer";

/// Tensor parallelism by rows.
pub const ROW: &'static str = "row";

/// Tensor parallelism.
pub const TENSOR: &'static str = "tensor";

/// Every accepted value.
pub const ALL: [&'static str; 3] = [LAYER, ROW, TENSOR];

} // verus!
