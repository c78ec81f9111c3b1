//! How experts are offloaded to the CPU. A number of layers, which the field
//! takes too, has no word.

use vstd::prelude::*;

verus! {

/// Not at all.
pub const OFF: &'static str = "off";

/// As few as make the model fit.
pub const AUTO: &'static str = "auto";

/// Every accepted word.
pub const ALL: [&'static str; 2] = [OFF, AUTO];

} // verus!
