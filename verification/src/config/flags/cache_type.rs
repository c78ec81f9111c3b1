//! How the KV cache is stored.

use crate::text;
use vstd::prelude::*;

verus! {

pub const F32: &'static str = "f32";

pub const F16: &'static str = "f16";

pub const BF16: &'static str = "bf16";

pub const Q8_0: &'static str = "q8_0";

pub const Q5_1: &'static str = "q5_1";

pub const Q5_0: &'static str = "q5_0";

pub const Q4_1: &'static str = "q4_1";

pub const Q4_0: &'static str = "q4_0";

pub const IQ4_NL: &'static str = "iq4_nl";

/// Every accepted value, as llama.cpp orders them.
pub const ALL: [&'static str; 9] = [F32, F16, BF16, Q8_0, Q5_1, Q5_0, Q4_1, Q4_0, IQ4_NL];

/// Whether a cache of this type is charged the quantised rate: every type
/// but `f16` and `f32`, whose letters may be of either case.
pub fn is_quantised(value: &str) -> (r: bool)
    ensures
        r == !(text::alike(value@, F16@) || text::alike(value@, F32@)),
{
    !text::same_ignoring_case(value, F16) && !text::same_ignoring_case(value, F32)
}

} // verus!
