//! Byte units.

use vstd::prelude::*;

verus! {

/// Bytes in a mebibyte.
pub const MIB: u64 = 1048576;

/// Bytes in a gibibyte.
pub const GIB: u64 = 1073741824;

/// [`MIB`], for arithmetic that can go either way.
pub const MIB_I64: i64 = 1048576;

} // verus!
