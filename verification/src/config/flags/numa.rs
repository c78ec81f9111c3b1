//! Where threads and memory go on a machine with several NUMA nodes.

use vstd::prelude::*;

verus! {

/// Over all nodes.
pub const DISTRIBUTE: &'static str = "distribute";

/// On a single node.
pub const ISOLATE: &'static str = "isolate";

/// Where an external `numactl` mask says.
pub const NUMACTL: &'static str = "numactl";

/// Every accepted value.
pub const ALL: [&'static str; 3] = [DISTRIBUTE, ISOLATE, NUMACTL];

} // verus!
