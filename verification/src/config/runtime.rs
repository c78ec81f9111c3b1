//! Which llama.cpp fork serves a model.

use vstd::prelude::*;

verus! {

/// A llama.cpp fork.
#[derive(Debug, Clone, Copy, PartialEq, Eq, Hash, Structural)]
pub enum Runtime {
    /// Upstream llama.cpp.
    Mainline,
    /// The ik_llama.cpp fork.
    Ik,
}

impl Default for Runtime {
    fn default() -> (r: Self)
        ensures
            r == Runtime::Mainline,
    {
        Runtime::Mainline
    }
}

impl Runtime {
    /// How the fork is spelled in records and reports.
    pub fn name(self) -> (r: &'static str)
        ensures
            r@ == (match self {
                Runtime::Mainline => "mainline"@,
                Runtime::Ik => "ik"@,
            }),
    {
        match self {
            Runtime::Mainline => "mainline",
            Runtime::Ik => "ik",
        }
    }
}

} // verus!
