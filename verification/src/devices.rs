//! The memory that services are seen to use.

pub mod attribution;
pub mod snapshot;
