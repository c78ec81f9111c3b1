//! Configuration: the raw tables an operator writes, inheritance between
//! them, and the rules they are held to.

pub mod auto_restart;
pub mod container;
pub mod docs;
pub mod effective;
pub mod error;
pub mod flags;
pub mod laws;
pub mod load;
pub mod merge;
pub mod raw;
pub mod runtime;
pub mod service;
pub mod units;
pub mod value;
