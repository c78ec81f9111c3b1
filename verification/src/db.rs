//! What is kept across restarts of the daemon.

pub mod container;
pub mod devices;
pub mod laws;
pub mod models;
pub mod order;
pub mod restarts;
