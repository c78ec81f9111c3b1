//! Verified core of the ananke service daemon.

pub mod api;
pub mod config;
pub mod db;
pub mod devices;
pub mod estimate;
pub mod gguf;
pub mod text;
pub mod text_map;
