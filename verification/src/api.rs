//! What goes over the wire.

pub mod errors;
pub mod event;
pub mod laws;
pub mod log_line;
pub mod openai;
pub mod restarts;
pub mod services;
