//! The OpenAI-compatible API.

pub mod audio;
pub mod models;
pub mod response;
