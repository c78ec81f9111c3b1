//! Memory estimates for llama.cpp services, by model architecture.

pub mod arith;
pub mod cache_laws;
pub mod compute_buffer;
pub mod device_bytes;
pub mod estimate_laws;
pub mod family;
pub mod fingerprint;
pub mod host_buffer;
pub mod host_laws;
pub mod hybrid;
pub mod kv;
pub mod layers;
pub mod llama_kv;
pub mod moe;
pub mod mtp;
pub mod override_tensor;
pub mod pipeline;
pub mod projector;
pub mod recurrent;
pub mod tuning;
pub mod types;
