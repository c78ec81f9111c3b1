//! Element widths of the KV cache.

use crate::gguf::GgufType;
use vstd::prelude::*;

verus! {

/// Bytes that 32 cache elements of a type take.
///
/// Every type gets a width, not only those llama.cpp accepts as a cache
/// type; one without a known width is priced as f16.
pub open spec fn block_bytes(cache_type: GgufType) -> int {
    match cache_type {
        GgufType::F32 => 128,
        GgufType::F16 | GgufType::BF16 => 64,
        GgufType::Q8_0 => 34,
        GgufType::Q5_1 => 24,
        GgufType::Q5_0 => 22,
        GgufType::Q4_1 => 20,
        GgufType::Q4_0 | GgufType::IQ4_NL => 18,
        GgufType::Q6_0 => 26,
        GgufType::Q8_KV => 32,
        _ => 64,
    }
}

/// Bytes that 32 cache elements of a type take.
pub fn kv_bytes_per_block(cache_type: GgufType) -> (r: u64)
    ensures
        r == block_bytes(cache_type),
        18 <= r <= 128,
{
    match cache_type {
        GgufType::F32 => 128,
        GgufType::F16 | GgufType::BF16 => 64,
        GgufType::Q8_0 => 34,
        GgufType::Q5_1 => 24,
        GgufType::Q5_0 => 22,
        GgufType::Q4_1 => 20,
        GgufType::Q4_0 | GgufType::IQ4_NL => 18,
        GgufType::Q6_0 => 26,
        GgufType::Q8_KV => 32,
        _ => 64,
    }
}

/// Whether a cache type stores the cache quantised: every type but `f16`
/// and `f32`, `bf16` included.
pub fn is_quantised(cache_type: GgufType) -> (r: bool)
    ensures
        r == (cache_type != GgufType::F16 && cache_type != GgufType::F32),
{
    !(cache_type == GgufType::F16 || cache_type == GgufType::F32)
}

/// Bytes one head's key and value take in the cache, for one token.
pub open spec fn head_bytes(
    key_length: int,
    value_length: int,
    key_type: GgufType,
    value_type: GgufType,
) -> int {
    (key_length * block_bytes(key_type) + value_length * block_bytes(value_type)) / 32
}

/// Bytes one head's key and value take in the cache, for one token.
pub fn head_width(
    key_length: u64,
    value_length: u64,
    key_type: GgufType,
    value_type: GgufType,
) -> (r: u64)
    requires
        key_length <= u32::MAX,
        value_length <= u32::MAX,
    ensures
        r == head_bytes(key_length as int, value_length as int, key_type, value_type),
{
    let k: u64 = kv_bytes_per_block(key_type);
    let v: u64 = kv_bytes_per_block(value_type);
    assert(key_length * k <= u32::MAX * 128 && value_length * v <= u32::MAX * 128)
        by (nonlinear_arith)
        requires
            key_length <= u32::MAX,
            value_length <= u32::MAX,
            k <= 128,
            v <= 128,
    ;
    (key_length * k + value_length * v) / 32
}

/// The cache type a setting selects, f16 by default.
pub open spec fn cache_type_of(setting: Option<GgufType>) -> GgufType {
    match setting {
        Some(t) => t,
        None => GgufType::F16,
    }
}

/// The cache type a setting selects, f16 by default.
pub fn cache_type(setting: Option<GgufType>) -> (r: GgufType)
    ensures
        r == cache_type_of(setting),
{
    match setting {
        Some(t) => t,
        None => GgufType::F16,
    }
}

} // verus!
