//! Models that mix attention with recurrent layers.

use crate::estimate::arith;
use crate::estimate::kv;
use crate::estimate::recurrent;
use crate::estimate::types::EstimatorInputs;
use crate::gguf::GgufSummary;
use crate::text;
use vstd::arithmetic::overflow::CheckedU64;
use vstd::prelude::*;

verus! {

/// Architectures that mix attention with recurrent layers, without experts.
pub const HYBRID_FAMILY: [&'static str; 2] = ["jamba", "qwen35"];

/// Whether an architecture is one of [`HYBRID_FAMILY`].
pub fn is_hybrid(arch: &str) -> (r: bool)
    ensures
        r == text::listed(HYBRID_FAMILY@, arch@),
{
    text::is_listed(&HYBRID_FAMILY, arch)
}

/// Every how many layers one runs full attention; each where undeclared.
pub open spec fn attention_interval(summary: GgufSummary) -> int {
    arith::greatest(summary.u32_or("full_attention_interval"@, 1), 1)
}

/// Layers of the main context, of `n` declared.
pub open spec fn context_layers(summary: GgufSummary, n: int) -> int {
    arith::least(recurrent::span(summary), n)
}

/// Layers with an attention cache.
pub open spec fn attention_layers(summary: GgufSummary, n: int) -> int {
    context_layers(summary, n) / attention_interval(summary)
}

/// Attention cache bytes per token.
pub open spec fn attention_bytes(summary: GgufSummary, n: int, inputs: EstimatorInputs<'_>) -> int {
    attention_layers(summary, n) * summary.u32_or("attention.head_count_kv"@, 0) * kv::head_bytes(
        summary.u32_or("attention.key_length"@, 128),
        summary.u32_or("attention.value_length"@, 128),
        kv::cache_type_of(inputs.cache_type_k),
        kv::cache_type_of(inputs.cache_type_v),
    )
}

/// State bytes of the layers without an attention cache.
pub open spec fn recurrent_bytes(summary: GgufSummary, n: int, inputs: EstimatorInputs<'_>) -> int {
    recurrent::state(
        summary,
        context_layers(summary, n) - attention_layers(summary, n),
        inputs,
    )
}

/// Context bytes per token: the attention cache's, and an equal share of
/// the recurrent state for each token of the context.
pub open spec fn per_token(summary: GgufSummary, n: int, inputs: EstimatorInputs<'_>) -> int {
    attention_bytes(summary, n, inputs) + (if inputs.context == 0 {
        0
    } else {
        recurrent_bytes(summary, n, inputs) / (inputs.context as int)
    })
}

/// Whether both terms and their sum can be counted.
pub open spec fn per_token_fits(summary: GgufSummary, n: int, inputs: EstimatorInputs<'_>) -> bool {
    &&& recurrent_bytes(summary, n, inputs) <= u64::MAX
    &&& per_token(summary, n, inputs) <= u64::MAX
}

/// Attention cache bytes per token and state bytes, however many.
fn sizes(summary: &GgufSummary, n_layers: u32, inputs: &EstimatorInputs<'_>) -> (r: (
    CheckedU64,
    CheckedU64,
))
    ensures
        r.0@ == attention_bytes(*summary, n_layers as int, *inputs),
        r.1@ == recurrent_bytes(*summary, n_layers as int, *inputs),
{
    let cache_k = kv::cache_type(inputs.cache_type_k);
    let cache_v = kv::cache_type(inputs.cache_type_v);
    let heads: u64 = summary.meta_u32_or("attention.head_count_kv", 0);
    let key: u64 = summary.meta_u32_or("attention.key_length", 128);
    let value: u64 = summary.meta_u32_or("attention.value_length", 128);
    let declared: u64 = summary.meta_u32_or("full_attention_interval", 1);
    let interval: u64 = if declared >= 1 {
        declared
    } else {
        1
    };
    let span: u64 = arith::smaller(
        recurrent::context_layer_span(summary) as u64,
        n_layers as u64,
    );
    let attention: u64 = span / interval;
    proof {
        assert(0 <= span as int / interval as int <= span) by (nonlinear_arith)
            requires
                span >= 0,
                interval >= 1,
        ;
    }
    let state: CheckedU64 = recurrent::state_size(summary, span - attention, inputs);
    let width: u64 = kv::head_width(key, value, cache_k, cache_v);
    (arith::product3(attention, heads, width), state)
}

/// Context bytes per token of a model that mixes attention with recurrent
/// layers, where they can be counted.
fn checked_per_token(summary: &GgufSummary, n_layers: u32, inputs: &EstimatorInputs<'_>) -> (r:
    Option<u64>)
    ensures
        match r {
            Some(bytes) => per_token_fits(*summary, n_layers as int, *inputs) && bytes == per_token(
                *summary,
                n_layers as int,
                *inputs,
            ),
            None => !per_token_fits(*summary, n_layers as int, *inputs),
        },
{
    let (attention, state): (CheckedU64, CheckedU64) = sizes(summary, n_layers, inputs);
    if state.is_overflowed() {
        return None;
    }
    let share: u64 = if inputs.context == 0 {
        0
    } else {
        state.unwrap() / (inputs.context as u64)
    };
    attention.add_value(share).to_option()
}

/// Whether both terms and their sum can be counted.
pub fn is_countable(summary: &GgufSummary, n_layers: u32, inputs: &EstimatorInputs<'_>) -> (r: bool)
    ensures
        r == per_token_fits(*summary, n_layers as int, *inputs),
{
    checked_per_token(summary, n_layers, inputs).is_some()
}

/// Context bytes per token of a model that mixes attention with recurrent
/// layers.
pub fn kv_for_hybrid(summary: &GgufSummary, n_layers: u32, inputs: &EstimatorInputs<'_>) -> (r: u64)
    requires
        per_token_fits(*summary, n_layers as int, *inputs),
    ensures
        r == per_token(*summary, n_layers as int, *inputs),
{
    checked_per_token(summary, n_layers, inputs).unwrap()
}

} // verus!
