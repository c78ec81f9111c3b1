//! Recurrent state of layers that are not attention.
//!
//! Beside the attention cache llama.cpp keeps two f32 tensors for every
//! layer that carries recurrent state: the rolling convolution state and
//! the SSM state proper. Neither depends on the context length. The whole
//! module is held once per slot, and again for each rollback slot of
//! speculative decoding.

use crate::estimate::arith;
use crate::estimate::tuning::SPEC_RECURRENT_ROLLBACK_DEPTH;
use crate::estimate::types::EstimatorInputs;
use crate::gguf::GgufSummary;
use vstd::arithmetic::overflow::CheckedU64;
use vstd::prelude::*;

verus! {

/// Both recurrent tensors are f32 whatever the model's quantisation.
pub const F32_BYTES: u64 = 4;

/// Elements one recurrent layer holds per copy.
///
/// An `ssm.*` block keeps `d_conv - 1` past activations of its widened
/// inner state and the state itself; a short-convolution block keeps
/// `l_cache - 1` past activations of the hidden width and nothing else.
pub open spec fn layer_elements(summary: GgufSummary) -> int {
    let d_conv = summary.u64_or_zero("ssm.conv_kernel"@);
    let d_inner = summary.u64_or_zero("ssm.inner_size"@);
    let d_state = summary.u64_or_zero("ssm.state_size"@);
    let n_group = summary.u64_or_zero("ssm.group_count"@);
    let l_cache = summary.u64_or_zero("shortconv.l_cache"@);
    if d_conv > 0 {
        (d_conv - 1) * (d_inner + 2 * n_group * d_state) + d_state * d_inner
    } else if l_cache > 1 {
        summary.u64_or_zero("embedding_length"@) * (l_cache - 1)
    } else {
        0
    }
}

/// How often the module is held: once per slot, and for each slot again per
/// rollback slot where something can roll back.
pub open spec fn copies(inputs: EstimatorInputs<'_>) -> int {
    inputs.slots() * (if inputs.speculation is Off {
        1
    } else {
        SPEC_RECURRENT_ROLLBACK_DEPTH + 1
    })
}

/// Bytes of recurrent state for `layers` layers of a model.
pub open spec fn state(summary: GgufSummary, layers: int, inputs: EstimatorInputs<'_>) -> int {
    layers * layer_elements(summary) * F32_BYTES * copies(inputs)
}

/// Blocks of a model that its main context spans: a draft head's trailing
/// blocks belong to the draft context.
pub open spec fn span(summary: GgufSummary) -> int {
    arith::reduced(summary.blocks(), summary.u32_or("nextn_predict_layers"@, 0))
}

proof fn lemma_elements_nonnegative(summary: GgufSummary)
    ensures
        layer_elements(summary) >= 0,
{
    let d_conv = summary.u64_or_zero("ssm.conv_kernel"@);
    let d_inner = summary.u64_or_zero("ssm.inner_size"@);
    let d_state = summary.u64_or_zero("ssm.state_size"@);
    let n_group = summary.u64_or_zero("ssm.group_count"@);
    let l_cache = summary.u64_or_zero("shortconv.l_cache"@);
    let n_embd = summary.u64_or_zero("embedding_length"@);
    assert(d_conv >= 1 && d_inner >= 0 && d_state >= 0 && n_group >= 0 ==> (d_conv - 1) * (d_inner
        + 2 * n_group * d_state) + d_state * d_inner >= 0) by (nonlinear_arith);
    assert(l_cache > 1 && n_embd >= 0 ==> n_embd * (l_cache - 1) >= 0) by (nonlinear_arith);
}

/// No layers hold no state, and a model's state is never negative.
pub proof fn lemma_state_nonnegative(summary: GgufSummary, layers: int, inputs: EstimatorInputs<'_>)
    requires
        layers >= 0,
    ensures
        state(summary, layers, inputs) >= 0,
        state(summary, 0, inputs) == 0,
{
    lemma_elements_nonnegative(summary);
    let e = layer_elements(summary);
    let c = copies(inputs);
    let n = inputs.slots();
    assert(n * (SPEC_RECURRENT_ROLLBACK_DEPTH + 1) >= 1) by (nonlinear_arith)
        requires
            n >= 1,
    ;
    assert(layers * e * F32_BYTES * c >= 0) by (nonlinear_arith)
        requires
            layers >= 0,
            e >= 0,
            c >= 1,
    ;
    assert(0 * e * F32_BYTES * c == 0) by (nonlinear_arith);
}

/// Elements one recurrent layer holds per copy.
fn per_layer_elements(summary: &GgufSummary) -> (r: CheckedU64)
    ensures
        r@ == layer_elements(*summary),
{
    let d_conv: u64 = summary.meta_u64_or_zero("ssm.conv_kernel");
    if d_conv > 0 {
        let d_inner: u64 = summary.meta_u64_or_zero("ssm.inner_size");
        let d_state: u64 = summary.meta_u64_or_zero("ssm.state_size");
        let n_group: u64 = summary.meta_u64_or_zero("ssm.group_count");
        let widened: CheckedU64 = arith::product3(2, n_group, d_state).add_value(d_inner);
        let rolling: CheckedU64 = widened.mul_value(d_conv - 1);
        assert(widened@ * (d_conv - 1) == (d_conv - 1) * widened@) by (nonlinear_arith);
        return rolling.add_checked(&arith::product(d_state, d_inner));
    }
    let l_cache: u64 = summary.meta_u64_or_zero("shortconv.l_cache");
    if l_cache > 1 {
        return arith::product(summary.meta_u64_or_zero("embedding_length"), l_cache - 1);
    }
    CheckedU64::new(0)
}

/// Bytes of recurrent state for `recurrent_layers` layers of a model,
/// however many they are.
pub(crate) fn state_size(
    summary: &GgufSummary,
    recurrent_layers: u64,
    inputs: &EstimatorInputs<'_>,
) -> (r: CheckedU64)
    ensures
        r@ == state(*summary, recurrent_layers as int, *inputs),
{
    let rollback: u64 = if inputs.speculation.is_mtp() {
        SPEC_RECURRENT_ROLLBACK_DEPTH
    } else {
        0
    };
    let slots: u64 = inputs.slot_count() as u64;
    assert(1 <= slots * (rollback + 1) <= u32::MAX * 4) by (nonlinear_arith)
        requires
            1 <= slots <= u32::MAX,
            0 <= rollback <= 3,
    ;
    let n: u64 = slots * (rollback + 1);
    assert(n == copies(*inputs));
    CheckedU64::new(recurrent_layers).mul_checked(&per_layer_elements(summary)).mul_value(
        F32_BYTES,
    ).mul_value(n)
}

/// Bytes of recurrent state llama.cpp allocates for `recurrent_layers`
/// layers of a model.
pub fn state_bytes(summary: &GgufSummary, recurrent_layers: u64, inputs: &EstimatorInputs<'_>) -> (r:
    u64)
    requires
        state(*summary, recurrent_layers as int, *inputs) <= u64::MAX,
    ensures
        r == state(*summary, recurrent_layers as int, *inputs),
{
    state_size(summary, recurrent_layers, inputs).unwrap()
}

/// Blocks of a model that its main context spans.
pub fn context_layer_span(summary: &GgufSummary) -> (r: u32)
    ensures
        r == span(*summary),
        r <= summary.blocks(),
{
    let blocks: u32 = summary.block_total();
    let nextn: u32 = match summary.meta_u32("nextn_predict_layers") {
        Some(n) => n,
        None => 0,
    };
    blocks.saturating_sub(nextn)
}

/// The state grows in proportion to the slots, shared cache or not, and
/// speculative decoding holds it once more per rollback slot.
pub proof fn lemma_state_replication(
    summary: GgufSummary,
    layers: int,
    one: EstimatorInputs<'_>,
    many: EstimatorInputs<'_>,
)
    requires
        one.slots() == 1,
        one.speculation is Off,
    ensures
        state(summary, layers, many) == state(summary, layers, one) * many.slots() * (
        if many.speculation is Off {
            1
        } else {
            SPEC_RECURRENT_ROLLBACK_DEPTH + 1
        }),
{
    let base = layers * layer_elements(summary) * F32_BYTES;
    let n = many.slots();
    let k = if many.speculation is Off {
        1int
    } else {
        SPEC_RECURRENT_ROLLBACK_DEPTH + 1
    };
    assert(base * (n * k) == base * 1 * n * k) by (nonlinear_arith);
    assert(copies(one) == 1);
}

} // verus!
