//! Estimates by architecture family, and the choice among them.

use crate::estimate::compute_buffer;
use crate::estimate::compute_buffer::GraphSize;
use crate::estimate::device_bytes::DeviceBytes;
use crate::estimate::hybrid;
use crate::estimate::layers;
use crate::estimate::llama_kv;
use crate::estimate::moe;
use crate::estimate::tuning::Tuning;
use crate::estimate::types::{Estimate, EstimatorInputs, NonLayer};
use crate::gguf::GgufSummary;
use crate::text;
use vstd::arithmetic::overflow::CheckedU64;
use vstd::prelude::*;

verus! {

/// Architectures with plain attention blocks.
///
/// Among them are derivatives that differ in how attention is declared, not
/// in how tensors are laid out: per-layer head counts (`deci`, `gemma4`,
/// `lfm2`), sliding windows (`gemma2`, `gemma3`, `gemma3n`, `gemma4`), and
/// no KV head count at all (`talkie`).
pub const LLAMA_FAMILY: [&'static str; 14] = [
    "llama",
    "qwen2",
    "qwen3",
    "mistral",
    "gemma",
    "gemma2",
    "gemma3",
    "phi3",
    "glm4",
    "deci",
    "gemma4",
    "gemma3n",
    "talkie",
    "lfm2",
];

/// Whether an architecture is one of [`LLAMA_FAMILY`].
pub fn is_llama_family(arch: &str) -> (r: bool)
    ensures
        r == text::listed(LLAMA_FAMILY@, arch@),
{
    text::is_listed(&LLAMA_FAMILY, arch)
}

/// Whether every tensor byte of a model can be counted.
pub open spec fn weights_fit(summary: GgufSummary) -> bool {
    layers::sum_where(summary.tensors.pairs(), layers::every()) <= u64::MAX
}

/// Whether every tensor byte of a model can be counted.
pub fn is_weighable(summary: &GgufSummary) -> (r: bool)
    ensures
        r == weights_fit(*summary),
{
    let ghost tensors = summary.tensors.pairs();
    let mut total: CheckedU64 = CheckedU64::new(0);
    let n: usize = summary.tensors.len();
    for i in 0..n
        invariant
            n == tensors.len(),
            tensors == summary.tensors.pairs(),
            total@ == layers::sum_where(tensors.take(i as int), layers::every()),
    {
        proof {
            assert(tensors.take(i + 1).drop_last() =~= tensors.take(i as int));
        }
        total = total.add_value(summary.tensors.value_at(i).byte_size);
    }
    assert(tensors.take(n as int) =~= tensors);
    !total.is_overflowed()
}

/// Whether the weights of `e` are the model's, by block and outside them.
pub open spec fn weighs(e: Estimate, summary: GgufSummary) -> bool {
    &&& e.weights_bytes == layers::sum_where(
        summary.tensors.pairs(),
        layers::loaded(summary.blocks()),
    )
    &&& e.per_layer_bytes matches Some(sizes) && layers::sizes_blocks(
        sizes@,
        summary.tensors.pairs(),
        summary.blocks(),
    )
    &&& layers::accounts_outside(e.non_layer, summary.tensors.pairs())
}

/// Whether `e` leaves everything at nothing that is not a matter of the
/// architecture family.
pub open spec fn unadorned(e: Estimate) -> bool {
    &&& e.output_buffer_bytes == 0
    &&& e.mtp_head_expert_layers == 0
    &&& e.tensor_split_replicated_bytes == 0
    &&& e.mtp_bytes == 0
    &&& e.mtp_weight_bytes == 0
    &&& e.mmproj_graph_bytes == 0
    &&& e.host_overhead_bytes == 0
    &&& e.host_cache_bytes == 0
    &&& e.host_slot_bytes == 0
    &&& e.host_checkpoint_bytes == 0
    &&& e.attention_layers is None
    &&& e.override_tensor_bytes.counts().len() == 0
}

/// What every family's estimate has in common.
pub open spec fn common(
    e: Estimate,
    summary: GgufSummary,
    inputs: EstimatorInputs<'_>,
    graph: GraphSize,
    tuning: Tuning,
) -> bool {
    &&& weighs(e, summary)
    &&& unadorned(e)
    &&& e.compute_buffer_mb == compute_buffer::head_buffer_mib(summary, inputs, graph, tuning)
    &&& e.context == inputs.context
    &&& e.architecture@ == summary.architecture@
}

/// The estimate every family starts from: weights and compute buffer, with
/// the context bytes per token that the family found.
pub fn assemble(
    summary: &GgufSummary,
    inputs: &EstimatorInputs<'_>,
    graph: GraphSize,
    tuning: &Tuning,
    kv_per_token: u64,
) -> (e: Estimate)
    requires
        weights_fit(*summary),
        compute_buffer::score_fits(*summary, *inputs, *tuning),
    ensures
        common(e, *summary, *inputs, graph, *tuning),
        e.kv_per_token == kv_per_token,
        e.expert_layers@.len() == 0,
        e.expert_tensors is None,
{
    let n_layers: u32 = summary.block_total();
    let per_layer: Vec<u64> = layers::collect_per_layer(summary, n_layers);
    let non_layer: NonLayer = layers::collect_non_layer(summary);
    proof {
        let tensors = summary.tensors.pairs();
        let n = n_layers as int;
        layers::lemma_sizes_total(per_layer@, tensors, n);
        layers::lemma_weights_partition(tensors, n);
        layers::lemma_sum_narrower(tensors, layers::loaded(n), layers::every());
        layers::lemma_sum_narrower(tensors, layers::outside(0), layers::every());
        layers::lemma_sum_narrower(tensors, layers::outside(1), layers::every());
        layers::lemma_sum_narrower(tensors, layers::outside(2), layers::every());
        layers::lemma_total_prefix(per_layer@, 0);
    }
    let weights_bytes: u64 = layers::sum(&per_layer) + non_layer.output_head_bytes
        + non_layer.token_embd_bytes + non_layer.other_bytes;
    Estimate {
        weights_bytes,
        kv_per_token,
        compute_buffer_mb: compute_buffer::per_device_for(summary, inputs, graph, tuning),
        output_buffer_bytes: 0,
        mtp_head_expert_layers: 0,
        tensor_split_replicated_bytes: 0,
        mtp_bytes: 0,
        mtp_weight_bytes: 0,
        mmproj_graph_bytes: 0,
        host_overhead_bytes: 0,
        host_cache_bytes: 0,
        host_slot_bytes: 0,
        host_checkpoint_bytes: 0,
        per_layer_bytes: Some(per_layer),
        attention_layers: None,
        non_layer,
        override_tensor_bytes: DeviceBytes::new(),
        expert_layers: Vec::new(),
        expert_tensors: None,
        context: inputs.context,
        architecture: summary.architecture.clone(),
    }
}

/// The estimate of a llama-family model.
pub fn llama_estimate(
    summary: &GgufSummary,
    inputs: &EstimatorInputs<'_>,
    graph: GraphSize,
    tuning: &Tuning,
) -> (e: Estimate)
    requires
        weights_fit(*summary),
        compute_buffer::score_fits(*summary, *inputs, *tuning),
        llama_kv::countable(*summary, summary.blocks(), *inputs),
    ensures
        common(e, *summary, *inputs, graph, *tuning),
        e.kv_per_token == llama_kv::per_token(*summary, summary.blocks(), *inputs),
        e.expert_layers@.len() == 0,
        e.expert_tensors is None,
{
    let kv: u64 = llama_kv::compute_kv_per_token(summary, summary.block_total(), inputs);
    assemble(summary, inputs, graph, tuning, kv)
}

/// The estimate of a model that mixes attention with recurrent layers.
pub fn hybrid_estimate(
    summary: &GgufSummary,
    inputs: &EstimatorInputs<'_>,
    graph: GraphSize,
    tuning: &Tuning,
) -> (e: Estimate)
    requires
        weights_fit(*summary),
        compute_buffer::score_fits(*summary, *inputs, *tuning),
        hybrid::per_token_fits(*summary, summary.blocks(), *inputs),
    ensures
        common(e, *summary, *inputs, graph, *tuning),
        e.kv_per_token == hybrid::per_token(*summary, summary.blocks(), *inputs),
        e.expert_layers@.len() == 0,
        e.expert_tensors is None,
{
    let kv: u64 = hybrid::kv_for_hybrid(summary, summary.block_total(), inputs);
    assemble(summary, inputs, graph, tuning, kv)
}

/// The estimate of a mixture of experts. The experts are listed beside the
/// blocks' full weights; whoever moves one takes it out of its block.
pub fn moe_estimate(
    summary: &GgufSummary,
    inputs: &EstimatorInputs<'_>,
    graph: GraphSize,
    tuning: &Tuning,
) -> (e: Estimate)
    requires
        weights_fit(*summary),
        compute_buffer::score_fits(*summary, *inputs, *tuning),
        moe::per_token_fits(*summary, summary.blocks(), *inputs),
    ensures
        common(e, *summary, *inputs, graph, *tuning),
        e.kv_per_token == moe::per_token(*summary, summary.blocks(), *inputs),
        e.expert_layers@ == moe::expert_blocks(summary.tensors.pairs(), summary.blocks()),
        e.expert_tensors matches Some(list) && list@ == moe::experts(
            summary.tensors.pairs(),
            summary.blocks(),
        ),
{
    let n_layers: u32 = summary.block_total();
    let kv: u64 = moe::kv_per_token(summary, n_layers, inputs);
    let mut e = assemble(summary, inputs, graph, tuning, kv);
    e.expert_layers = moe::collect_expert_layers(summary, n_layers);
    e.expert_tensors = Some(moe::collect_experts(summary, n_layers));
    e
}

} // verus!
