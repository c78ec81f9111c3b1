//! What an estimate is made of: the laws of its weights and of its terms.

use crate::estimate::compute_buffer;
use crate::estimate::compute_buffer::GraphSize;
use crate::estimate::family;
use crate::estimate::family::LLAMA_FAMILY;
use crate::estimate::host_buffer;
use crate::estimate::hybrid;
use crate::estimate::hybrid::HYBRID_FAMILY;
use crate::estimate::layers;
use crate::estimate::llama_kv;
use crate::estimate::moe;
use crate::estimate::moe::MOE_FAMILY;
use crate::estimate::mtp;
use crate::estimate::pipeline;
use crate::estimate::pipeline::EstimatorError;
use crate::estimate::tuning::Tuning;
use crate::estimate::types::{Estimate, EstimatorInputs, ExpertKind, ExpertTensor};
use crate::gguf::{GgufSummary, GgufTensor};
use crate::text;
use vstd::prelude::*;
use vstd::string::*;

verus! {

proof fn lemma_sum_grows(
    tensors: Seq<(Seq<char>, GgufTensor)>,
    entry: (Seq<char>, GgufTensor),
    f: spec_fn((Seq<char>, GgufTensor)) -> bool,
)
    ensures
        layers::sum_where(tensors.push(entry), f) == layers::sum_where(tensors, f) + (if f(entry) {
            entry.1.byte_size as int
        } else {
            0
        }),
{
    assert(tensors.push(entry).drop_last() =~= tensors);
}

/// What one more tensor adds to an estimate: its bytes, to the weights and
/// to where it belongs. A tensor of a block adds them to that block, where
/// the model has it, and else nowhere; `output.weight` to the output head;
/// the embedding tables to the embeddings; any other tensor to the rest.
pub proof fn lemma_tensor_adds_its_bytes(
    before: Estimate,
    after: Estimate,
    smaller: GgufSummary,
    larger: GgufSummary,
    name: Seq<char>,
    tensor: GgufTensor,
)
    requires
        family::weighs(before, smaller),
        family::weighs(after, larger),
        larger.block_count == smaller.block_count,
        larger.tensors.pairs() == smaller.tensors.pairs().push((name, tensor)),
    ensures
        before.per_layer_bytes is Some && after.per_layer_bytes is Some,
        before.per_layer_bytes->0@.len() == smaller.blocks(),
        after.per_layer_bytes->0@.len() == smaller.blocks(),
        layers::block_index(name) matches Some(i) ==> (i < smaller.blocks() ==> {
            &&& after.weights_bytes == before.weights_bytes + tensor.byte_size
            &&& after.per_layer_bytes->0@[i as int] == before.per_layer_bytes->0@[i as int]
                + tensor.byte_size
            &&& forall|k: int|
                0 <= k < smaller.blocks() && k != i ==> #[trigger] after.per_layer_bytes->0@[k]
                    == before.per_layer_bytes->0@[k]
        }),
        layers::block_index(name) matches Some(i) ==> (i >= smaller.blocks() ==> {
            &&& after.weights_bytes == before.weights_bytes
            &&& after.per_layer_bytes->0@ == before.per_layer_bytes->0@
        }),
        layers::block_index(name) is Some ==> after.non_layer.output_head_bytes
            == before.non_layer.output_head_bytes && after.non_layer.token_embd_bytes
            == before.non_layer.token_embd_bytes && after.non_layer.other_bytes
            == before.non_layer.other_bytes,
        layers::block_index(name) is None ==> {
            &&& after.weights_bytes == before.weights_bytes + tensor.byte_size
            &&& after.per_layer_bytes->0@ == before.per_layer_bytes->0@
            &&& after.non_layer.output_head_bytes == before.non_layer.output_head_bytes + (if name
                == "output.weight"@ {
                tensor.byte_size as int
            } else {
                0
            })
            &&& after.non_layer.token_embd_bytes == before.non_layer.token_embd_bytes + (if name
                == "token_embd.weight"@ || name == "per_layer_token_embd.weight"@ {
                tensor.byte_size as int
            } else {
                0
            })
            &&& after.non_layer.other_bytes == before.non_layer.other_bytes + (if name
                != "output.weight"@ && name != "token_embd.weight"@ && name
                != "per_layer_token_embd.weight"@ {
                tensor.byte_size as int
            } else {
                0
            })
        },
{
    let few = smaller.tensors.pairs();
    let entry = (name, tensor);
    let n = smaller.blocks();
    reveal_strlit("output.weight");
    reveal_strlit("token_embd.weight");
    reveal_strlit("per_layer_token_embd.weight");
    assert("output.weight"@.len() != "token_embd.weight"@.len() && "output.weight"@.len()
        != "per_layer_token_embd.weight"@.len());
    lemma_sum_grows(few, entry, layers::loaded(n));
    lemma_sum_grows(few, entry, layers::outside(0));
    lemma_sum_grows(few, entry, layers::outside(1));
    lemma_sum_grows(few, entry, layers::outside(2));
    let a = before.per_layer_bytes->0@;
    let b = after.per_layer_bytes->0@;
    assert forall|k: int| 0 <= k < n implies #[trigger] b[k] == a[k] + (if layers::block_index(name)
        == Some(k as u32) {
        tensor.byte_size as int
    } else {
        0
    }) by {
        lemma_sum_grows(few, entry, layers::in_block(k));
        assert(a[k] == layers::sum_where(few, layers::in_block(k)));
        assert(b[k] == layers::sum_where(larger.tensors.pairs(), layers::in_block(k)));
    }
    if !(layers::block_index(name) matches Some(i) && i < n) {
        assert(a =~= b);
    }
}

/// A model without tensors weighs nothing; and the embedding table stands
/// for the output head exactly where a model has no head of its own.
pub proof fn lemma_no_tensors_weigh_nothing(e: Estimate, summary: GgufSummary)
    requires
        family::weighs(e, summary),
    ensures
        summary.tensors.pairs().len() == 0 ==> {
            &&& e.weights_bytes == 0
            &&& e.non_layer.output_head_bytes == 0
            &&& e.non_layer.token_embd_bytes == 0
            &&& e.non_layer.other_bytes == 0
            &&& forall|k: int|
                0 <= k < summary.blocks() ==> #[trigger] e.per_layer_bytes->0@[k] == 0
        },
        e.non_layer.output_head_bytes > 0 ==> e.non_layer.tied_head_bytes == 0,
        e.non_layer.output_head_bytes == 0 ==> e.non_layer.tied_head_bytes == layers::sum_where(
            summary.tensors.pairs(),
            |t: (Seq<char>, GgufTensor)|
                layers::block_index(t.0) is None && t.0 == "token_embd.weight"@,
        ),
{
    let f = |t: (Seq<char>, GgufTensor)|
        layers::block_index(t.0) is None && t.0 == "token_embd.weight"@;
    assert(f =~= layers::embedding_table());
}

/// The experts of a mixture are the tensors that a block names
/// `ffn_gate_exps`, `ffn_up_exps` or `ffn_down_exps`; those that it shares
/// are none.
pub proof fn lemma_expert_names(block: u32, rest: Seq<char>)
    requires
        !text::occurs(rest, "shexp"@),
    ensures
        ({
            let name = "blk."@ + text::digits(block as nat) + "."@ + rest;
            &&& layers::block_index(name) == Some(block)
            &&& "ffn_gate_exps"@.is_prefix_of(rest) ==> layers::expert_of(name) == Some(
                ExpertKind::Gate,
            )
            &&& "ffn_up_exps"@.is_prefix_of(rest) ==> layers::expert_of(name) == Some(
                ExpertKind::Up,
            )
            &&& "ffn_down_exps"@.is_prefix_of(rest) ==> layers::expert_of(name) == Some(
                ExpertKind::Down,
            )
            &&& !"ffn_gate_exps"@.is_prefix_of(rest) && !"ffn_up_exps"@.is_prefix_of(rest)
                && !"ffn_down_exps"@.is_prefix_of(rest) ==> layers::expert_of(name) is None
        }),
{
    layers::lemma_block_tensor(block, rest);
    reveal_strlit("ffn_gate_exps");
    reveal_strlit("ffn_up_exps");
    reveal_strlit("ffn_down_exps");
    if "ffn_up_exps"@.is_prefix_of(rest) {
        assert(rest[4] == "ffn_up_exps"@[4]);
        if "ffn_gate_exps"@.is_prefix_of(rest) {
            assert(rest[4] == "ffn_gate_exps"@[4]);
        }
    }
    if "ffn_down_exps"@.is_prefix_of(rest) {
        assert(rest[4] == "ffn_down_exps"@[4]);
        if "ffn_gate_exps"@.is_prefix_of(rest) {
            assert(rest[4] == "ffn_gate_exps"@[4]);
        }
        if "ffn_up_exps"@.is_prefix_of(rest) {
            assert(rest[4] == "ffn_up_exps"@[4]);
        }
    }
}

/// Which family prices a model's context: the first of llama, moe and
/// hybrid that lists its architecture. The rest of the estimate is the same
/// in every family.
pub proof fn lemma_family_prices_context(
    e: Estimate,
    summary: GgufSummary,
    inputs: EstimatorInputs<'_>,
    graph: GraphSize,
    tuning: Tuning,
)
    requires
        pipeline::family_estimate(e, summary, inputs, graph, tuning),
    ensures
        text::listed(LLAMA_FAMILY@, summary.architecture@) ==> e.kv_per_token
            == llama_kv::per_token(summary, summary.blocks(), inputs),
        !text::listed(LLAMA_FAMILY@, summary.architecture@) && text::listed(
            MOE_FAMILY@,
            summary.architecture@,
        ) ==> e.kv_per_token == moe::per_token(summary, summary.blocks(), inputs)
            && e.expert_tensors is Some,
        !text::listed(LLAMA_FAMILY@, summary.architecture@) && !text::listed(
            MOE_FAMILY@,
            summary.architecture@,
        ) && text::listed(HYBRID_FAMILY@, summary.architecture@) ==> e.kv_per_token
            == hybrid::per_token(summary, summary.blocks(), inputs),
        e.compute_buffer_mb == compute_buffer::head_buffer_mib(summary, inputs, graph, tuning),
        family::weighs(e, summary),
        e.context == inputs.context,
        e.architecture@ == summary.architecture@,
        e.attention_layers is None,
{
}

/// The terms of a whole estimate: the price of the context, the head GPU's
/// buffer and surplus, the draft context, and what the host holds and
/// reserves, each as it is priced on its own, and none in another's place.
pub proof fn lemma_estimate_holds_every_term(
    e: Estimate,
    rule_fault: Option<Seq<char>>,
    summary: GgufSummary,
    draft: Option<GgufSummary>,
    mmproj: Option<GgufSummary>,
    replicated: u64,
    inputs: EstimatorInputs<'_>,
    graph: GraphSize,
    tuning: Tuning,
)
    requires
        pipeline::estimated(
            e,
            rule_fault,
            summary,
            draft,
            mmproj,
            replicated,
            inputs,
            graph,
            tuning,
            None,
        ),
    ensures
        text::listed(LLAMA_FAMILY@, summary.architecture@) ==> e.kv_per_token
            == llama_kv::per_token(summary, summary.blocks(), inputs),
        e.compute_buffer_mb == compute_buffer::head_buffer_mib(summary, inputs, graph, tuning),
        e.output_buffer_bytes == graph.head_extra_mib * 1048576,
        e.mtp_bytes == mtp::overhead(summary, draft, inputs, tuning),
        e.mtp_weight_bytes == mtp::weight_share(draft, inputs),
        e.host_overhead_bytes == host_buffer::overhead(summary, inputs, tuning),
        e.host_cache_bytes == host_buffer::prompt_cache(inputs),
        e.host_slot_bytes == host_buffer::slot_reserve(summary.architecture@, inputs, tuning),
        e.host_checkpoint_bytes == host_buffer::checkpoint_reserve(summary, inputs, tuning),
        e.tensor_split_replicated_bytes == replicated,
        e.context == inputs.context,
        e.architecture@ == summary.architecture@,
        mmproj is Some ==> e.mmproj_graph_bytes == tuning.mmproj_graph_bytes,
        mmproj is None ==> e.mmproj_graph_bytes == 0,
        mmproj is None && inputs.override_tensor@.len() == 0 && !(inputs.fork is Ik)
            ==> family::weighs(e, summary) && e.override_tensor_bytes.counts().len() == 0,
{
}

/// On ik_llama the blocks of a draft head leave the weights: the total by
/// their bytes, and each of them. On another runtime they stay.
pub proof fn lemma_unloaded_head_leaves_weights(
    after: Estimate,
    before: Estimate,
    summary: GgufSummary,
    inputs: EstimatorInputs<'_>,
    sizes: Seq<u64>,
    left: Seq<u64>,
)
    requires
        pipeline::trimmed(after, before, summary, inputs),
        before.per_layer_bytes is Some,
        before.per_layer_bytes->0@ == sizes,
        after.per_layer_bytes is Some,
        after.per_layer_bytes->0@ == left,
        summary.u32_at("nextn_predict_layers"@) == Some(1u32),
        summary.block_count is Some,
        summary.block_count->0 > 0,
        sizes.len() == summary.block_count->0,
    ensures
        inputs.fork is Ik ==> {
            &&& left.len() == sizes.len()
            &&& left[sizes.len() - 1] == 0
            &&& forall|i: int| 0 <= i < sizes.len() - 1 ==> #[trigger] left[i] == sizes[i]
            &&& before.weights_bytes >= sizes.last() ==> after.weights_bytes
                == before.weights_bytes - sizes.last()
        },
        !(inputs.fork is Ik) ==> left == sizes && after.weights_bytes == before.weights_bytes,
{
    let span = sizes.len() - 1;
    let tail = sizes.skip(span);
    assert(tail.len() == 1 && tail.drop_last().len() == 0);
    assert(layers::total(tail.drop_last()) == 0);
    assert(layers::total(tail) == sizes.last());
}

/// Of a list of layers, or of experts, exactly those below the span stay,
/// in their order.
pub proof fn lemma_only_layers_below_stay(
    list: Seq<u32>,
    layer: u32,
    experts: Seq<ExpertTensor>,
    expert: ExpertTensor,
    span: int,
)
    ensures
        pipeline::layers_below(Seq::<u32>::empty(), span).len() == 0,
        pipeline::experts_below(Seq::<ExpertTensor>::empty(), span).len() == 0,
        layer < span ==> pipeline::layers_below(list.push(layer), span) == pipeline::layers_below(
            list,
            span,
        ).push(layer),
        layer >= span ==> pipeline::layers_below(list.push(layer), span) == pipeline::layers_below(
            list,
            span,
        ),
        expert.layer < span ==> pipeline::experts_below(experts.push(expert), span)
            == pipeline::experts_below(experts, span).push(expert),
        expert.layer >= span ==> pipeline::experts_below(experts.push(expert), span)
            == pipeline::experts_below(experts, span),
{
    assert(list.push(layer).drop_last() =~= list);
    assert(experts.push(expert).drop_last() =~= experts);
}

/// A model is estimated by the first family that covers it: as a llama where
/// that family lists it, even where the mamba family's estimate is given; as
/// a mixture next; then as that estimate says, unchanged; and only then as a
/// hybrid.
pub proof fn lemma_first_family_estimates(
    e: Estimate,
    summary: GgufSummary,
    inputs: EstimatorInputs<'_>,
    graph: GraphSize,
    tuning: Tuning,
    mamba: Option<Estimate>,
)
    requires
        pipeline::base_estimate(e, summary, inputs, graph, tuning, mamba),
    ensures
        ({
            let llama = text::listed(LLAMA_FAMILY@, summary.architecture@);
            let mixture = text::listed(MOE_FAMILY@, summary.architecture@);
            &&& llama ==> e.kv_per_token == llama_kv::per_token(summary, summary.blocks(), inputs)
            &&& !llama && mixture ==> e.kv_per_token == moe::per_token(
                summary,
                summary.blocks(),
                inputs,
            )
            &&& !llama && !mixture && mamba is Some ==> e == mamba->0
            &&& !llama && !mixture && mamba is None ==> e.kv_per_token == hybrid::per_token(
                summary,
                summary.blocks(),
                inputs,
            )
            &&& !llama && mixture ==> e.expert_layers@ == moe::expert_blocks(
                summary.tensors.pairs(),
                summary.blocks(),
            ) && e.expert_tensors is Some && e.expert_tensors->0@ == moe::experts(
                summary.tensors.pairs(),
                summary.blocks(),
            )
            &&& llama || (!mixture && mamba is None) ==> e.expert_layers@.len() == 0
                && e.expert_tensors is None
        }),
{
}

/// A refusal names the architecture it refuses, and a file that could not be
/// read is named with the reason.
pub proof fn lemma_refusal_told(e: EstimatorError, arch: Seq<char>, mamba: Seq<&str>)
    ensures
        pipeline::refuses(e, arch) <==> (e matches EstimatorError::UnknownArchitecture {
            architecture,
        } && architecture@ == arch),
        pipeline::refuses(e, arch) ==> ("architecture "@ + arch
            + " is not recognised, so its memory cannot be estimated. Give the service an explicit reservation (`mode` plus `reserve_gb`, or `min_reserve_gb`/`max_reserve_gb`) and it is placed from that instead. Recognised families:"@).is_prefix_of(
        e.text_view(mamba)),
        e matches EstimatorError::GgufRead { path, cause } ==> e.text_view(mamba)
            == "read gguf at "@ + path@ + ": "@ + cause@,
{
}

} // verus!
