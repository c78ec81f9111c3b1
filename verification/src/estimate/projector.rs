//! What a projector changes of an estimate, and that nothing else is left
//! open: what an estimate is made from decides it.

use crate::estimate::arith;
use crate::estimate::compute_buffer;
use crate::estimate::compute_buffer::GraphSize;
use crate::estimate::device_bytes::DeviceBytes;
use crate::estimate::host_buffer;
use crate::estimate::hybrid;
use crate::estimate::layers;
use crate::estimate::llama_kv;
use crate::estimate::moe;
use crate::estimate::mtp;
use crate::estimate::override_tensor;
use crate::estimate::override_tensor::OverrideRule;
use crate::estimate::pipeline;
use crate::estimate::recurrent;
use crate::estimate::tuning::Tuning;
use crate::estimate::types::{DeviceSlot, Estimate, EstimatorInputs};
use crate::gguf::{GgufSummary, GgufTensor};
use vstd::prelude::*;

verus! {

/// Whether two optional lists are both absent or hold the same.
pub open spec fn same_list<T>(a: Option<Vec<T>>, b: Option<Vec<T>>) -> bool {
    match (a, b) {
        (Some(x), Some(y)) => x@ == y@,
        (None, None) => true,
        _ => false,
    }
}

/// Whether two counts charge every device alike.
pub open spec fn same_charges(a: DeviceBytes, b: DeviceBytes) -> bool {
    &&& forall|slot: DeviceSlot|
        #![trigger a.bytes_on(slot)]
        #![trigger b.bytes_on(slot)]
        a.bytes_on(slot) == b.bytes_on(slot)
    &&& forall|slot: DeviceSlot|
        #![trigger a.holds(slot)]
        #![trigger b.holds(slot)]
        a.holds(slot) == b.holds(slot)
    &&& a.sum() == b.sum()
}

/// Whether two estimates agree in everything that a projector leaves alone:
/// in all but the weights, the tensors that are lumped together, and the
/// projector's graph.
pub open spec fn alike_beside_projector(a: Estimate, b: Estimate) -> bool {
    &&& a.kv_per_token == b.kv_per_token
    &&& a.compute_buffer_mb == b.compute_buffer_mb
    &&& a.output_buffer_bytes == b.output_buffer_bytes
    &&& a.mtp_head_expert_layers == b.mtp_head_expert_layers
    &&& a.tensor_split_replicated_bytes == b.tensor_split_replicated_bytes
    &&& a.mtp_bytes == b.mtp_bytes
    &&& a.mtp_weight_bytes == b.mtp_weight_bytes
    &&& a.host_overhead_bytes == b.host_overhead_bytes
    &&& a.host_cache_bytes == b.host_cache_bytes
    &&& a.host_slot_bytes == b.host_slot_bytes
    &&& a.host_checkpoint_bytes == b.host_checkpoint_bytes
    &&& same_list(a.per_layer_bytes, b.per_layer_bytes)
    &&& same_list(a.attention_layers, b.attention_layers)
    &&& a.non_layer.output_head_bytes == b.non_layer.output_head_bytes
    &&& a.non_layer.token_embd_bytes == b.non_layer.token_embd_bytes
    &&& a.non_layer.tied_head_bytes == b.non_layer.tied_head_bytes
    &&& same_charges(a.override_tensor_bytes, b.override_tensor_bytes)
    &&& a.expert_layers@ == b.expert_layers@
    &&& same_list(a.expert_tensors, b.expert_tensors)
    &&& a.context == b.context
    &&& a.architecture@ == b.architecture@
}

/// Whether two estimates say the same.
pub open spec fn alike(a: Estimate, b: Estimate) -> bool {
    &&& alike_beside_projector(a, b)
    &&& a.weights_bytes == b.weights_bytes
    &&& a.non_layer.other_bytes == b.non_layer.other_bytes
    &&& a.mmproj_graph_bytes == b.mmproj_graph_bytes
}

/// Whether two services differ in nothing but the projector they name.
pub open spec fn same_but_projector(a: EstimatorInputs<'_>, b: EstimatorInputs<'_>) -> bool {
    b == (EstimatorInputs { mmproj: b.mmproj, ..a })
}

proof fn lemma_cache_ignores_projector(
    summary: GgufSummary,
    a: EstimatorInputs<'_>,
    b: EstimatorInputs<'_>,
    n: int,
    k: int,
)
    requires
        same_but_projector(a, b),
    ensures
        llama_kv::cache_of_layers(summary, a, n, k) == llama_kv::cache_of_layers(summary, b, n, k),
    decreases k,
{
    if k > 0 {
        lemma_cache_ignores_projector(summary, a, b, n, k - 1);
    }
}

/// Whether an estimate can be counted does not depend on the projector.
pub proof fn lemma_projector_never_overflows(
    summary: GgufSummary,
    draft: Option<GgufSummary>,
    plain: EstimatorInputs<'_>,
    seeing: EstimatorInputs<'_>,
    tuning: Tuning,
    mamba: Option<Estimate>,
)
    requires
        same_but_projector(plain, seeing),
    ensures
        pipeline::estimate_fits(summary, draft, seeing, tuning, mamba) == pipeline::estimate_fits(
            summary,
            draft,
            plain,
            tuning,
            mamba,
        ),
{
    let n = summary.blocks();
    lemma_cache_ignores_projector(
        summary,
        plain,
        seeing,
        n,
        llama_kv::own_cache_layers(summary, n),
    );
    assert(llama_kv::countable(summary, n, plain) == llama_kv::countable(summary, n, seeing));
    assert(hybrid::per_token_fits(summary, n, plain) == hybrid::per_token_fits(
        summary,
        n,
        seeing,
    ));
    assert(host_buffer::overhead_fits(summary, plain, tuning) == host_buffer::overhead_fits(
        summary,
        seeing,
        tuning,
    ));
}

proof fn lemma_family_determined(
    a: Estimate,
    b: Estimate,
    summary: GgufSummary,
    i: EstimatorInputs<'_>,
    j: EstimatorInputs<'_>,
    graph: GraphSize,
    tuning: Tuning,
)
    requires
        same_but_projector(i, j),
        pipeline::family_estimate(a, summary, i, graph, tuning),
        pipeline::family_estimate(b, summary, j, graph, tuning),
    ensures
        alike(a, b),
{
    let n = summary.blocks();
    lemma_cache_ignores_projector(summary, i, j, n, llama_kv::own_cache_layers(summary, n));
    assert(llama_kv::per_token(summary, n, i) == llama_kv::per_token(summary, n, j));
    assert(hybrid::per_token(summary, n, i) == hybrid::per_token(summary, n, j));
    assert(moe::per_token(summary, n, i) == moe::per_token(summary, n, j));
    assert(compute_buffer::head_buffer_mib(summary, i, graph, tuning)
        == compute_buffer::head_buffer_mib(summary, j, graph, tuning));
    let x = a.per_layer_bytes->0@;
    let y = b.per_layer_bytes->0@;
    assert(x =~= y) by {
        assert forall|k: int| 0 <= k < n implies x[k] == y[k] by {
            assert(x[k] == layers::sum_where(summary.tensors.pairs(), layers::in_block(k)));
        }
    }
    assert(a.expert_layers@ =~= b.expert_layers@);
}

proof fn lemma_adorned_determined(
    a: Estimate,
    b: Estimate,
    a0: Estimate,
    b0: Estimate,
    summary: GgufSummary,
    draft: Option<GgufSummary>,
    i: EstimatorInputs<'_>,
    j: EstimatorInputs<'_>,
    graph: GraphSize,
    tuning: Tuning,
)
    requires
        same_but_projector(i, j),
        alike(a0, b0),
        pipeline::adorned(a, a0, summary, draft, i, graph, tuning),
        pipeline::adorned(b, b0, summary, draft, j, graph, tuning),
    ensures
        alike(a, b),
{
    assert(mtp::overhead(summary, draft, i, tuning) == mtp::overhead(summary, draft, j, tuning));
    assert(host_buffer::overhead(summary, i, tuning) == host_buffer::overhead(summary, j, tuning));
}

proof fn lemma_trimmed_determined(
    a: Estimate,
    b: Estimate,
    a0: Estimate,
    b0: Estimate,
    summary: GgufSummary,
    i: EstimatorInputs<'_>,
    j: EstimatorInputs<'_>,
)
    requires
        same_but_projector(i, j),
        alike(a0, b0),
        pipeline::trimmed(a, a0, summary, i),
        pipeline::trimmed(b, b0, summary, j),
    ensures
        alike(a, b),
{
    let span = recurrent::span(summary);
    if i.fork is Ik && pipeline::has_head_blocks(a0, span) {
        let x = a.per_layer_bytes->0@;
        let y = b.per_layer_bytes->0@;
        assert(x =~= y) by {
            assert forall|k: int| 0 <= k < x.len() implies x[k] == y[k] by {
                if k < span {
                    assert(x[k] == a0.per_layer_bytes->0@[k]);
                    assert(y[k] == b0.per_layer_bytes->0@[k]);
                }
            }
        }
    }
}

proof fn lemma_rules_determined(
    rules: Seq<OverrideRule>,
    others: Seq<OverrideRule>,
    written: Seq<String>,
    i: int,
    name: Seq<char>,
)
    requires
        0 <= i,
        override_tensor::rules_agree(rules, written),
        override_tensor::rules_agree(others, written),
    ensures
        override_tensor::first_match(rules, i, name) == override_tensor::first_match(
            others,
            i,
            name,
        ),
    decreases rules.len() - i,
{
    if i < rules.len() {
        assert(override_tensor::rule_agrees(rules[i], written[i]@));
        assert(override_tensor::rule_agrees(others[i], written[i]@));
        lemma_rules_determined(rules, others, written, i + 1, name);
    }
}

proof fn lemma_applied_determined(
    a: Estimate,
    b: Estimate,
    a0: Estimate,
    b0: Estimate,
    tensors: Seq<(Seq<char>, GgufTensor)>,
    f: spec_fn(Seq<char>) -> Option<DeviceSlot>,
)
    requires
        alike(a0, b0),
        override_tensor::applied(a, a0, tensors, f),
        override_tensor::applied(b, b0, tensors, f),
    ensures
        alike(a, b),
{
    assert(same_charges(a.override_tensor_bytes, b.override_tensor_bytes)) by {
        let x = a.override_tensor_bytes;
        let y = b.override_tensor_bytes;
        assert forall|slot: DeviceSlot|
            #![trigger x.bytes_on(slot)]
            #![trigger y.bytes_on(slot)]
            x.bytes_on(slot) == y.bytes_on(slot) by {
            assert(x.bytes_on(slot) == layers::sum_where(
                tensors,
                override_tensor::pinned_to(f, slot),
            ));
            assert(y.bytes_on(slot) == layers::sum_where(
                tensors,
                override_tensor::pinned_to(f, slot),
            ));
        }
        assert forall|slot: DeviceSlot|
            #![trigger x.holds(slot)]
            #![trigger y.holds(slot)]
            x.holds(slot) == y.holds(slot) by {
            let some = exists|k: int|
                0 <= k < tensors.len() && f((#[trigger] tensors[k]).1.name@) == Some(slot);
            assert(x.holds(slot) == some);
            assert(y.holds(slot) == some);
        }
    }
    if a0.per_layer_bytes is Some {
        let x = a.per_layer_bytes->0@;
        let y = b.per_layer_bytes->0@;
        assert(x =~= y) by {
            assert forall|k: int| 0 <= k < x.len() implies x[k] == y[k] by {
                if k <= u32::MAX {
                    assert(x[k] == arith::reduced(
                        a0.per_layer_bytes->0@[k] as int,
                        layers::sum_where(tensors, override_tensor::pinned_in_block(f, k)),
                    ));
                } else {
                    assert(x[k] == a0.per_layer_bytes->0@[k]);
                }
            }
        }
    }
}

proof fn lemma_fault_determined(written: Seq<String>, x: Seq<char>, y: Seq<char>)
    requires
        override_tensor::first_fault(written, x),
        override_tensor::first_fault(written, y),
    ensures
        x == y,
{
    let i = choose|i: int|
        0 <= i < written.len() && override_tensor::rule_fault((#[trigger] written[i])@) == Some(x)
            && forall|j: int|
            0 <= j < i ==> override_tensor::rule_fault((#[trigger] written[j])@) is None;
    let k = choose|k: int|
        0 <= k < written.len() && override_tensor::rule_fault((#[trigger] written[k])@) == Some(y)
            && forall|j: int|
            0 <= j < k ==> override_tensor::rule_fault((#[trigger] written[j])@) is None;
    assert(!(i < k) && !(k < i));
}

proof fn lemma_ruled_determined(
    a: Estimate,
    b: Estimate,
    a0: Estimate,
    b0: Estimate,
    x: Option<Seq<char>>,
    y: Option<Seq<char>>,
    summary: GgufSummary,
    i: EstimatorInputs<'_>,
    j: EstimatorInputs<'_>,
)
    requires
        same_but_projector(i, j),
        alike(a0, b0),
        pipeline::ruled(a, a0, x, summary, i),
        pipeline::ruled(b, b0, y, summary, j),
    ensures
        alike(a, b),
        x == y,
{
    let written = i.override_tensor@;
    let tensors = summary.tensors.pairs();
    match (x, y) {
        (Some(p), Some(q)) => {
            lemma_fault_determined(written, p, q);
        },
        (None, None) => {
            if written.len() > 0 {
                let rules = choose|rules: Seq<OverrideRule>|
                    #[trigger] override_tensor::rules_agree(rules, written)
                        && override_tensor::applied(
                        a,
                        a0,
                        tensors,
                        override_tensor::by_rules(rules),
                    );
                let others = choose|rules: Seq<OverrideRule>|
                    #[trigger] override_tensor::rules_agree(rules, written)
                        && override_tensor::applied(
                        b,
                        b0,
                        tensors,
                        override_tensor::by_rules(rules),
                    );
                let f = override_tensor::by_rules(rules);
                let g = override_tensor::by_rules(others);
                assert(f =~= g) by {
                    assert forall|name: Seq<char>| #[trigger] f(name) == g(name) by {
                        lemma_rules_determined(rules, others, written, 0, name);
                    }
                }
                lemma_applied_determined(a, b, a0, b0, tensors, f);
            }
        },
        (Some(p), None) => {
            lemma_faulty_not_applied(b, b0, tensors, written, p);
        },
        (None, Some(q)) => {
            lemma_faulty_not_applied(a, a0, tensors, written, q);
        },
    }
}

proof fn lemma_faulty_not_applied(
    after: Estimate,
    before: Estimate,
    tensors: Seq<(Seq<char>, GgufTensor)>,
    written: Seq<String>,
    fault: Seq<char>,
)
    requires
        override_tensor::first_fault(written, fault),
    ensures
        !override_tensor::written_applied(after, before, tensors, written),
{
    let i = choose|i: int|
        0 <= i < written.len() && override_tensor::rule_fault((#[trigger] written[i])@) == Some(
            fault,
        ) && forall|j: int|
            0 <= j < i ==> override_tensor::rule_fault((#[trigger] written[j])@) is None;
    if override_tensor::written_applied(after, before, tensors, written) {
        let rules = choose|rules: Seq<OverrideRule>|
            #[trigger] override_tensor::rules_agree(rules, written) && override_tensor::applied(
                after,
                before,
                tensors,
                override_tensor::by_rules(rules),
            );
        assert(override_tensor::rule_fault(written[i]@) is None);
    }
}

/// The projector's graph in the estimate of the family that covers a model:
/// none, or what the mamba family's estimate says.
pub open spec fn graph_before(summary: GgufSummary, mamba: Option<Estimate>) -> int {
    if pipeline::as_mamba(summary, mamba) {
        mamba->0.mmproj_graph_bytes as int
    } else {
        0
    }
}

/// Before the projector and the replicated weights are added, two estimates
/// of one service agree.
proof fn lemma_stages_determined(
    a: (Estimate, Estimate, Estimate, Estimate),
    b: (Estimate, Estimate, Estimate, Estimate),
    x: Option<Seq<char>>,
    y: Option<Seq<char>>,
    summary: GgufSummary,
    draft: Option<GgufSummary>,
    i: EstimatorInputs<'_>,
    j: EstimatorInputs<'_>,
    graph: GraphSize,
    tuning: Tuning,
    mamba: Option<Estimate>,
)
    requires
        same_but_projector(i, j),
        pipeline::stages(a.0, a.1, a.2, a.3, summary, draft, i, graph, tuning, mamba, x),
        pipeline::stages(b.0, b.1, b.2, b.3, summary, draft, j, graph, tuning, mamba, y),
    ensures
        alike(a.3, b.3),
        a.3.mmproj_graph_bytes == graph_before(summary, mamba),
        x == y,
{
    if !pipeline::as_mamba(summary, mamba) {
        lemma_family_determined(a.0, b.0, summary, i, j, graph, tuning);
    }
    lemma_adorned_determined(a.1, b.1, a.0, b.0, summary, draft, i, j, graph, tuning);
    lemma_trimmed_determined(a.2, b.2, a.1, b.1, summary, i, j);
    lemma_ruled_determined(a.3, b.3, a.2, b.2, x, y, summary, i, j);
}

/// A projector adds its weights and its graph and changes nothing else. One
/// that is named but cannot be read changes nothing at all. What rules are
/// at fault does not depend on it.
///
/// Where neither service names one, the law says that what an estimate is
/// made from decides it.
pub proof fn lemma_projector_adds_only_itself(
    without: (Estimate, Option<Seq<char>>),
    with: (Estimate, Option<Seq<char>>),
    summary: GgufSummary,
    draft: Option<GgufSummary>,
    projector: Option<GgufSummary>,
    replicated: u64,
    plain: EstimatorInputs<'_>,
    seeing: EstimatorInputs<'_>,
    graph: GraphSize,
    tuning: Tuning,
    mamba: Option<Estimate>,
)
    requires
        same_but_projector(plain, seeing),
        pipeline::estimated(
            without.0,
            without.1,
            summary,
            draft,
            None,
            replicated,
            plain,
            graph,
            tuning,
            mamba,
        ),
        pipeline::estimated(
            with.0,
            with.1,
            summary,
            draft,
            projector,
            replicated,
            seeing,
            graph,
            tuning,
            mamba,
        ),
    ensures
        with.1 == without.1,
        alike_beside_projector(with.0, without.0),
        without.0.mmproj_graph_bytes == graph_before(summary, mamba),
        match projector {
            Some(p) => {
                &&& with.0.weights_bytes == arith::capped_sum(
                    without.0.weights_bytes as int,
                    p.total_tensor_bytes as int,
                )
                &&& with.0.non_layer.other_bytes == arith::capped_sum(
                    without.0.non_layer.other_bytes as int,
                    p.total_tensor_bytes as int,
                )
                &&& with.0.mmproj_graph_bytes == tuning.mmproj_graph_bytes
            },
            None => alike(with.0, without.0),
        },
{
    let a = choose|a: Estimate, b: Estimate, c: Estimate, d: Estimate|
        #[trigger] pipeline::stages(
            a,
            b,
            c,
            d,
            summary,
            draft,
            plain,
            graph,
            tuning,
            mamba,
            without.1,
        ) && pipeline::finished(without.0, d, None, replicated, tuning);
    let b = choose|a: Estimate, b: Estimate, c: Estimate, d: Estimate|
        #[trigger] pipeline::stages(
            a,
            b,
            c,
            d,
            summary,
            draft,
            seeing,
            graph,
            tuning,
            mamba,
            with.1,
        ) && pipeline::finished(with.0, d, projector, replicated, tuning);
    lemma_stages_determined(
        a,
        b,
        without.1,
        with.1,
        summary,
        draft,
        plain,
        seeing,
        graph,
        tuning,
        mamba,
    );
}

} // verus!
