//! The whole estimate of a service: the family's, and what is added to it.
//!
//! Four families are tried in turn: llama, moe, mamba and hybrid. The mamba
//! family's own estimate is made elsewhere and handed in as a value, where
//! that family covers the model; so is the list of architectures it covers.

use crate::config::units::MIB;
use crate::estimate::arith;
use crate::estimate::compute_buffer;
use crate::estimate::compute_buffer::GraphSize;
use crate::estimate::family;
use crate::estimate::family::LLAMA_FAMILY;
use crate::estimate::host_buffer;
use crate::estimate::hybrid;
use crate::estimate::hybrid::HYBRID_FAMILY;
use crate::estimate::layers;
use crate::estimate::llama_kv;
use crate::estimate::moe;
use crate::estimate::moe::MOE_FAMILY;
use crate::estimate::mtp;
use crate::estimate::override_tensor;
use crate::estimate::recurrent;
use crate::estimate::tuning::Tuning;
use crate::estimate::types::{Estimate, EstimatorInputs, ExpertTensor};
use crate::gguf::GgufSummary;
use crate::text;
use vstd::prelude::*;
use vstd::string::*;

verus! {

/// Why no estimate was made.
#[derive(Debug)]
pub enum EstimatorError {
    /// The GGUF at `path` could not be read.
    GgufRead { path: String, cause: String },
    /// No family covers the model's architecture.
    UnknownArchitecture { architecture: String },
}

/// The architectures that can be estimated, family by family. `mamba` are
/// those of the mamba family.
pub open spec fn recognised_families(mamba: Seq<&str>) -> Seq<char> {
    " llama=["@ + text::joined(LLAMA_FAMILY@, ","@) + "] moe=["@ + text::joined(MOE_FAMILY@, ","@)
        + "] mamba=["@ + text::joined(mamba, ","@) + "] hybrid=["@ + text::joined(
        HYBRID_FAMILY@,
        ","@,
    ) + "]"@
}

impl EstimatorError {
    /// What the operator reads. `mamba` are the architectures of the mamba
    /// family.
    pub open spec fn text_view(&self, mamba: Seq<&str>) -> Seq<char> {
        match self {
            EstimatorError::GgufRead { path, cause } => "read gguf at "@ + path@ + ": "@ + cause@,
            EstimatorError::UnknownArchitecture { architecture } => "architecture "@ + architecture@
                + " is not recognised, so its memory cannot be estimated. Give the service an explicit reservation (`mode` plus `reserve_gb`, or `min_reserve_gb`/`max_reserve_gb`) and it is placed from that instead. Recognised families:"@
                + recognised_families(mamba),
        }
    }

    /// What the operator reads. `mamba` are the architectures of the mamba
    /// family.
    pub fn text(&self, mamba: &[&str]) -> (r: String)
        ensures
            r@ == self.text_view(mamba@),
    {
        match self {
            EstimatorError::GgufRead { path, cause } => "read gguf at ".to_owned().concat(
                path.as_str(),
            ).concat(": ").concat(cause.as_str()),
            EstimatorError::UnknownArchitecture { architecture } => {
                let families = " llama=[".to_owned().concat(
                    text::join(&LLAMA_FAMILY, ",").as_str(),
                ).concat("] moe=[").concat(text::join(&MOE_FAMILY, ",").as_str()).concat(
                    "] mamba=[",
                ).concat(text::join(mamba, ",").as_str()).concat("] hybrid=[").concat(
                    text::join(&HYBRID_FAMILY, ",").as_str(),
                ).concat("]");
                "architecture ".to_owned().concat(architecture.as_str()).concat(
                    " is not recognised, so its memory cannot be estimated. Give the service an explicit reservation (`mode` plus `reserve_gb`, or `min_reserve_gb`/`max_reserve_gb`) and it is placed from that instead. Recognised families:",
                ).concat(families.as_str())
            },
        }
    }
}

/// Whether a family other than mamba covers an architecture.
pub open spec fn recognised(arch: Seq<char>) -> bool {
    ||| text::listed(LLAMA_FAMILY@, arch)
    ||| text::listed(MOE_FAMILY@, arch)
    ||| text::listed(HYBRID_FAMILY@, arch)
}

/// Context bytes per token, by the first family that covers the model.
pub open spec fn family_per_token(summary: GgufSummary, inputs: EstimatorInputs<'_>) -> int {
    if text::listed(LLAMA_FAMILY@, summary.architecture@) {
        llama_kv::per_token(summary, summary.blocks(), inputs)
    } else if text::listed(MOE_FAMILY@, summary.architecture@) {
        moe::per_token(summary, summary.blocks(), inputs)
    } else {
        hybrid::per_token(summary, summary.blocks(), inputs)
    }
}

/// Whether a model is estimated as a dense llama.
pub open spec fn as_llama(summary: GgufSummary) -> bool {
    text::listed(LLAMA_FAMILY@, summary.architecture@)
}

/// Whether a model is estimated as a mixture of experts.
pub open spec fn as_mixture(summary: GgufSummary) -> bool {
    !as_llama(summary) && text::listed(MOE_FAMILY@, summary.architecture@)
}

/// Whether a model takes the mamba family's estimate. `mamba` is that
/// estimate, given where the family covers the model.
pub open spec fn as_mamba(summary: GgufSummary, mamba: Option<Estimate>) -> bool {
    !as_llama(summary) && !as_mixture(summary) && mamba is Some
}

/// Whether some family covers a model.
pub open spec fn covered(summary: GgufSummary, mamba: Option<Estimate>) -> bool {
    recognised(summary.architecture@) || mamba is Some
}

/// Whether the terms of the family that covers a model can be counted. Those
/// of the mamba family have been.
pub open spec fn family_fits(
    summary: GgufSummary,
    inputs: EstimatorInputs<'_>,
    tuning: Tuning,
    mamba: Option<Estimate>,
) -> bool {
    recognised(summary.architecture@) && !as_mamba(summary, mamba) ==> {
        &&& family::weights_fit(summary)
        &&& compute_buffer::score_fits(summary, inputs, tuning)
        &&& if text::listed(LLAMA_FAMILY@, summary.architecture@) {
            llama_kv::countable(summary, summary.blocks(), inputs)
        } else if text::listed(MOE_FAMILY@, summary.architecture@) {
            moe::per_token_fits(summary, summary.blocks(), inputs)
        } else {
            hybrid::per_token_fits(summary, summary.blocks(), inputs)
        }
    }
}

/// Whether `e` is the estimate of a model by its family, which is not mamba.
pub open spec fn family_estimate(
    e: Estimate,
    summary: GgufSummary,
    inputs: EstimatorInputs<'_>,
    graph: GraphSize,
    tuning: Tuning,
) -> bool {
    &&& family::common(e, summary, inputs, graph, tuning)
    &&& e.kv_per_token == family_per_token(summary, inputs)
    &&& if as_mixture(summary) {
        &&& e.expert_layers@ == moe::expert_blocks(summary.tensors.pairs(), summary.blocks())
        &&& e.expert_tensors matches Some(list) && list@ == moe::experts(
            summary.tensors.pairs(),
            summary.blocks(),
        )
    } else {
        &&& e.expert_layers@.len() == 0
        &&& e.expert_tensors is None
    }
}

/// Whether `e` is the estimate of the family that covers a model.
pub open spec fn base_estimate(
    e: Estimate,
    summary: GgufSummary,
    inputs: EstimatorInputs<'_>,
    graph: GraphSize,
    tuning: Tuning,
    mamba: Option<Estimate>,
) -> bool {
    if as_mamba(summary, mamba) {
        mamba == Some(e)
    } else {
        family_estimate(e, summary, inputs, graph, tuning)
    }
}

/// Whether `e` refuses the architecture `arch`.
pub open spec fn refuses(e: EstimatorError, arch: Seq<char>) -> bool {
    e matches EstimatorError::UnknownArchitecture { architecture } && architecture@ == arch
}

/// The estimate of the first family that covers a model. A model that none
/// covers is refused, never guessed at. `mamba` is the mamba family's
/// estimate, given where that family covers the model.
pub fn dispatch(
    summary: &GgufSummary,
    inputs: &EstimatorInputs<'_>,
    graph: GraphSize,
    tuning: &Tuning,
    mamba: Option<Estimate>,
) -> (r: Result<Estimate, EstimatorError>)
    requires
        family_fits(*summary, *inputs, *tuning, mamba),
    ensures
        match r {
            Ok(e) => covered(*summary, mamba) && base_estimate(
                e,
                *summary,
                *inputs,
                graph,
                *tuning,
                mamba,
            ),
            Err(e) => !covered(*summary, mamba) && refuses(e, summary.architecture@),
        },
{
    let arch = summary.architecture.as_str();
    if family::is_llama_family(arch) {
        Ok(family::llama_estimate(summary, inputs, graph, tuning))
    } else if moe::is_moe(arch) {
        Ok(family::moe_estimate(summary, inputs, graph, tuning))
    } else if let Some(e) = mamba {
        Ok(e)
    } else if hybrid::is_hybrid(arch) {
        Ok(family::hybrid_estimate(summary, inputs, graph, tuning))
    } else {
        Err(EstimatorError::UnknownArchitecture { architecture: summary.architecture.clone() })
    }
}

/// The layers of a list below `span`.
pub open spec fn layers_below(list: Seq<u32>, span: int) -> Seq<u32>
    decreases list.len(),
{
    if list.len() == 0 {
        Seq::empty()
    } else if list.last() < span {
        layers_below(list.drop_last(), span).push(list.last())
    } else {
        layers_below(list.drop_last(), span)
    }
}

/// The experts of a list in layers below `span`.
pub open spec fn experts_below(list: Seq<ExpertTensor>, span: int) -> Seq<ExpertTensor>
    decreases list.len(),
{
    if list.len() == 0 {
        Seq::empty()
    } else if list.last().layer < span {
        experts_below(list.drop_last(), span).push(list.last())
    } else {
        experts_below(list.drop_last(), span)
    }
}

/// Whether a model has blocks behind its main context's span.
pub open spec fn has_head_blocks(e: Estimate, span: int) -> bool {
    e.per_layer_bytes matches Some(sizes) && span < sizes@.len()
}

/// Whether `after` is `before` without the blocks behind `span`, in every
/// view of them.
pub open spec fn head_dropped(after: Estimate, before: Estimate, span: int) -> bool {
    &&& override_tensor::untouched(
        after,
        (Estimate {
            expert_layers: after.expert_layers,
            mtp_head_expert_layers: after.mtp_head_expert_layers,
            ..before
        }),
    )
    &&& after.non_layer == before.non_layer
    &&& after.override_tensor_bytes == before.override_tensor_bytes
    &&& after.per_layer_bytes matches Some(a) && before.per_layer_bytes matches Some(b) && {
        &&& a@.len() == b@.len()
        &&& forall|i: int| 0 <= i < a@.len() && i < span ==> #[trigger] a@[i] == b@[i]
        &&& forall|i: int| span <= i < a@.len() ==> #[trigger] a@[i] == 0
        &&& after.weights_bytes == arith::reduced(
            before.weights_bytes as int,
            layers::total(b@.skip(span)),
        )
    }
    &&& after.expert_layers@ == layers_below(before.expert_layers@, span)
    &&& after.mtp_head_expert_layers == before.expert_layers@.len() - after.expert_layers@.len()
    &&& match (after.expert_tensors, before.expert_tensors) {
        (Some(a), Some(b)) => a@ == experts_below(b@, span),
        (None, None) => true,
        _ => false,
    }
}

proof fn lemma_layers_below_len(list: Seq<u32>, span: int)
    ensures
        layers_below(list, span).len() <= list.len(),
    decreases list.len(),
{
    if list.len() > 0 {
        lemma_layers_below_len(list.drop_last(), span);
    }
}

fn keep_layers(list: &Vec<u32>, span: u32) -> (r: Vec<u32>)
    ensures
        r@ == layers_below(list@, span as int),
{
    let mut r: Vec<u32> = Vec::new();
    for i in 0..list.len()
        invariant
            r@ == layers_below(list@.take(i as int), span as int),
    {
        proof {
            assert(list@.take(i + 1).drop_last() =~= list@.take(i as int));
        }
        if list[i] < span {
            r.push(list[i]);
        }
    }
    assert(list@.take(list@.len() as int) =~= list@);
    r
}

fn keep_experts(list: &Vec<ExpertTensor>, span: u32) -> (r: Vec<ExpertTensor>)
    ensures
        r@ == experts_below(list@, span as int),
{
    let mut r: Vec<ExpertTensor> = Vec::new();
    for i in 0..list.len()
        invariant
            r@ == experts_below(list@.take(i as int), span as int),
    {
        proof {
            assert(list@.take(i + 1).drop_last() =~= list@.take(i as int));
        }
        if list[i].layer < span {
            r.push(list[i]);
        }
    }
    assert(list@.take(list@.len() as int) =~= list@);
    r
}

/// Takes a draft head's trailing blocks out of an estimate, for a runtime
/// that does not load them: out of the total, the blocks, and the experts.
pub fn drop_mtp_head_blocks(est: &mut Estimate, summary: &GgufSummary)
    requires
        old(est).expert_layers@.len() <= u32::MAX,
    ensures
        if has_head_blocks(*old(est), recurrent::span(*summary)) {
            head_dropped(*final(est), *old(est), recurrent::span(*summary))
        } else {
            *final(est) == *old(est)
        },
{
    let span: u32 = recurrent::context_layer_span(summary);
    let known: bool = match &est.per_layer_bytes {
        Some(sizes) => (span as usize) < sizes.len(),
        None => false,
    };
    if !known {
        return;
    }
    let ghost before = *est;
    let taken: Option<Vec<u64>> = est.per_layer_bytes.take();
    let mut sizes: Vec<u64> = match taken {
        Some(sizes) => sizes,
        None => Vec::new(),
    };
    let ghost sizes0 = sizes@;
    let mut weights: u64 = est.weights_bytes;
    let n: usize = sizes.len();
    let mut i: usize = span as usize;
    proof {
        assert(sizes0.subrange(span as int, span as int) =~= Seq::<u64>::empty());
    }
    while i < n
        invariant
            span <= i <= n,
            n == sizes0.len(),
            sizes@.len() == n,
            forall|j: int| 0 <= j < span ==> #[trigger] sizes@[j] == sizes0[j],
            forall|j: int| span <= j < i ==> #[trigger] sizes@[j] == 0,
            forall|j: int| i <= j < n ==> #[trigger] sizes@[j] == sizes0[j],
            weights == arith::reduced(
                before.weights_bytes as int,
                layers::total(sizes0.subrange(span as int, i as int)),
            ),
            layers::total(sizes0.subrange(span as int, i as int)) >= 0,
        decreases n - i,
    {
        proof {
            assert(sizes0.subrange(span as int, i + 1).drop_last() =~= sizes0.subrange(
                span as int,
                i as int,
            ));
        }
        weights = weights.saturating_sub(sizes[i]);
        sizes[i] = 0;
        i += 1;
    }
    proof {
        assert(sizes0.subrange(span as int, n as int) =~= sizes0.skip(span as int));
        lemma_layers_below_len(est.expert_layers@, span as int);
    }
    est.weights_bytes = weights;
    est.per_layer_bytes = Some(sizes);
    let kept: Vec<u32> = keep_layers(&est.expert_layers, span);
    est.mtp_head_expert_layers = (est.expert_layers.len() - kept.len()) as u32;
    est.expert_layers = kept;
    let experts: Option<Vec<ExpertTensor>> = match &est.expert_tensors {
        Some(list) => Some(keep_experts(list, span)),
        None => None,
    };
    est.expert_tensors = experts;
}

/// Whether what is taken out of the mamba family's estimate can be counted.
pub open spec fn mamba_fits(summary: GgufSummary, mamba: Estimate) -> bool {
    &&& family::weights_fit(summary)
    &&& override_tensor::countable(mamba)
    &&& mamba.expert_layers@.len() <= u32::MAX
}

/// Whether everything an estimate adds up can be counted.
pub open spec fn estimate_fits(
    summary: GgufSummary,
    draft: Option<GgufSummary>,
    inputs: EstimatorInputs<'_>,
    tuning: Tuning,
    mamba: Option<Estimate>,
) -> bool {
    covered(summary, mamba) ==> {
        &&& family_fits(summary, inputs, tuning, mamba)
        &&& as_mamba(summary, mamba) ==> mamba_fits(summary, mamba->0)
        &&& mtp::overhead_fits(summary, draft, inputs, tuning)
        &&& host_buffer::overhead_fits(summary, inputs, tuning)
        &&& host_buffer::slot_reserve(summary.architecture@, inputs, tuning) <= u64::MAX
        &&& host_buffer::checkpoint_reserve(summary, inputs, tuning) <= u64::MAX
    }
}

/// Whether everything an estimate adds up can be counted.
pub fn is_countable(
    summary: &GgufSummary,
    draft: Option<&GgufSummary>,
    inputs: &EstimatorInputs<'_>,
    tuning: &Tuning,
    mamba: &Option<Estimate>,
) -> (r: bool)
    ensures
        r == estimate_fits(*summary, mtp::deref(draft), *inputs, *tuning, *mamba),
{
    let arch = summary.architecture.as_str();
    let n_layers: u32 = summary.block_total();
    let own: bool = if family::is_llama_family(arch) {
        llama_kv::is_countable(summary, n_layers, inputs) && compute_buffer::is_score_countable(
            summary,
            inputs,
            tuning,
        )
    } else if moe::is_moe(arch) {
        moe::is_countable(summary, n_layers, inputs) && compute_buffer::is_score_countable(
            summary,
            inputs,
            tuning,
        )
    } else if let Some(e) = mamba {
        override_tensor::is_countable(e) && e.expert_layers.len() as u64 <= u32::MAX as u64
    } else if hybrid::is_hybrid(arch) {
        hybrid::is_countable(summary, n_layers, inputs) && compute_buffer::is_score_countable(
            summary,
            inputs,
            tuning,
        )
    } else {
        return true;
    };
    own && family::is_weighable(summary) && mtp::is_countable(summary, draft, inputs, tuning) && host_buffer::is_overhead_countable(
        summary,
        inputs,
        tuning,
    ) && host_buffer::is_reserve_countable(summary, inputs, tuning)
}

/// Whether `after` is `before` with the terms that hold for every family:
/// the draft context, the head GPU's surplus, and the host side.
pub open spec fn adorned(
    after: Estimate,
    before: Estimate,
    summary: GgufSummary,
    draft: Option<GgufSummary>,
    inputs: EstimatorInputs<'_>,
    graph: GraphSize,
    tuning: Tuning,
) -> bool {
    &&& after == (Estimate {
        mtp_bytes: after.mtp_bytes,
        mtp_weight_bytes: after.mtp_weight_bytes,
        output_buffer_bytes: after.output_buffer_bytes,
        host_overhead_bytes: after.host_overhead_bytes,
        host_cache_bytes: after.host_cache_bytes,
        host_slot_bytes: after.host_slot_bytes,
        host_checkpoint_bytes: after.host_checkpoint_bytes,
        ..before
    })
    &&& after.mtp_bytes == mtp::overhead(summary, draft, inputs, tuning)
    &&& after.mtp_weight_bytes == mtp::weight_share(draft, inputs)
    &&& after.output_buffer_bytes == graph.head_extra_mib * MIB
    &&& after.host_overhead_bytes == host_buffer::overhead(summary, inputs, tuning)
    &&& after.host_cache_bytes == host_buffer::prompt_cache(inputs)
    &&& after.host_slot_bytes == host_buffer::slot_reserve(summary.architecture@, inputs, tuning)
    &&& after.host_checkpoint_bytes == host_buffer::checkpoint_reserve(summary, inputs, tuning)
}

/// Whether `after` is `before` without what the runtime does not load: ik
/// leaves a draft head's blocks out.
pub open spec fn trimmed(
    after: Estimate,
    before: Estimate,
    summary: GgufSummary,
    inputs: EstimatorInputs<'_>,
) -> bool {
    if inputs.fork is Ik && has_head_blocks(before, recurrent::span(summary)) {
        head_dropped(after, before, recurrent::span(summary))
    } else {
        after == before
    }
}

/// Whether `after` is `before` with the projector's weights and graph, and
/// the weights a tensor split replicates.
pub open spec fn finished(
    after: Estimate,
    before: Estimate,
    mmproj: Option<GgufSummary>,
    replicated: u64,
    tuning: Tuning,
) -> bool {
    &&& after == (Estimate {
        weights_bytes: after.weights_bytes,
        non_layer: after.non_layer,
        mmproj_graph_bytes: after.mmproj_graph_bytes,
        tensor_split_replicated_bytes: replicated,
        ..before
    })
    &&& match mmproj {
        Some(p) => {
            &&& after.weights_bytes == arith::capped_sum(
                before.weights_bytes as int,
                p.total_tensor_bytes as int,
            )
            &&& after.non_layer.other_bytes == arith::capped_sum(
                before.non_layer.other_bytes as int,
                p.total_tensor_bytes as int,
            )
            &&& after.non_layer.output_head_bytes == before.non_layer.output_head_bytes
            &&& after.non_layer.token_embd_bytes == before.non_layer.token_embd_bytes
            &&& after.non_layer.tied_head_bytes == before.non_layer.tied_head_bytes
            &&& after.mmproj_graph_bytes == tuning.mmproj_graph_bytes
        },
        None => {
            &&& after.weights_bytes == before.weights_bytes
            &&& after.non_layer == before.non_layer
            &&& after.mmproj_graph_bytes == before.mmproj_graph_bytes
        },
    }
}

/// Whether `rule_fault` and the estimate `after` are what the written rules
/// make of `before`.
pub open spec fn ruled(
    after: Estimate,
    before: Estimate,
    rule_fault: Option<Seq<char>>,
    summary: GgufSummary,
    inputs: EstimatorInputs<'_>,
) -> bool {
    match rule_fault {
        Some(fault) => override_tensor::first_fault(inputs.override_tensor@, fault) && after
            == before,
        None => override_tensor::written_applied(
            after,
            before,
            summary.tensors.pairs(),
            inputs.override_tensor@,
        ),
    }
}

/// The stages of an estimate: the family's, the terms every family has, the
/// blocks that are not loaded, and the operator's rules.
pub open spec fn stages(
    base: Estimate,
    whole: Estimate,
    loaded: Estimate,
    pinned: Estimate,
    summary: GgufSummary,
    draft: Option<GgufSummary>,
    inputs: EstimatorInputs<'_>,
    graph: GraphSize,
    tuning: Tuning,
    mamba: Option<Estimate>,
    rule_fault: Option<Seq<char>>,
) -> bool {
    &&& base_estimate(base, summary, inputs, graph, tuning, mamba)
    &&& adorned(whole, base, summary, draft, inputs, graph, tuning)
    &&& trimmed(loaded, whole, summary, inputs)
    &&& ruled(pinned, loaded, rule_fault, summary, inputs)
}

/// The text of an optional fault.
pub open spec fn fault_view(fault: Option<override_tensor::ParseError>) -> Option<Seq<char>> {
    match fault {
        Some(e) => Some(e.0@),
        None => None,
    }
}

/// Whether `e` is the whole estimate of a service, with `rule_fault` the
/// fault of its rules.
pub open spec fn estimated(
    e: Estimate,
    rule_fault: Option<Seq<char>>,
    summary: GgufSummary,
    draft: Option<GgufSummary>,
    mmproj: Option<GgufSummary>,
    replicated: u64,
    inputs: EstimatorInputs<'_>,
    graph: GraphSize,
    tuning: Tuning,
    mamba: Option<Estimate>,
) -> bool {
    exists|base: Estimate, whole: Estimate, loaded: Estimate, pinned: Estimate|
        #[trigger] stages(
            base,
            whole,
            loaded,
            pinned,
            summary,
            draft,
            inputs,
            graph,
            tuning,
            mamba,
            rule_fault,
        ) && finished(e, pinned, mmproj, replicated, tuning)
}

proof fn lemma_expert_blocks_len(
    tensors: Seq<(Seq<char>, crate::gguf::GgufTensor)>,
    n: int,
)
    requires
        0 <= n,
    ensures
        moe::expert_blocks(tensors, n).len() <= n,
    decreases n,
{
    if n > 0 {
        lemma_expert_blocks_len(tensors, n - 1);
    }
}

proof fn lemma_still_countable(
    loaded: Estimate,
    whole: Estimate,
    summary: GgufSummary,
    inputs: EstimatorInputs<'_>,
)
    requires
        trimmed(loaded, whole, summary, inputs),
        override_tensor::countable(whole),
    ensures
        override_tensor::countable(loaded),
{
    if inputs.fork is Ik && has_head_blocks(whole, recurrent::span(summary)) {
        let a = loaded.per_layer_bytes->0@;
        let b = whole.per_layer_bytes->0@;
        assert forall|i: int| 0 <= i < a.len() implies a[i] <= #[trigger] b[i] by {
            assert(a[i] == b[i] || a[i] == 0);
        }
        lemma_smaller_total(a, b);
    }
}

proof fn lemma_smaller_total(a: Seq<u64>, b: Seq<u64>)
    requires
        a.len() == b.len(),
        forall|i: int| 0 <= i < a.len() ==> a[i] <= #[trigger] b[i],
    ensures
        layers::total(a) <= layers::total(b),
    decreases a.len(),
{
    if a.len() > 0 {
        assert forall|i: int| 0 <= i < a.len() - 1 implies a.drop_last()[i]
            <= #[trigger] b.drop_last()[i] by {
            assert(a[i] <= b[i]);
        }
        lemma_smaller_total(a.drop_last(), b.drop_last());
        assert(a[a.len() - 1] <= b[b.len() - 1]);
    }
}

/// The whole estimate of a service from what was read of its files: the
/// model, its separate draft, and its projector, the latter two where they
/// are configured and could be read. `graph` is the fitted graph size,
/// `replicated` the weights a tensor split holds on every card, and `mamba`
/// the mamba family's estimate where that family covers the model.
///
/// Rules that do not parse are left out, and the first fault is handed back
/// beside the estimate.
pub fn estimate_with_summary(
    summary: &GgufSummary,
    draft: Option<&GgufSummary>,
    mmproj: Option<&GgufSummary>,
    graph: GraphSize,
    replicated: u64,
    inputs: &EstimatorInputs<'_>,
    tuning: &Tuning,
    mamba: Option<Estimate>,
) -> (r: Result<(Estimate, Option<override_tensor::ParseError>), EstimatorError>)
    requires
        estimate_fits(*summary, mtp::deref(draft), *inputs, *tuning, mamba),
    ensures
        match r {
            Ok(out) => covered(*summary, mamba) && estimated(
                out.0,
                fault_view(out.1),
                *summary,
                mtp::deref(draft),
                mtp::deref(mmproj),
                replicated,
                *inputs,
                graph,
                *tuning,
                mamba,
            ),
            Err(e) => !covered(*summary, mamba) && refuses(e, summary.architecture@),
        },
{
    let ghost given = mamba;
    let mut est = match dispatch(summary, inputs, graph, tuning, mamba) {
        Ok(e) => e,
        Err(e) => return Err(e),
    };
    let ghost base = est;
    est.mtp_bytes = mtp::mtp_overhead_bytes(summary, draft, inputs, tuning);
    est.mtp_weight_bytes = mtp::mtp_weight_bytes(draft, inputs);
    est.output_buffer_bytes = graph.head_extra_mib as u64 * MIB;
    est.host_overhead_bytes = host_buffer::host_overhead_bytes(summary, inputs, tuning);
    est.host_cache_bytes = host_buffer::prompt_cache_bytes(inputs);
    est.host_slot_bytes = host_buffer::slot_host_bytes(
        summary.architecture.as_str(),
        inputs,
        tuning,
    );
    est.host_checkpoint_bytes = host_buffer::checkpoint_headroom_bytes(summary, inputs, tuning);
    let ghost whole = est;
    proof {
        let tensors = summary.tensors.pairs();
        let n = summary.blocks();
        lemma_expert_blocks_len(tensors, n);
        if !as_mamba(*summary, given) {
            layers::lemma_sizes_total(whole.per_layer_bytes->0@, tensors, n);
        }
        layers::lemma_weights_partition(tensors, n);
        layers::lemma_sum_narrower(tensors, layers::loaded(n), layers::every());
    }
    if inputs.fork.is_ik() {
        drop_mtp_head_blocks(&mut est, summary);
    }
    let ghost loaded = est;
    proof {
        lemma_still_countable(loaded, whole, *summary, *inputs);
    }
    let fault: Option<override_tensor::ParseError> = override_tensor::parse_and_apply(
        &mut est,
        summary,
        inputs.override_tensor,
    );
    let ghost pinned = est;
    if let Some(projector) = mmproj {
        let bytes: u64 = projector.total_tensor_bytes;
        est.weights_bytes = est.weights_bytes.saturating_add(bytes);
        est.non_layer.other_bytes = est.non_layer.other_bytes.saturating_add(bytes);
        est.mmproj_graph_bytes = tuning.mmproj_graph_bytes;
    }
    est.tensor_split_replicated_bytes = replicated;
    proof {
        assert(stages(
            base,
            whole,
            loaded,
            pinned,
            *summary,
            mtp::deref(draft),
            *inputs,
            graph,
            *tuning,
            given,
            fault_view(fault),
        ));
        assert(finished(est, pinned, mtp::deref(mmproj), replicated, *tuning));
    }
    Ok((est, fault))
}

/// The whole estimate of a service where everything it adds up can be
/// counted, which is tested first; none where it cannot.
pub fn estimate_if_countable(
    summary: &GgufSummary,
    draft: Option<&GgufSummary>,
    mmproj: Option<&GgufSummary>,
    graph: GraphSize,
    replicated: u64,
    inputs: &EstimatorInputs<'_>,
    tuning: &Tuning,
    mamba: Option<Estimate>,
) -> (r: Option<Result<(Estimate, Option<override_tensor::ParseError>), EstimatorError>>)
    ensures
        r is None <==> !estimate_fits(*summary, mtp::deref(draft), *inputs, *tuning, mamba),
        match r {
            Some(Ok(out)) => covered(*summary, mamba) && estimated(
                out.0,
                fault_view(out.1),
                *summary,
                mtp::deref(draft),
                mtp::deref(mmproj),
                replicated,
                *inputs,
                graph,
                *tuning,
                mamba,
            ),
            Some(Err(e)) => !covered(*summary, mamba) && refuses(e, summary.architecture@),
            None => covered(*summary, mamba),
        },
{
    if !is_countable(summary, draft, inputs, tuning, &mamba) {
        return None;
    }
    Some(
        estimate_with_summary(summary, draft, mmproj, graph, replicated, inputs, tuning, mamba),
    )
}

/// The refusal names every architecture that would have been estimated,
/// those of the mamba family among them.
pub proof fn lemma_refusal_names_every_architecture(
    e: EstimatorError,
    mamba: Seq<&str>,
    arch: Seq<char>,
)
    requires
        e is UnknownArchitecture,
        recognised(arch) || text::listed(mamba, arch),
    ensures
        text::occurs(e.text_view(mamba), arch),
{
    let a = " llama=["@ + text::joined(LLAMA_FAMILY@, ","@);
    let b = a + "] moe=["@ + text::joined(MOE_FAMILY@, ","@);
    let c = b + "] mamba=["@ + text::joined(mamba, ","@);
    let d = c + "] hybrid=["@ + text::joined(HYBRID_FAMILY@, ","@);
    if text::listed(LLAMA_FAMILY@, arch) {
        lemma_family_named(" llama=["@, LLAMA_FAMILY@, arch);
        text::lemma_occurs_beside(a, "] moe=["@, arch);
        text::lemma_occurs_beside(a + "] moe=["@, text::joined(MOE_FAMILY@, ","@), arch);
    } else if text::listed(MOE_FAMILY@, arch) {
        lemma_family_named(a + "] moe=["@, MOE_FAMILY@, arch);
    }
    if text::occurs(b, arch) {
        text::lemma_occurs_beside(b, "] mamba=["@, arch);
        text::lemma_occurs_beside(b + "] mamba=["@, text::joined(mamba, ","@), arch);
    } else if text::listed(mamba, arch) {
        lemma_family_named(b + "] mamba=["@, mamba, arch);
    }
    if text::occurs(c, arch) {
        text::lemma_occurs_beside(c, "] hybrid=["@, arch);
        text::lemma_occurs_beside(c + "] hybrid=["@, text::joined(HYBRID_FAMILY@, ","@), arch);
    } else {
        lemma_family_named(c + "] hybrid=["@, HYBRID_FAMILY@, arch);
    }
    text::lemma_occurs_beside(d, "]"@, arch);
    let lead = "architecture "@ + e->architecture@
        + " is not recognised, so its memory cannot be estimated. Give the service an explicit reservation (`mode` plus `reserve_gb`, or `min_reserve_gb`/`max_reserve_gb`) and it is placed from that instead. Recognised families:"@;
    text::lemma_occurs_beside(recognised_families(mamba), lead, arch);
}

proof fn lemma_family_named(lead: Seq<char>, family: Seq<&str>, arch: Seq<char>)
    requires
        text::listed(family, arch),
    ensures
        text::occurs(lead + text::joined(family, ","@), arch),
{
    let i = choose|i: int| 0 <= i < family.len() && (#[trigger] family[i])@ == arch;
    text::lemma_joined_holds(family, ","@, i);
    text::lemma_occurs_beside(text::joined(family, ","@), lead, arch);
}

/// Where the mamba family's estimate is given exactly for the architectures
/// it lists, a model is refused exactly where no family lists its
/// architecture, and estimated otherwise.
pub proof fn lemma_refused_iff_unlisted(
    summary: GgufSummary,
    family: Seq<&str>,
    mamba: Option<Estimate>,
)
    requires
        mamba is Some <==> text::listed(family, summary.architecture@),
    ensures
        covered(summary, mamba) <==> {
            ||| text::listed(LLAMA_FAMILY@, summary.architecture@)
            ||| text::listed(MOE_FAMILY@, summary.architecture@)
            ||| text::listed(family, summary.architecture@)
            ||| text::listed(HYBRID_FAMILY@, summary.architecture@)
        },
{
}

/// An estimate that is not by block stays so, and the blocks of a draft head
/// are not taken out of it: whatever the runtime and the rules, and with any
/// projector.
pub proof fn lemma_coarse_stays_coarse(
    e: Estimate,
    rule_fault: Option<Seq<char>>,
    summary: GgufSummary,
    draft: Option<GgufSummary>,
    mmproj: Option<GgufSummary>,
    replicated: u64,
    inputs: EstimatorInputs<'_>,
    graph: GraphSize,
    tuning: Tuning,
    mamba: Estimate,
)
    requires
        as_mamba(summary, Some(mamba)),
        mamba.per_layer_bytes is None,
        estimated(
            e,
            rule_fault,
            summary,
            draft,
            mmproj,
            replicated,
            inputs,
            graph,
            tuning,
            Some(mamba),
        ),
    ensures
        e.per_layer_bytes is None,
        e.mtp_head_expert_layers == mamba.mtp_head_expert_layers,
        e.kv_per_token == mamba.kv_per_token,
        e.compute_buffer_mb == mamba.compute_buffer_mb,
        e.architecture == mamba.architecture,
        inputs.override_tensor@.len() == 0 && mmproj is None ==> e.weights_bytes
            == mamba.weights_bytes,
{
}

/// No block behind the span is left in any view of an estimate once the
/// head is dropped.
pub proof fn lemma_head_leaves_every_view(after: Estimate, before: Estimate, span: int)
    requires
        head_dropped(after, before, span),
    ensures
        forall|i: int|
            span <= i < after.per_layer_bytes->0@.len() ==> #[trigger] after.per_layer_bytes->0@[i]
                == 0,
        forall|k: int|
            0 <= k < after.expert_layers@.len() ==> #[trigger] after.expert_layers@[k] < span,
        after.expert_tensors matches Some(list) ==> forall|k: int|
            0 <= k < list@.len() ==> (#[trigger] list@[k]).layer < span,
{
    lemma_layers_below(before.expert_layers@, span);
    if before.expert_tensors is Some {
        lemma_experts_below(before.expert_tensors->0@, span);
    }
}

proof fn lemma_layers_below(list: Seq<u32>, span: int)
    ensures
        forall|k: int|
            0 <= k < layers_below(list, span).len() ==> #[trigger] layers_below(list, span)[k]
                < span,
    decreases list.len(),
{
    if list.len() > 0 {
        let rest = layers_below(list.drop_last(), span);
        lemma_layers_below(list.drop_last(), span);
        assert forall|k: int| 0 <= k < layers_below(list, span).len() implies #[trigger] layers_below(
            list,
            span,
        )[k] < span by {
            if k < rest.len() {
                assert(rest[k] < span);
            }
        }
    }
}

proof fn lemma_experts_below(list: Seq<ExpertTensor>, span: int)
    ensures
        forall|k: int|
            0 <= k < experts_below(list, span).len() ==> (#[trigger] experts_below(
                list,
                span,
            )[k]).layer < span,
    decreases list.len(),
{
    if list.len() > 0 {
        let rest = experts_below(list.drop_last(), span);
        lemma_experts_below(list.drop_last(), span);
        assert forall|k: int| 0 <= k < experts_below(list, span).len() implies (
        #[trigger] experts_below(list, span)[k]).layer < span by {
            if k < rest.len() {
                assert(rest[k].layer < span);
            }
        }
    }
}

} // verus!
