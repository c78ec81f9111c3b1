//! What a draft context for multi-token prediction adds.
//!
//! On the target model's own head the draft keeps an f16 cache of its own
//! for the trailing blocks, and a compute buffer on every device. A separate
//! draft model shares the target's cache; it costs its weights and a compute
//! buffer.

use crate::config::units::MIB;
use crate::estimate::arith;
use crate::estimate::tuning::Tuning;
use crate::estimate::types::{EstimatorInputs, Speculation};
use crate::gguf::GgufSummary;
use vstd::arithmetic::overflow::CheckedU64;
use vstd::prelude::*;
use vstd::string::*;

verus! {

/// Weight bytes a draft model holds on a GPU: all but its token embeddings.
pub open spec fn draft_weights(draft: GgufSummary) -> int {
    arith::reduced(
        draft.total_tensor_bytes as int,
        if draft.tensors@.contains_key("token_embd.weight"@) {
            draft.tensors@["token_embd.weight"@].byte_size as int
        } else {
            0
        },
    )
}

fn draft_model_gpu_weight_bytes(draft: &GgufSummary) -> (r: u64)
    ensures
        r == draft_weights(*draft),
{
    let token_embd: u64 = match draft.tensors.get("token_embd.weight") {
        Some(t) => t.byte_size,
        None => 0,
    };
    draft.total_tensor_bytes.saturating_sub(token_embd)
}

/// MiB of a separate draft's compute buffer, by its mechanism.
pub open spec fn draft_compute_mib(context: int, spec_type: Seq<char>, tuning: Tuning) -> int {
    tuning.draft_model_compute_mib.rate(spec_type) + tuning.draft_model_compute_mib_per_1k.rate(
        spec_type,
    ) * context / 1024
}

/// Bytes a separate draft model adds. Without a mechanism there is no rate
/// to charge, and its weights are all that is counted.
pub open spec fn separate_draft(
    draft: GgufSummary,
    context: int,
    spec_type: Seq<char>,
    tuning: Tuning,
) -> int {
    if spec_type.len() == 0 {
        draft_weights(draft)
    } else {
        draft_weights(draft) + draft_compute_mib(context, spec_type, tuning) * MIB
    }
}

/// Whether the terms of a separate draft can be counted.
pub open spec fn separate_draft_fits(
    draft: GgufSummary,
    context: int,
    spec_type: Seq<char>,
    tuning: Tuning,
) -> bool {
    spec_type.len() > 0 ==> {
        &&& tuning.draft_model_compute_mib_per_1k.rate(spec_type) * context <= u64::MAX
        &&& separate_draft(draft, context, spec_type, tuning) <= u64::MAX
    }
}

/// Bytes a separate draft model adds, where its terms can be counted.
fn checked_separate_draft(
    draft: &GgufSummary,
    context: u32,
    spec_type: &str,
    tuning: &Tuning,
) -> (r: Option<u64>)
    ensures
        match r {
            Some(bytes) => separate_draft_fits(*draft, context as int, spec_type@, *tuning) && bytes
                == separate_draft(*draft, context as int, spec_type@, *tuning),
            None => !separate_draft_fits(*draft, context as int, spec_type@, *tuning),
        },
{
    let weights: u64 = draft_model_gpu_weight_bytes(draft);
    if spec_type.unicode_len() == 0 {
        return Some(weights);
    }
    let base: u64 = tuning.draft_model_compute_mib.lookup(spec_type);
    let slope: u64 = tuning.draft_model_compute_mib_per_1k.lookup(spec_type);
    let growth: CheckedU64 = arith::product(slope, context as u64);
    if growth.is_overflowed() {
        return None;
    }
    CheckedU64::new(growth.unwrap() / 1024).add_value(base).mul_value(MIB).add_value(
        weights,
    ).to_option()
}

/// One device's share of the draft context's compute buffer.
pub open spec fn draft_share(summary: GgufSummary, context: int, tuning: Tuning) -> int {
    (tuning.mtp_draft_compute_base_mib.rate(summary.architecture@)
        + tuning.mtp_draft_compute_mib_per_1k.rate(summary.architecture@) * (context / 1024) / 1000)
        * MIB
}

/// Bytes of the draft cache: f16, whatever the main cache's type.
pub open spec fn draft_cache(summary: GgufSummary, context: int) -> int {
    summary.u32_or("nextn_predict_layers"@, 0) * summary.u32_or("attention.head_count_kv"@, 0) * ((
    summary.u32_or("attention.key_length"@, 0) + summary.u32_or("attention.value_length"@, 0)) * 2)
        * context
}

/// Devices a child drafts on.
pub open spec fn device_count(inputs: EstimatorInputs<'_>) -> int {
    arith::greatest(inputs.visible_devices as int, 1)
}

/// Whether a model has a draft head of its own to run.
pub open spec fn has_head(summary: GgufSummary) -> bool {
    summary.u32_or("nextn_predict_layers"@, 0) > 0 && summary.u32_or("attention.head_count_kv"@, 0)
        > 0
}

/// Bytes a draft context on the model's own head adds.
pub open spec fn embedded_head(
    summary: GgufSummary,
    inputs: EstimatorInputs<'_>,
    tuning: Tuning,
) -> int {
    if !has_head(summary) {
        0
    } else {
        draft_cache(summary, inputs.context as int) + device_count(inputs) * (draft_share(
            summary,
            inputs.context as int,
            tuning,
        ) + tuning.mtp_unaccounted_mib_per_device * MIB)
    }
}

/// Whether the terms of an embedded head can be counted.
pub open spec fn embedded_head_fits(
    summary: GgufSummary,
    inputs: EstimatorInputs<'_>,
    tuning: Tuning,
) -> bool {
    has_head(summary) ==> {
        &&& tuning.mtp_draft_compute_mib_per_1k.rate(summary.architecture@) * (
        inputs.context as int / 1024) <= u64::MAX
        &&& embedded_head(summary, inputs, tuning) <= u64::MAX
    }
}

/// Bytes a service's draft context adds. A separate draft that could not be
/// read adds nothing; it is never taken for a head of the target's own.
pub open spec fn overhead(
    summary: GgufSummary,
    draft: Option<GgufSummary>,
    inputs: EstimatorInputs<'_>,
    tuning: Tuning,
) -> int {
    match inputs.speculation {
        Speculation::Off => 0,
        Speculation::EmbeddedMtp => embedded_head(summary, inputs, tuning),
        Speculation::SeparateDraft { path, spec_type } => match draft {
            Some(d) => separate_draft(d, inputs.context as int, spec_type@, tuning),
            None => 0,
        },
    }
}

/// Whether what a draft context adds can be counted.
pub open spec fn overhead_fits(
    summary: GgufSummary,
    draft: Option<GgufSummary>,
    inputs: EstimatorInputs<'_>,
    tuning: Tuning,
) -> bool {
    match inputs.speculation {
        Speculation::Off => true,
        Speculation::EmbeddedMtp => embedded_head_fits(summary, inputs, tuning),
        Speculation::SeparateDraft { path, spec_type } => match draft {
            Some(d) => separate_draft_fits(d, inputs.context as int, spec_type@, tuning),
            None => true,
        },
    }
}

/// The summary behind an optional reference.
pub open spec fn deref(draft: Option<&GgufSummary>) -> Option<GgufSummary> {
    match draft {
        Some(d) => Some(*d),
        None => None,
    }
}

/// The share of `overhead` that is tensors read from a GGUF.
pub open spec fn weight_share(draft: Option<GgufSummary>, inputs: EstimatorInputs<'_>) -> int {
    match (inputs.speculation, draft) {
        (Speculation::SeparateDraft { path, spec_type }, Some(d)) => draft_weights(d),
        _ => 0,
    }
}

/// The share of a draft context's bytes that is tensors read from a GGUF;
/// only a separate draft reads any.
pub fn mtp_weight_bytes(draft: Option<&GgufSummary>, inputs: &EstimatorInputs<'_>) -> (r: u64)
    ensures
        r == weight_share(deref(draft), *inputs),
{
    match inputs.speculation {
        Speculation::SeparateDraft { .. } => match draft {
            Some(d) => draft_model_gpu_weight_bytes(d),
            None => 0,
        },
        _ => 0,
    }
}

/// One device's share of the draft context's compute buffer, however large;
/// none where the growth with the context cannot be counted.
fn draft_compute_share(summary: &GgufSummary, context: u32, tuning: &Tuning) -> (r: Option<
    CheckedU64,
>)
    ensures
        ({
            let growth = tuning.mtp_draft_compute_mib_per_1k.rate(summary.architecture@) * (
            context as int / 1024);
            match r {
                Some(share) => growth <= u64::MAX && share@ == draft_share(
                    *summary,
                    context as int,
                    *tuning,
                ),
                None => growth > u64::MAX,
            }
        }),
{
    let arch = summary.architecture.as_str();
    let base: u64 = tuning.mtp_draft_compute_base_mib.lookup(arch);
    let slope: u64 = tuning.mtp_draft_compute_mib_per_1k.lookup(arch);
    let growth: CheckedU64 = arith::product(slope, (context / 1024) as u64);
    if growth.is_overflowed() {
        return None;
    }
    Some(CheckedU64::new(growth.unwrap() / 1000).add_value(base).mul_value(MIB))
}

/// Bytes a draft context on the model's own head adds, where its terms can
/// be counted.
fn checked_embedded_head(
    summary: &GgufSummary,
    inputs: &EstimatorInputs<'_>,
    tuning: &Tuning,
) -> (r: Option<u64>)
    ensures
        match r {
            Some(bytes) => embedded_head_fits(*summary, *inputs, *tuning) && bytes == embedded_head(
                *summary,
                *inputs,
                *tuning,
            ),
            None => !embedded_head_fits(*summary, *inputs, *tuning),
        },
{
    let nextn: u64 = summary.meta_u32_or("nextn_predict_layers", 0);
    let heads: u64 = summary.meta_u32_or("attention.head_count_kv", 0);
    if nextn == 0 || heads == 0 {
        return Some(0);
    }
    let key: u64 = summary.meta_u32_or("attention.key_length", 0);
    let value: u64 = summary.meta_u32_or("attention.value_length", 0);
    let devices: u64 = if inputs.visible_devices >= 1 {
        inputs.visible_devices as u64
    } else {
        1
    };
    let cache: CheckedU64 = arith::product4(
        nextn,
        heads,
        (key + value) * 2,
        inputs.context as u64,
    );
    let share: CheckedU64 = match draft_compute_share(summary, inputs.context, tuning) {
        Some(share) => share,
        None => return None,
    };
    let per_device: CheckedU64 = share.add_checked(
        &arith::product(tuning.mtp_unaccounted_mib_per_device, MIB),
    );
    let compute: CheckedU64 = CheckedU64::new(devices).mul_checked(&per_device);
    cache.add_checked(&compute).to_option()
}

/// Bytes a service's draft context adds, where they can be counted.
fn checked_overhead(
    summary: &GgufSummary,
    draft: Option<&GgufSummary>,
    inputs: &EstimatorInputs<'_>,
    tuning: &Tuning,
) -> (r: Option<u64>)
    ensures
        match r {
            Some(bytes) => overhead_fits(*summary, deref(draft), *inputs, *tuning) && bytes
                == overhead(*summary, deref(draft), *inputs, *tuning),
            None => !overhead_fits(*summary, deref(draft), *inputs, *tuning),
        },
{
    match inputs.speculation {
        Speculation::Off => Some(0),
        Speculation::EmbeddedMtp => checked_embedded_head(summary, inputs, tuning),
        Speculation::SeparateDraft { spec_type, .. } => match draft {
            Some(d) => checked_separate_draft(d, inputs.context, spec_type, tuning),
            None => Some(0),
        },
    }
}

/// Whether what a draft context adds can be counted.
pub fn is_countable(
    summary: &GgufSummary,
    draft: Option<&GgufSummary>,
    inputs: &EstimatorInputs<'_>,
    tuning: &Tuning,
) -> (r: bool)
    ensures
        r == overhead_fits(*summary, deref(draft), *inputs, *tuning),
{
    checked_overhead(summary, draft, inputs, tuning).is_some()
}

/// Bytes a service's draft context adds.
pub fn mtp_overhead_bytes(
    summary: &GgufSummary,
    draft: Option<&GgufSummary>,
    inputs: &EstimatorInputs<'_>,
    tuning: &Tuning,
) -> (r: u64)
    requires
        overhead_fits(*summary, deref(draft), *inputs, *tuning),
    ensures
        r == overhead(*summary, deref(draft), *inputs, *tuning),
{
    checked_overhead(summary, draft, inputs, tuning).unwrap()
}

/// There is one draft context, however many slots there are and whether or
/// not they share a cache, and it never takes the main cache's type.
pub proof fn lemma_overhead_ignores_slots_and_cache(
    summary: GgufSummary,
    draft: Option<GgufSummary>,
    a: EstimatorInputs<'_>,
    b: EstimatorInputs<'_>,
    tuning: Tuning,
)
    requires
        b == (EstimatorInputs {
            parallel: b.parallel,
            kv_unified: b.kv_unified,
            cache_type_k: b.cache_type_k,
            cache_type_v: b.cache_type_v,
            ..a
        }),
    ensures
        overhead(summary, draft, a, tuning) == overhead(summary, draft, b, tuning),
{
}

/// The weights of a draft are part of what it adds, and an embedded head
/// reads none.
pub proof fn lemma_weight_share(
    summary: GgufSummary,
    draft: Option<GgufSummary>,
    inputs: EstimatorInputs<'_>,
    tuning: Tuning,
)
    ensures
        0 <= weight_share(draft, inputs),
        inputs.speculation is SeparateDraft ==> weight_share(draft, inputs) <= overhead(
            summary,
            draft,
            inputs,
            tuning,
        ),
        !(inputs.speculation is SeparateDraft) ==> weight_share(draft, inputs) == 0,
{
    if let Speculation::SeparateDraft { path, spec_type } = inputs.speculation {
        if draft is Some {
            let slope = tuning.draft_model_compute_mib_per_1k.rate(spec_type@);
            assert(slope * inputs.context >= 0) by (nonlinear_arith);
            let mib = draft_compute_mib(inputs.context as int, spec_type@, tuning);
            assert(mib * MIB >= 0) by (nonlinear_arith)
                requires
                    mib >= 0,
            ;
        }
    }
}

} // verus!
