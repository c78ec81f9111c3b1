//! What a service costs beside its weights and cache: the laws of its host
//! memory and of its draft context.

use crate::estimate::host_buffer;
use crate::estimate::mtp;
use crate::estimate::tuning::{RateTable, Tuning};
use crate::estimate::types::{EstimatorInputs, Fork, Speculation, SplitMode};
use crate::gguf::{GgufSummary, GgufType};
use crate::text;
use vstd::prelude::*;
use vstd::string::*;

verus! {

/// A batch is as long as configured, 512 tokens by default, but no longer
/// than the context and never empty.
pub proof fn lemma_batch_within_context(inputs: EstimatorInputs<'_>)
    ensures
        1 <= host_buffer::batch_tokens(inputs),
        inputs.context > 0 ==> host_buffer::batch_tokens(inputs) <= inputs.context,
        inputs.ubatch matches Some(u) ==> (0 < u <= inputs.context ==> host_buffer::batch_tokens(
            inputs,
        ) == u),
        inputs.ubatch matches Some(u) ==> (0 < inputs.context <= u ==> host_buffer::batch_tokens(
            inputs,
        ) == inputs.context),
        inputs.ubatch is None && inputs.context >= 512 ==> host_buffer::batch_tokens(inputs) == 512,
        inputs.ubatch is None && 0 < inputs.context < 512 ==> host_buffer::batch_tokens(inputs)
            == inputs.context,
        inputs.context == 0 ==> host_buffer::batch_tokens(inputs) == 1,
{
}

/// A cache has room for all its cells, in steps of 256, at least one step
/// and no step too many.
pub proof fn lemma_cells_padded(cells: int)
    requires
        0 <= cells,
    ensures
        host_buffer::padded(cells) % 256 == 0,
        host_buffer::padded(cells) >= cells,
        host_buffer::padded(cells) >= 256,
        host_buffer::padded(cells) > 256 ==> host_buffer::padded(cells) - 256 < cells,
{
}

/// The cells of one stream: its share of the context, padded.
pub proof fn lemma_cells_of_a_stream(inputs: EstimatorInputs<'_>)
    requires
        inputs.context > 0,
    ensures
        inputs.kv_unified == Some(true) || inputs.parallel is None ==> host_buffer::stream_cells(
            inputs,
        ) == host_buffer::padded(inputs.context as int),
        inputs.kv_unified != Some(true) ==> (inputs.parallel matches Some(p) ==> (p > 0
            ==> host_buffer::stream_cells(inputs) == host_buffer::padded(
            inputs.context as int / p as int,
        ))),
{
    assert(inputs.context as int / 1 == inputs.context);
}

/// The pinned arena of an ordinary model on one card, with flash attention:
/// two bytes for every cell and batch token of the mask, and two rows of
/// the hidden size for every batch token, four bytes an entry.
pub proof fn lemma_plain_arena(
    summary: GgufSummary,
    inputs: EstimatorInputs<'_>,
    tuning: Tuning,
    width: u32,
)
    requires
        !(inputs.fork is Ik),
        inputs.flash_attn == Some(true),
        summary.architecture@ != "deepseek4"@,
        summary.architecture@ != "glm-dsa"@,
        summary.u32_at("attention.sliding_window"@) is None,
        summary.u32_at("embedding_length"@) == Some(width),
        !summary.tensors@.contains_key("per_layer_token_embd.weight"@),
        !inputs.host_resident_experts,
        inputs.cache_type_k is None || inputs.cache_type_k == Some(GgufType::F16)
            || inputs.cache_type_k == Some(GgufType::F32),
        inputs.cache_type_v is None || inputs.cache_type_v == Some(GgufType::F16)
            || inputs.cache_type_v == Some(GgufType::F32),
    ensures
        inputs.visible_devices <= 1 || inputs.split_mode == SplitMode::Tensor ==> host_buffer::arena(
            summary,
            inputs,
            tuning,
        ) == host_buffer::stream_cells(inputs) * host_buffer::batch_tokens(inputs) * 2 + 2 * width
            * host_buffer::batch_tokens(inputs) * 4,
        inputs.visible_devices > 1 && inputs.split_mode != SplitMode::Tensor ==> host_buffer::arena(
            summary,
            inputs,
            tuning,
        ) == host_buffer::stream_cells(inputs) * host_buffer::batch_tokens(inputs) * 2 * 4 + 2
            * width * host_buffer::batch_tokens(inputs) * 4,
{
    let c = host_buffer::stream_cells(inputs);
    let b = host_buffer::batch_tokens(inputs);
    assert(0 * c * b * 2 == 0) by (nonlinear_arith);
    let m = host_buffer::mainline_masks(summary, inputs, tuning);
    assert(m == c * b * 2);
    assert(m * 1 == m && m * 4 == c * b * 2 * 4) by (nonlinear_arith)
        requires
            m == c * b * 2,
    ;
}

/// Without flash attention every mask entry takes four bytes in place of
/// two, and every batch token the variant's rate on top; so on each copy.
/// A setting that is absent counts as off here.
pub proof fn lemma_unfused_arena(
    summary: GgufSummary,
    fused: EstimatorInputs<'_>,
    unfused: EstimatorInputs<'_>,
    tuning: Tuning,
)
    requires
        !(fused.fork is Ik),
        fused.flash_attn == Some(true),
        unfused.flash_attn is None || unfused.flash_attn == Some(false),
        unfused == (EstimatorInputs { flash_attn: unfused.flash_attn, ..fused }),
        summary.architecture@ != "deepseek4"@,
        summary.architecture@ != "glm-dsa"@,
        summary.u32_at("attention.sliding_window"@) is None,
        fused.visible_devices <= 1,
    ensures
        host_buffer::arena(summary, unfused, tuning) - host_buffer::arena(summary, fused, tuning)
            == host_buffer::stream_cells(fused) * host_buffer::batch_tokens(fused) * 2
            + tuning.no_flash_attn_rates.rate(host_buffer::variant(summary))
            * host_buffer::batch_tokens(fused),
{
    let c = host_buffer::stream_cells(fused);
    let b = host_buffer::batch_tokens(fused);
    assert(0 * c * b * 2 == 0 && 0 * c * b * 4 == 0 && c * b * 4 == c * b * 2 + c * b * 2)
        by (nonlinear_arith);
    let x = host_buffer::mainline_masks(summary, fused, tuning);
    let y = host_buffer::mainline_masks(summary, unfused, tuning);
    assert(x * 1 == x && y * 1 == y) by (nonlinear_arith);
}

/// A cache that is quantised on either side costs every batch token the
/// architecture's rate.
pub proof fn lemma_quantised_arena(
    summary: GgufSummary,
    plain: EstimatorInputs<'_>,
    narrow: EstimatorInputs<'_>,
    tuning: Tuning,
)
    requires
        !(plain.fork is Ik),
        plain.cache_type_k is None,
        plain.cache_type_v is None,
        narrow == (EstimatorInputs {
            cache_type_k: narrow.cache_type_k,
            cache_type_v: narrow.cache_type_v,
            ..plain
        }),
    ensures
        (narrow.cache_type_k is Some && narrow.cache_type_k != Some(GgufType::F16)
            && narrow.cache_type_k != Some(GgufType::F32)) || (narrow.cache_type_v is Some
            && narrow.cache_type_v != Some(GgufType::F16) && narrow.cache_type_v != Some(
            GgufType::F32,
        )) ==> host_buffer::arena(summary, narrow, tuning) - host_buffer::arena(
            summary,
            plain,
            tuning,
        ) == tuning.quantised_cache_rates.rate(summary.architecture@) * host_buffer::batch_tokens(
            plain,
        ),
        (narrow.cache_type_k is None || narrow.cache_type_k == Some(GgufType::F16)
            || narrow.cache_type_k == Some(GgufType::F32)) && (narrow.cache_type_v is None
            || narrow.cache_type_v == Some(GgufType::F16) || narrow.cache_type_v == Some(
            GgufType::F32,
        )) ==> host_buffer::arena(summary, narrow, tuning) == host_buffer::arena(
            summary,
            plain,
            tuning,
        ),
{
    assert(host_buffer::mainline_masks(summary, plain, tuning) == host_buffer::mainline_masks(
        summary,
        narrow,
        tuning,
    ));
    assert(host_buffer::mask_copies_of(plain) == host_buffer::mask_copies_of(narrow));
}

/// What a sliding window, an indexer or a latent cache changes of the
/// masks. A window has a mask of its own, over the window and one batch;
/// slots that share a cache hold up to two more. An indexer has a second
/// full mask, and a latent cache half a mask.
pub proof fn lemma_masks_of_a_kind(
    summary: GgufSummary,
    inputs: EstimatorInputs<'_>,
    tuning: Tuning,
)
    requires
        inputs.flash_attn == Some(true),
    ensures
        ({
            let full = host_buffer::stream_cells(inputs) * host_buffer::batch_tokens(inputs) * 2;
            let masks = host_buffer::mainline_masks(summary, inputs, tuning);
            let ordinary = summary.architecture@ != "deepseek4"@ && summary.architecture@
                != "glm-dsa"@;
            let none = summary.u32_at("attention.sliding_window"@) is None || summary.u32_at(
                "attention.sliding_window"@,
            ) == Some(0u32);
            &&& none && ordinary ==> masks == full
            &&& none && summary.architecture@ == "glm-dsa"@ ==> masks == full + full
            &&& none && summary.architecture@ == "deepseek4"@ ==> masks == full / 2
            &&& ordinary && (inputs.parallel is None || inputs.parallel == Some(1u32)
                || inputs.kv_unified != Some(true)) ==> (summary.u32_at(
                "attention.sliding_window"@,
            ) matches Some(w) ==> (w > 0 ==> masks == full + host_buffer::padded(
                w + host_buffer::batch_tokens(inputs),
            ) * host_buffer::batch_tokens(inputs) * 2))
            &&& ordinary && inputs.kv_unified == Some(true) ==> (inputs.parallel matches Some(p)
                ==> (summary.u32_at("attention.sliding_window"@) matches Some(w) ==> (p > 1 && w
                > host_buffer::batch_tokens(inputs) ==> masks == full + 3 * (host_buffer::padded(
                w + host_buffer::batch_tokens(inputs),
            ) * host_buffer::batch_tokens(inputs) * 2))))
            &&& ordinary && inputs.kv_unified == Some(true) ==> (inputs.parallel matches Some(p)
                ==> (summary.u32_at("attention.sliding_window"@) matches Some(w) ==> (p > 1 && 0 < w
                <= host_buffer::batch_tokens(inputs) ==> masks == full + 2 * (host_buffer::padded(
                w + host_buffer::batch_tokens(inputs),
            ) * host_buffer::batch_tokens(inputs) * 2))))
        }),
{
    reveal_strlit("deepseek4");
    reveal_strlit("glm-dsa");
    assert("deepseek4"@.len() != "glm-dsa"@.len());
    let c = host_buffer::stream_cells(inputs);
    let b = host_buffer::batch_tokens(inputs);
    assert(0 * c * b * 2 == 0 && 1 * c * b * 2 == c * b * 2) by (nonlinear_arith);
    lemma_batch_within_context(inputs);
    if let Some(w) = summary.u32_at("attention.sliding_window"@) {
        let p = host_buffer::padded(w + b);
        assert(1 * p * b * 2 == p * b * 2 && 2 * p * b * 2 == 2 * (p * b * 2) && 3 * p * b * 2 == 3
            * (p * b * 2)) by (nonlinear_arith);
        let x = (w as int + b - 1) / b;
        if w > b {
            assert(x >= 2) by (nonlinear_arith)
                requires
                    x == (w as int + b - 1) / b,
                    w > b,
                    b >= 1,
            ;
        } else if w > 0 {
            assert(x == 1) by (nonlinear_arith)
                requires
                    x == (w as int + b - 1) / b,
                    0 < w <= b,
                    b >= 1,
            ;
        }
    }
}

/// The arena of a mainline runtime: the masks, once, or four times where
/// layers are split over several cards and no experts live on the host; two
/// rows per batch token; and what a quantised cache, a Gemma E-variant and
/// experts on the host under a tensor split add.
pub proof fn lemma_mainline_arena(
    summary: GgufSummary,
    inputs: EstimatorInputs<'_>,
    tuning: Tuning,
    width: u32,
    blocks: u32,
    extra: int,
)
    requires
        !(inputs.fork is Ik),
        summary.u32_at("embedding_length"@) == Some(width),
        summary.u32_at("block_count"@) == Some(blocks),
        inputs.cache_type_k is None,
        inputs.cache_type_v is None,
        extra == (if summary.tensors@.contains_key("per_layer_token_embd.weight"@) {
            1028 * blocks * host_buffer::batch_tokens(inputs)
        } else {
            0
        }) + (if inputs.host_resident_experts && inputs.split_mode == SplitMode::Tensor {
            tuning.mainline_tensor_moe_bytes_per_nembd * width * host_buffer::batch_tokens(inputs)
        } else {
            0
        }),
    ensures
        inputs.visible_devices > 1 && inputs.split_mode != SplitMode::Tensor
            && !inputs.host_resident_experts ==> host_buffer::arena(summary, inputs, tuning) == 4
            * host_buffer::mainline_masks(summary, inputs, tuning) + 8 * (width
            * host_buffer::batch_tokens(inputs)) + extra,
        inputs.visible_devices <= 1 || inputs.split_mode == SplitMode::Tensor
            || inputs.host_resident_experts ==> host_buffer::arena(summary, inputs, tuning)
            == host_buffer::mainline_masks(summary, inputs, tuning) + 8 * (width
            * host_buffer::batch_tokens(inputs)) + extra,
{
    let b = host_buffer::batch_tokens(inputs);
    assert(2 * width * b * 4 == 8 * (width * b)) by (nonlinear_arith);
    let m = host_buffer::mainline_masks(summary, inputs, tuning);
    let copies = host_buffer::mask_copies_of(inputs);
    assert(copies == 4 || copies == 1);
    assert(copies == 4 ==> m * copies == 4 * m) by (nonlinear_arith);
    assert(copies == 1 ==> m * copies == m) by (nonlinear_arith);
    assert(host_buffer::quantised_extra(summary, inputs, tuning) == 0);
}

/// The arena of ik_llama: a mask over the whole context, one more with a
/// sliding window and two more with sparse attention; one row per batch
/// token; and the experts' staging where the batch is too small for the GPU
/// to take them.
pub proof fn lemma_ik_arena(
    summary: GgufSummary,
    inputs: EstimatorInputs<'_>,
    tuning: Tuning,
    width: u32,
    masks: int,
    bytes: int,
)
    requires
        inputs.fork is Ik,
        inputs.context > 0,
        summary.u32_at("embedding_length"@) == Some(width),
        masks == 1 + (if summary.u32_at("attention.sliding_window"@) is Some && summary.u32_at(
            "attention.sliding_window"@,
        )->0 > 0 {
            1int
        } else {
            0
        }) + (if inputs.fork == (Fork::Ik { dsa: true }) {
            2int
        } else {
            0
        }),
        inputs.flash_attn == Some(true) ==> bytes == 2,
        inputs.flash_attn is None || inputs.flash_attn == Some(false) ==> bytes == 4,
    ensures
        summary.u32_at("expert_count"@) is None ==> host_buffer::arena(summary, inputs, tuning)
            == masks * inputs.context * host_buffer::batch_tokens(inputs) * bytes + width
            * host_buffer::batch_tokens(inputs) * 4,
        summary.u32_at("expert_count"@) matches Some(n) ==> (summary.u32_at("expert_used_count"@)
            matches Some(k) ==> (n > 0 && k > 0 && host_buffer::batch_tokens(inputs) * k < 32 * n
            ==> host_buffer::arena(summary, inputs, tuning) == masks * inputs.context
            * host_buffer::batch_tokens(inputs) * bytes + width * host_buffer::batch_tokens(inputs)
            * 4 + host_buffer::ik_rate(
            tuning.ik_moe_rates,
            summary.architecture@,
            inputs.visible_devices as int,
        ) * width * host_buffer::batch_tokens(inputs))),
        summary.u32_at("expert_count"@) matches Some(n) ==> (summary.u32_at("expert_used_count"@)
            matches Some(k) ==> (host_buffer::batch_tokens(inputs) * k >= 32 * n
            ==> host_buffer::arena(summary, inputs, tuning) == masks * inputs.context
            * host_buffer::batch_tokens(inputs) * bytes + width * host_buffer::batch_tokens(inputs)
            * 4)),
{
    assert(host_buffer::ik_mask_count(summary, inputs) == masks);
    assert(host_buffer::mask_entry_bytes(inputs) == bytes) by {
        if let Some(on) = inputs.flash_attn {
            assert(on || inputs.flash_attn == Some(false));
        }
    }
    assert(host_buffer::context_of(inputs) == inputs.context);
    assert(host_buffer::hidden_size(summary) == width);
}

/// The rate of ik_llama's experts is the one measured for the architecture
/// and the number of cards, where there is one.
pub proof fn lemma_measured_devices_take_their_rate(
    table: RateTable,
    arch: Seq<char>,
    devices: int,
    i: int,
)
    requires
        devices >= 1,
        0 <= i < table.rates@.len(),
        table.rates@[i].0@ == arch + "@"@ + text::digits(devices as nat),
        forall|j: int|
            0 <= j < i ==> (#[trigger] table.rates@[j]).0@ != arch + "@"@ + text::digits(
                devices as nat,
            ),
    ensures
        host_buffer::ik_rate(table, arch, devices) == table.rates@[i].1,
{
    lemma_exact_rate(table.rates@, 0, arch + "@"@ + text::digits(devices as nat), i);
}

proof fn lemma_exact_rate(rates: Seq<(String, u64)>, at: int, key: Seq<char>, i: int)
    requires
        0 <= at <= i < rates.len(),
        rates[i].0@ == key,
        forall|j: int| at <= j < i ==> (#[trigger] rates[j]).0@ != key,
    ensures
        host_buffer::exact_rate(rates, at, key) == Some(rates[i].1),
    decreases rates.len() - at,
{
    if at < i {
        assert(rates[at].0@ != key);
        lemma_exact_rate(rates, at + 1, key, i);
    }
}

/// The variant of a model: its architecture, with a mark for a mixture of
/// experts and one for a Gemma E-variant. A mixture is a model with a
/// tensor of experts.
pub proof fn lemma_variant_named(summary: GgufSummary)
    ensures
        ({
            let moe = exists|i: int|
                0 <= i < summary.tensors.pairs().len() && text::occurs(
                    (#[trigger] summary.tensors.pairs()[i]).0,
                    "_exps"@,
                );
            let e = summary.tensors@.contains_key("per_layer_token_embd.weight"@);
            &&& !moe && !e ==> host_buffer::variant(summary) == summary.architecture@
            &&& moe && !e ==> host_buffer::variant(summary) == summary.architecture@ + "+moe"@
            &&& !moe && e ==> host_buffer::variant(summary) == summary.architecture@ + "+e"@
            &&& moe && e ==> host_buffer::variant(summary) == summary.architecture@ + "+moe"@
                + "+e"@
            &&& moe <==> host_buffer::mixture(summary)
        }),
{
    let a = summary.architecture@;
    assert(a + Seq::<char>::empty() =~= a);
    assert(a + "+moe"@ + Seq::<char>::empty() =~= a + "+moe"@);
}

/// The baseline of a process: that of any, its share for every block, that
/// of a mixture where the model is one, and the correction measured for its
/// variant, runtime and attention, but never below nothing.
pub proof fn lemma_process_baseline(
    summary: GgufSummary,
    ik: bool,
    flash_attn: bool,
    tuning: Tuning,
    offset: int,
    moe: int,
)
    requires
        offset == tuning.baseline_offset.offset(
            host_buffer::variant(summary) + (if ik {
                "@ik"@
            } else {
                ""@
            }) + (if flash_attn {
                ""@
            } else {
                "@nofa"@
            }),
        ),
        host_buffer::mixture(summary) ==> moe == tuning.process_base_bytes_moe,
        !host_buffer::mixture(summary) ==> moe == 0,
    ensures
        ({
            let whole = tuning.process_base_bytes + summary.blocks()
                * tuning.process_base_bytes_per_layer + moe + offset;
            &&& 0 <= whole <= u64::MAX ==> host_buffer::baseline(summary, ik, flash_attn, tuning)
                == whole
            &&& whole < 0 ==> host_buffer::baseline(summary, ik, flash_attn, tuning) == 0
        }),
{
    reveal_strlit("");
    assert(""@ =~= Seq::<char>::empty());
}

/// What a service costs the host: its arena with what is pinned beside it,
/// its process, 20 MiB for every card but the first, what a tensor split
/// adds over several cards, and its draft context.
pub proof fn lemma_host_overhead_adds_up(
    summary: GgufSummary,
    inputs: EstimatorInputs<'_>,
    tuning: Tuning,
    cards: int,
    split: int,
    draft: int,
)
    requires
        inputs.visible_devices > 0 ==> cards == inputs.visible_devices - 1,
        inputs.visible_devices == 0 ==> cards == 0,
        inputs.visible_devices > 1 && inputs.split_mode == SplitMode::Tensor ==> split
            == tuning.tensor_split_baseline.rate(summary.architecture@),
        inputs.visible_devices <= 1 || inputs.split_mode != SplitMode::Tensor ==> split == 0,
        inputs.speculation is Off ==> draft == 0,
        inputs.speculation is EmbeddedMtp ==> draft == tuning.mtp_host_bytes_embedded + 2
            * inputs.context / 1024 * 1048576,
        inputs.speculation is SeparateDraft ==> draft == tuning.mtp_host_bytes_separate_draft + 2
            * inputs.context / 1024 * 1048576,
    ensures
        ({
            let whole = host_buffer::arena(summary, inputs, tuning) + tuning.pinned_extra_bytes
                + host_buffer::baseline(
                summary,
                inputs.fork is Ik,
                inputs.flash_attn == Some(true),
                tuning,
            ) + 20971520 * cards + split + draft;
            host_buffer::arena(summary, inputs, tuning) >= 0 && whole <= u64::MAX
                ==> host_buffer::overhead(summary, inputs, tuning) == whole
        }),
{
}

/// Reserves: the architecture's bytes for every busy slot but the first,
/// the variant's checkpoints for every slot, and the prompt cache as
/// configured, 8 GiB by default.
pub proof fn lemma_reserves(summary: GgufSummary, inputs: EstimatorInputs<'_>, tuning: Tuning)
    ensures
        inputs.parallel matches Some(p) ==> (p > 0 ==> host_buffer::slot_reserve(
            summary.architecture@,
            inputs,
            tuning,
        ) == tuning.per_slot_host_bytes.rate(summary.architecture@) * (p - 1)),
        inputs.parallel is None ==> host_buffer::slot_reserve(summary.architecture@, inputs, tuning)
            == 0,
        inputs.parallel matches Some(p) ==> (p > 0 ==> host_buffer::checkpoint_reserve(
            summary,
            inputs,
            tuning,
        ) == tuning.checkpoint_headroom_bytes.rate(host_buffer::variant(summary)) * p),
        inputs.parallel is None ==> host_buffer::checkpoint_reserve(summary, inputs, tuning)
            == tuning.checkpoint_headroom_bytes.rate(host_buffer::variant(summary)),
        inputs.cache_ram_mb matches Some(mb) ==> host_buffer::prompt_cache(inputs) == mb * 1048576,
        inputs.cache_ram_mb is None ==> host_buffer::prompt_cache(inputs) == 8192 * 1048576,
{
    let r = tuning.per_slot_host_bytes.rate(summary.architecture@) as int;
    let c = tuning.checkpoint_headroom_bytes.rate(host_buffer::variant(summary)) as int;
    assert(r * (1 - 1) == 0 && c * 1 == c) by (nonlinear_arith);
}

/// A separate draft model holds its weights on the GPU, but for the
/// embedding table, and its graph, which grows with the context.
pub proof fn lemma_separate_draft_priced(
    summary: GgufSummary,
    draft: GgufSummary,
    inputs: EstimatorInputs<'_>,
    tuning: Tuning,
    path: &str,
    spec_type: &str,
    embedding: int,
)
    requires
        inputs.speculation == (Speculation::SeparateDraft { path, spec_type }),
        draft.tensors@.contains_key("token_embd.weight"@) ==> embedding
            == draft.tensors@["token_embd.weight"@].byte_size,
        !draft.tensors@.contains_key("token_embd.weight"@) ==> embedding == 0,
        embedding <= draft.total_tensor_bytes,
    ensures
        mtp::weight_share(Some(draft), inputs) == draft.total_tensor_bytes - embedding,
        spec_type@.len() == 0 ==> mtp::overhead(summary, Some(draft), inputs, tuning)
            == draft.total_tensor_bytes - embedding,
        spec_type@.len() > 0 ==> mtp::overhead(summary, Some(draft), inputs, tuning)
            == draft.total_tensor_bytes - embedding + (tuning.draft_model_compute_mib.rate(
            spec_type@,
        ) + tuning.draft_model_compute_mib_per_1k.rate(spec_type@) * inputs.context / 1024)
            * 1048576,
        mtp::overhead(summary, None, inputs, tuning) == 0,
        mtp::weight_share(None, inputs) == 0,
{
}

/// A draft on the model's own head holds the head's cache at f16, keys and
/// values, and on every card its graph, which grows with the context, and
/// what no log accounts for. Without a head, or without speculation, it
/// holds nothing.
pub proof fn lemma_embedded_draft_priced(
    summary: GgufSummary,
    draft: Option<GgufSummary>,
    inputs: EstimatorInputs<'_>,
    tuning: Tuning,
    head: u32,
    heads: u32,
    key: u32,
    value: u32,
    cards: int,
)
    requires
        inputs.speculation is EmbeddedMtp,
        summary.u32_at("nextn_predict_layers"@) == Some(head),
        summary.u32_at("attention.head_count_kv"@) == Some(heads),
        summary.u32_at("attention.key_length"@) == Some(key),
        summary.u32_at("attention.value_length"@) == Some(value),
        inputs.visible_devices > 0 ==> cards == inputs.visible_devices,
        inputs.visible_devices == 0 ==> cards == 1,
    ensures
        head > 0 && heads > 0 ==> mtp::overhead(summary, draft, inputs, tuning) == head * heads * ((
        key + value) * 2) * inputs.context + cards * ((tuning.mtp_draft_compute_base_mib.rate(
            summary.architecture@,
        ) + tuning.mtp_draft_compute_mib_per_1k.rate(summary.architecture@) * (inputs.context as int
            / 1024) / 1000) * 1048576 + tuning.mtp_unaccounted_mib_per_device * 1048576),
        head == 0 || heads == 0 ==> mtp::overhead(summary, draft, inputs, tuning) == 0,
        mtp::weight_share(draft, inputs) == 0,
{
}

/// Without speculation nothing is drafted.
pub proof fn lemma_nothing_drafted(
    summary: GgufSummary,
    draft: Option<GgufSummary>,
    inputs: EstimatorInputs<'_>,
    tuning: Tuning,
)
    requires
        inputs.speculation is Off || (inputs.speculation is EmbeddedMtp && summary.u32_at(
            "nextn_predict_layers"@,
        ) is None),
    ensures
        mtp::overhead(summary, draft, inputs, tuning) == 0,
        mtp::weight_share(draft, inputs) == 0,
{
}

} // verus!
