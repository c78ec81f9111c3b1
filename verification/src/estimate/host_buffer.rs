//! Host memory llama-server holds that is neither weights nor cache.
//!
//! Three terms, whatever the placement: the pinned graph arena, the process
//! baseline, and the prompt cache. The first two are predicted; the last is
//! a cap that fills with use, and is reserved only.

use crate::config::units::MIB;
use crate::estimate::arith;
use crate::estimate::compute_buffer;
use crate::estimate::kv;
use crate::estimate::tuning::{
    RateTable, Tuning, DEFAULT_CACHE_RAM_MB, GEMMA_E_VARIANT_BYTES_PER_LAYER_TOKEN,
    IK_OP_OFFLOAD_MIN_BATCH, KV_CACHE_PAD, MAINLINE_LAYER_SPLIT_MASK_COPIES, MTP_HOST_MIB_PER_1K,
    PROCESS_BASE_BYTES_PER_DEVICE,
};
use crate::estimate::types::{EstimatorInputs, Speculation, SplitMode};
use crate::gguf::GgufSummary;
use crate::text;
use vstd::arithmetic::overflow::CheckedU64;
use vstd::prelude::*;
use vstd::string::*;

verus! {

/// Context of a service, at least one token.
pub open spec fn context_of(inputs: EstimatorInputs<'_>) -> int {
    arith::greatest(inputs.context as int, 1)
}

/// Tokens of one batch against a full cache.
pub open spec fn batch_tokens(inputs: EstimatorInputs<'_>) -> int {
    arith::least(
        context_of(inputs),
        arith::greatest(compute_buffer::batch_of(inputs.ubatch), 1),
    )
}

/// Whether flash attention is known to be on.
pub open spec fn fused(inputs: EstimatorInputs<'_>) -> bool {
    inputs.flash_attn == Some(true)
}

/// Bytes of a mask entry: f16 under flash attention, f32 otherwise.
pub open spec fn mask_entry_bytes(inputs: EstimatorInputs<'_>) -> int {
    if fused(inputs) {
        2
    } else {
        4
    }
}

/// The model's hidden size, zero where undeclared.
pub open spec fn hidden_size(summary: GgufSummary) -> int {
    summary.u32_or("embedding_length"@, 0)
}

/// The model's sliding window, where it declares one.
pub open spec fn window(summary: GgufSummary) -> Option<u32> {
    match summary.u32_at("attention.sliding_window"@) {
        Some(w) => if w > 0 {
            Some(w)
        } else {
            None
        },
        None => None,
    }
}

/// A cell count rounded up to the cache's padding, at least one unit.
pub open spec fn padded(cells: int) -> int {
    arith::greatest(arith::ceil_div(cells, KV_CACHE_PAD as int), 1) * KV_CACHE_PAD
}

/// Whether a model carries expert tensors.
pub open spec fn mixture(summary: GgufSummary) -> bool {
    exists|i: int|
        0 <= i < summary.tensors.pairs().len() && text::occurs(
            (#[trigger] summary.tensors.pairs()[i]).0,
            "_exps"@,
        )
}

/// The architecture, with what tells models of one architecture apart: a
/// mixture of experts, and a Gemma E-variant.
pub open spec fn variant(summary: GgufSummary) -> Seq<char> {
    let key = summary.architecture@ + (if mixture(summary) {
        "+moe"@
    } else {
        Seq::empty()
    });
    key + (if compute_buffer::e_variant(summary) {
        "+e"@
    } else {
        Seq::empty()
    })
}

/// Whether an architecture caches a compressed latent whose mask is half as
/// wide as its cache.
pub open spec fn latent_mask(arch: Seq<char>) -> bool {
    arch == "deepseek4"@
}

/// Masks of full width that an architecture's indexer builds besides the
/// ordinary one.
pub open spec fn indexer_count(arch: Seq<char>) -> int {
    if arch == "glm-dsa"@ {
        1
    } else {
        0
    }
}

/// Cells one stream's cache spans.
pub open spec fn stream_cells(inputs: EstimatorInputs<'_>) -> int {
    padded(context_of(inputs) / inputs.stream_count())
}

/// The ordinary mask.
pub open spec fn base_mask(summary: GgufSummary, inputs: EstimatorInputs<'_>) -> int {
    let full = stream_cells(inputs) * batch_tokens(inputs) * mask_entry_bytes(inputs);
    if latent_mask(summary.architecture@) {
        full / 2
    } else {
        full
    }
}

/// The indexer's masks.
pub open spec fn indexer_masks(summary: GgufSummary, inputs: EstimatorInputs<'_>) -> int {
    indexer_count(summary.architecture@) * stream_cells(inputs) * batch_tokens(inputs)
        * mask_entry_bytes(inputs)
}

/// How many window masks there are: where several slots share a cache, the
/// batch's own and one for each batch the window spans, at most two.
pub open spec fn window_mask_count(inputs: EstimatorInputs<'_>, w: int) -> int {
    if inputs.slots() > 1 && inputs.unified() {
        1 + arith::least(arith::ceil_div(w, batch_tokens(inputs)), 2)
    } else {
        1
    }
}

/// The window masks.
pub open spec fn window_masks(summary: GgufSummary, inputs: EstimatorInputs<'_>) -> int {
    match window(summary) {
        Some(w) => window_mask_count(inputs, w as int) * padded(w + batch_tokens(inputs))
            * batch_tokens(inputs) * mask_entry_bytes(inputs),
        None => 0,
    }
}

/// What the lack of flash attention adds per batch token.
pub open spec fn unfused_extra(
    summary: GgufSummary,
    inputs: EstimatorInputs<'_>,
    tuning: Tuning,
) -> int {
    if fused(inputs) {
        0
    } else {
        tuning.no_flash_attn_rates.rate(variant(summary)) * batch_tokens(inputs)
    }
}

/// How often mainline holds the masks: a layer split across devices
/// replicates them, unless experts live on the host.
pub open spec fn mask_copies_of(inputs: EstimatorInputs<'_>) -> int {
    if inputs.visible_devices > 1 && inputs.split_mode != SplitMode::Tensor
        && !inputs.host_resident_experts {
        MAINLINE_LAYER_SPLIT_MASK_COPIES as int
    } else {
        1
    }
}

/// Whether either half of the cache is quantised.
pub open spec fn quantised(inputs: EstimatorInputs<'_>) -> bool {
    let k = kv::cache_type_of(inputs.cache_type_k);
    let v = kv::cache_type_of(inputs.cache_type_v);
    (k != crate::gguf::GgufType::F16 && k != crate::gguf::GgufType::F32) || (v
        != crate::gguf::GgufType::F16 && v != crate::gguf::GgufType::F32)
}

/// What a quantised cache adds.
pub open spec fn quantised_extra(
    summary: GgufSummary,
    inputs: EstimatorInputs<'_>,
    tuning: Tuning,
) -> int {
    if quantised(inputs) {
        tuning.quantised_cache_rates.rate(summary.architecture@) * batch_tokens(inputs)
    } else {
        0
    }
}

/// The per-layer embedding input of a Gemma E-variant.
pub open spec fn e_variant_extra(summary: GgufSummary, inputs: EstimatorInputs<'_>) -> int {
    if compute_buffer::e_variant(summary) {
        GEMMA_E_VARIANT_BYTES_PER_LAYER_TOKEN * summary.u32_or("block_count"@, 0) * batch_tokens(
            inputs,
        )
    } else {
        0
    }
}

/// What mainline holds of host-resident experts under a tensor split.
pub open spec fn tensor_split_extra(
    summary: GgufSummary,
    inputs: EstimatorInputs<'_>,
    tuning: Tuning,
) -> int {
    if inputs.host_resident_experts && inputs.split_mode == SplitMode::Tensor {
        tuning.mainline_tensor_moe_bytes_per_nembd * hidden_size(summary) * batch_tokens(inputs)
    } else {
        0
    }
}

/// The masks mainline pins, before replication.
pub open spec fn mainline_masks(
    summary: GgufSummary,
    inputs: EstimatorInputs<'_>,
    tuning: Tuning,
) -> int {
    base_mask(summary, inputs) + indexer_masks(summary, inputs) + window_masks(summary, inputs)
        + unfused_extra(summary, inputs, tuning)
}

/// Mainline's arena: the masks in every copy, two hidden-state inputs, and
/// what the cache type and the placement add.
pub open spec fn mainline_arena(
    summary: GgufSummary,
    inputs: EstimatorInputs<'_>,
    tuning: Tuning,
) -> int {
    mainline_masks(summary, inputs, tuning) * mask_copies_of(inputs) + 2 * hidden_size(summary)
        * batch_tokens(inputs) * 4 + quantised_extra(summary, inputs, tuning) + e_variant_extra(
        summary,
        inputs,
    ) + tensor_split_extra(summary, inputs, tuning)
}

/// The rate of the first entry from `i` on whose key is `key`.
pub open spec fn exact_rate(rates: Seq<(String, u64)>, i: int, key: Seq<char>) -> Option<u64>
    decreases rates.len() - i,
{
    if i >= rates.len() {
        None
    } else if rates[i].0@ == key {
        Some(rates[i].1)
    } else {
        exact_rate(rates, i + 1, key)
    }
}

/// The largest rate whose key begins with `prefix`.
pub open spec fn worst_rate(rates: Seq<(String, u64)>, prefix: Seq<char>) -> Option<u64>
    decreases rates.len(),
{
    if rates.len() == 0 {
        None
    } else if prefix.is_prefix_of(rates.last().0@) {
        match worst_rate(rates.drop_last(), prefix) {
            Some(r) => if r > rates.last().1 {
                Some(r)
            } else {
                Some(rates.last().1)
            },
            None => Some(rates.last().1),
        }
    } else {
        worst_rate(rates.drop_last(), prefix)
    }
}

/// The rate of an architecture on so many devices; where that count was
/// never measured, the worst of the architecture.
pub open spec fn ik_rate(table: RateTable, arch: Seq<char>, devices: int) -> u64 {
    let prefix = arch + "@"@;
    match exact_rate(table.rates@, 0, prefix + text::digits(arith::greatest(devices, 1) as nat)) {
        Some(r) => r,
        None => match worst_rate(table.rates@, prefix) {
            Some(r) => r,
            None => table.fallback,
        },
    }
}

/// Whether ik keeps expert intermediates on the host: it does where a batch
/// is too small to be shipped to the GPU.
pub open spec fn ik_experts_on_host(summary: GgufSummary, inputs: EstimatorInputs<'_>) -> bool {
    let experts = summary.u32_or("expert_count"@, 0);
    let used = summary.u32_or("expert_used_count"@, 0);
    experts > 0 && used > 0 && batch_tokens(inputs) * used < IK_OP_OFFLOAD_MIN_BATCH * experts
}

/// What ik's host-side expert intermediates take: in proportion to the
/// hidden size.
pub open spec fn ik_experts(
    summary: GgufSummary,
    inputs: EstimatorInputs<'_>,
    tuning: Tuning,
) -> int {
    if ik_experts_on_host(summary, inputs) {
        ik_rate(tuning.ik_moe_rates, summary.architecture@, inputs.visible_devices as int)
            * hidden_size(summary) * batch_tokens(inputs)
    } else {
        0
    }
}

/// Masks ik builds: one, one more for a sliding window, and two more for
/// its sparse attention.
pub open spec fn ik_mask_count(summary: GgufSummary, inputs: EstimatorInputs<'_>) -> int {
    1 + (if window(summary) is Some {
        1int
    } else {
        0
    }) + (if inputs.fork.sparse() {
        2int
    } else {
        0
    })
}

/// ik's arena: every mask spans the whole cache, and one hidden-state input
/// is pinned.
pub open spec fn ik_arena(
    summary: GgufSummary,
    inputs: EstimatorInputs<'_>,
    tuning: Tuning,
) -> int {
    ik_mask_count(summary, inputs) * context_of(inputs) * batch_tokens(inputs) * mask_entry_bytes(
        inputs,
    ) + hidden_size(summary) * batch_tokens(inputs) * 4 + ik_experts(summary, inputs, tuning)
}

/// Bytes of pinned host memory that the graph allocator reserves.
pub open spec fn arena(summary: GgufSummary, inputs: EstimatorInputs<'_>, tuning: Tuning) -> int {
    if inputs.fork is Ik {
        ik_arena(summary, inputs, tuning)
    } else {
        mainline_arena(summary, inputs, tuning)
    }
}

proof fn lemma_padded(cells: int)
    requires
        cells >= 0,
    ensures
        padded(cells) >= 256,
        padded(cells) >= cells,
        padded(cells) <= cells + 256,
{
}

proof fn lemma_mainline_terms(summary: GgufSummary, inputs: EstimatorInputs<'_>, tuning: Tuning)
    ensures
        stream_cells(inputs) * batch_tokens(inputs) * mask_entry_bytes(inputs) >= 0,
        base_mask(summary, inputs) >= 0,
        indexer_masks(summary, inputs) >= 0,
        window_masks(summary, inputs) >= 0,
        unfused_extra(summary, inputs, tuning) >= 0,
        mainline_masks(summary, inputs, tuning) <= mainline_masks(summary, inputs, tuning)
            * mask_copies_of(inputs),
        2 * hidden_size(summary) * batch_tokens(inputs) * 4 >= 0,
        quantised_extra(summary, inputs, tuning) >= 0,
        e_variant_extra(summary, inputs) >= 0,
        tensor_split_extra(summary, inputs, tuning) >= 0,
{
    let t = batch_tokens(inputs);
    let e = mask_entry_bytes(inputs);
    let c = stream_cells(inputs);
    let h = hidden_size(summary);
    let s = inputs.stream_count();
    let ctx = context_of(inputs);
    assert(ctx / s >= 0) by (nonlinear_arith)
        requires
            ctx >= 1,
            s >= 1,
    ;
    lemma_padded(ctx / s);
    assert(c * t * e >= 0) by (nonlinear_arith)
        requires
            c >= 0,
            t >= 0,
            e >= 0,
    ;
    let n = indexer_count(summary.architecture@);
    assert(n * c * t * e >= 0) by (nonlinear_arith)
        requires
            n >= 0,
            c >= 0,
            t >= 0,
            e >= 0,
    ;
    if let Some(w) = window(summary) {
        lemma_padded(w + t);
        assert((w as int + t - 1) / t >= 0) by (nonlinear_arith)
            requires
                t >= 1,
                w >= 0,
        ;
        let m = window_mask_count(inputs, w as int);
        let p = padded(w + t);
        assert(m * p * t * e >= 0) by (nonlinear_arith)
            requires
                m >= 0,
                p >= 0,
                t >= 0,
                e >= 0,
        ;
    }
    let r = tuning.no_flash_attn_rates.rate(variant(summary)) as int;
    let q = tuning.quantised_cache_rates.rate(summary.architecture@) as int;
    let b = summary.u32_or("block_count"@, 0);
    let m = tuning.mainline_tensor_moe_bytes_per_nembd as int;
    assert(r * t >= 0 && q * t >= 0 && m * h * t >= 0 && 1028 * b * t >= 0 && 2 * h * t * 4 >= 0)
        by (nonlinear_arith)
        requires
            r >= 0,
            q >= 0,
            m >= 0,
            h >= 0,
            b >= 0,
            t >= 0,
    ;
    let masks = mainline_masks(summary, inputs, tuning);
    let copies = mask_copies_of(inputs);
    assert(masks <= masks * copies) by (nonlinear_arith)
        requires
            masks >= 0,
            copies >= 1,
    ;
}

fn mask_bytes(inputs: &EstimatorInputs<'_>) -> (r: u64)
    ensures
        r == mask_entry_bytes(*inputs),
{
    if inputs.flash_attn == Some(true) {
        2
    } else {
        4
    }
}

fn context_tokens(inputs: &EstimatorInputs<'_>) -> (r: u64)
    ensures
        r == context_of(*inputs),
        1 <= r <= u32::MAX,
{
    if inputs.context >= 1 {
        inputs.context as u64
    } else {
        1
    }
}

fn tokens_of_batch(inputs: &EstimatorInputs<'_>) -> (r: u64)
    ensures
        r == batch_tokens(*inputs),
        1 <= r <= u32::MAX,
{
    let ubatch: u32 = compute_buffer::batch(inputs.ubatch);
    let ubatch: u64 = if ubatch >= 1 {
        ubatch as u64
    } else {
        1
    };
    arith::smaller(context_tokens(inputs), ubatch)
}

fn embedding_length(summary: &GgufSummary) -> (r: u64)
    ensures
        r == hidden_size(*summary),
        r <= u32::MAX,
{
    summary.meta_u32_or("embedding_length", 0)
}

fn sliding_window(summary: &GgufSummary) -> (r: Option<u32>)
    ensures
        r == window(*summary),
{
    match summary.meta_u32("attention.sliding_window") {
        Some(w) => if w > 0 {
            Some(w)
        } else {
            None
        },
        None => None,
    }
}

fn pad_to_kv_cache(cells: u64) -> (r: u64)
    requires
        cells <= 0x2_0000_0000,
    ensures
        r == padded(cells as int),
{
    let units: u64 = arith::div_up(cells, KV_CACHE_PAD);
    proof {
        lemma_padded(cells as int);
    }
    if units >= 1 {
        units * KV_CACHE_PAD
    } else {
        KV_CACHE_PAD
    }
}

/// Whether an architecture caches a compressed latent whose mask is half as
/// wide as its cache.
pub fn is_mla(arch: &str) -> (r: bool)
    ensures
        r == latent_mask(arch@),
{
    text::same(arch, "deepseek4")
}

/// Whether the model carries expert tensors.
pub fn has_experts(summary: &GgufSummary) -> (r: bool)
    ensures
        r == mixture(*summary),
{
    let n: usize = summary.tensors.len();
    for i in 0..n
        invariant
            n == summary.tensors.pairs().len(),
            forall|j: int|
                0 <= j < i ==> !text::occurs((#[trigger] summary.tensors.pairs()[j]).0, "_exps"@),
    {
        if text::contains(summary.tensors.key_at(i), "_exps") {
            assert(text::occurs(summary.tensors.pairs()[i as int].0, "_exps"@));
            return true;
        }
    }
    false
}

fn variant_key(summary: &GgufSummary) -> (r: String)
    ensures
        r@ == variant(*summary),
{
    let mut key: String = summary.architecture.clone();
    if has_experts(summary) {
        key.append("+moe");
    } else {
        assert(key@ + Seq::<char>::empty() =~= key@);
    }
    let ghost half = key@;
    if compute_buffer::is_gemma_e_variant(summary) {
        key.append("+e");
    } else {
        assert(half + Seq::<char>::empty() =~= half);
    }
    key
}

fn quantised_kv(inputs: &EstimatorInputs<'_>) -> (r: bool)
    ensures
        r == quantised(*inputs),
{
    kv::is_quantised(kv::cache_type(inputs.cache_type_k)) || kv::is_quantised(
        kv::cache_type(inputs.cache_type_v),
    )
}

fn mask_copies(inputs: &EstimatorInputs<'_>) -> (r: u64)
    ensures
        r == mask_copies_of(*inputs),
{
    let split_across_devices: bool = inputs.visible_devices > 1 && (inputs.split_mode
        == SplitMode::Layer || inputs.split_mode == SplitMode::Row);
    if split_across_devices && !inputs.host_resident_experts {
        MAINLINE_LAYER_SPLIT_MASK_COPIES
    } else {
        1
    }
}

fn cells_of_stream(inputs: &EstimatorInputs<'_>) -> (r: u64)
    ensures
        r == stream_cells(*inputs),
{
    let context: u64 = context_tokens(inputs);
    let streams: u64 = inputs.streams() as u64;
    proof {
        assert(context as int / streams as int <= context) by (nonlinear_arith)
            requires
                streams >= 1,
                context >= 0,
        ;
    }
    pad_to_kv_cache(context / streams)
}

fn base_mask_size(summary: &GgufSummary, inputs: &EstimatorInputs<'_>) -> (r: CheckedU64)
    ensures
        r@ == base_mask(*summary, *inputs),
{
    let tokens: u64 = tokens_of_batch(inputs);
    let entry: u64 = mask_bytes(inputs);
    let cells: u64 = cells_of_stream(inputs);
    if is_mla(summary.architecture.as_str()) {
        let half: u64 = entry / 2;
        proof {
            assert(cells * tokens * entry == 2 * (cells * tokens * half)) by (nonlinear_arith)
                requires
                    entry == 2 * half,
            ;
        }
        arith::product3(cells, tokens, half)
    } else {
        arith::product3(cells, tokens, entry)
    }
}

fn indexer_mask_size(summary: &GgufSummary, inputs: &EstimatorInputs<'_>) -> (r: CheckedU64)
    ensures
        r@ == indexer_masks(*summary, *inputs),
{
    let count: u64 = if text::same(summary.architecture.as_str(), "glm-dsa") {
        1
    } else {
        0
    };
    arith::product4(count, cells_of_stream(inputs), tokens_of_batch(inputs), mask_bytes(inputs))
}

fn window_mask_size(summary: &GgufSummary, inputs: &EstimatorInputs<'_>) -> (r: CheckedU64)
    ensures
        r@ == window_masks(*summary, *inputs),
{
    match sliding_window(summary) {
        Some(w) => {
            let tokens: u64 = tokens_of_batch(inputs);
            let shared: bool = inputs.slot_count() > 1 && inputs.is_unified();
            let masks: u64 = if shared {
                1 + arith::smaller(arith::div_up(w as u64, tokens), 2)
            } else {
                1
            };
            arith::product4(masks, pad_to_kv_cache(w as u64 + tokens), tokens, mask_bytes(inputs))
        },
        None => CheckedU64::new(0),
    }
}

fn e_variant_size(summary: &GgufSummary, inputs: &EstimatorInputs<'_>) -> (r: CheckedU64)
    ensures
        r@ == e_variant_extra(*summary, *inputs),
{
    if !compute_buffer::is_gemma_e_variant(summary) {
        return CheckedU64::new(0);
    }
    arith::product3(
        GEMMA_E_VARIANT_BYTES_PER_LAYER_TOKEN,
        summary.meta_u32_or("block_count", 0),
        tokens_of_batch(inputs),
    )
}

fn tensor_split_moe_size(
    summary: &GgufSummary,
    inputs: &EstimatorInputs<'_>,
    tuning: &Tuning,
) -> (r: CheckedU64)
    ensures
        r@ == tensor_split_extra(*summary, *inputs, *tuning),
{
    if !inputs.host_resident_experts || inputs.split_mode != SplitMode::Tensor {
        return CheckedU64::new(0);
    }
    arith::product3(
        tuning.mainline_tensor_moe_bytes_per_nembd,
        embedding_length(summary),
        tokens_of_batch(inputs),
    )
}

fn mainline_graph_size(
    summary: &GgufSummary,
    inputs: &EstimatorInputs<'_>,
    tuning: &Tuning,
) -> (r: CheckedU64)
    ensures
        r@ == mainline_arena(*summary, *inputs, *tuning),
{
    let tokens: u64 = tokens_of_batch(inputs);
    let unfused: CheckedU64 = if inputs.flash_attn == Some(true) {
        CheckedU64::new(0)
    } else {
        arith::product(tuning.no_flash_attn_rates.lookup(variant_key(summary).as_str()), tokens)
    };
    let cache: CheckedU64 = if quantised_kv(inputs) {
        arith::product(
            tuning.quantised_cache_rates.lookup(summary.architecture.as_str()),
            tokens,
        )
    } else {
        CheckedU64::new(0)
    };
    let masks: CheckedU64 = base_mask_size(summary, inputs).add_checked(
        &indexer_mask_size(summary, inputs),
    ).add_checked(&window_mask_size(summary, inputs)).add_checked(&unfused);
    let hidden: CheckedU64 = arith::product4(2, embedding_length(summary), tokens, 4);
    masks.mul_value(mask_copies(inputs)).add_checked(&hidden).add_checked(&cache).add_checked(
        &e_variant_size(summary, inputs),
    ).add_checked(&tensor_split_moe_size(summary, inputs, tuning))
}

/// The rate of an architecture on so many devices; where that count was
/// never measured, the worst of the architecture.
pub fn ik_moe_rate(table: &RateTable, arch: &str, devices: u32) -> (r: u64)
    ensures
        r == ik_rate(*table, arch@, devices as int),
{
    let prefix: String = arch.to_owned().concat("@");
    let count: u64 = if devices >= 1 {
        devices as u64
    } else {
        1
    };
    let exact: String = prefix.clone().concat(text::decimal(count).as_str());
    for i in 0..table.rates.len()
        invariant
            exact_rate(table.rates@, 0, exact@) == exact_rate(table.rates@, i as int, exact@),
            ik_rate(*table, arch@, devices as int) == (match exact_rate(table.rates@, 0, exact@) {
                Some(r) => r,
                None => match worst_rate(table.rates@, prefix@) {
                    Some(r) => r,
                    None => table.fallback,
                },
            }),
    {
        if text::same(table.rates[i].0.as_str(), exact.as_str()) {
            return table.rates[i].1;
        }
    }
    let mut worst: Option<u64> = None;
    for i in 0..table.rates.len()
        invariant
            worst == worst_rate(table.rates@.take(i as int), prefix@),
    {
        proof {
            assert(table.rates@.take(i + 1).drop_last() =~= table.rates@.take(i as int));
        }
        if text::starts_with(table.rates[i].0.as_str(), prefix.as_str()) {
            let rate: u64 = table.rates[i].1;
            worst = match worst {
                Some(r) => if r > rate {
                    Some(r)
                } else {
                    Some(rate)
                },
                None => Some(rate),
            };
        }
    }
    assert(table.rates@.take(table.rates@.len() as int) =~= table.rates@);
    match worst {
        Some(r) => r,
        None => table.fallback,
    }
}

fn ik_moe_cpu_size(summary: &GgufSummary, inputs: &EstimatorInputs<'_>, tuning: &Tuning) -> (r:
    CheckedU64)
    ensures
        r@ == ik_experts(*summary, *inputs, *tuning),
{
    let experts: u64 = summary.meta_u32_or("expert_count", 0);
    let used: u64 = summary.meta_u32_or("expert_used_count", 0);
    if experts == 0 || used == 0 {
        return CheckedU64::new(0);
    }
    let tokens: u64 = tokens_of_batch(inputs);
    assert(tokens * used <= u64::MAX) by (nonlinear_arith)
        requires
            tokens <= u32::MAX,
            used <= u32::MAX,
    ;
    if tokens * used >= IK_OP_OFFLOAD_MIN_BATCH * experts {
        return CheckedU64::new(0);
    }
    arith::product3(
        ik_moe_rate(&tuning.ik_moe_rates, summary.architecture.as_str(), inputs.visible_devices),
        embedding_length(summary),
        tokens,
    )
}

fn ik_graph_size(summary: &GgufSummary, inputs: &EstimatorInputs<'_>, tuning: &Tuning) -> (r:
    CheckedU64)
    ensures
        r@ == ik_arena(*summary, *inputs, *tuning),
{
    let tokens: u64 = tokens_of_batch(inputs);
    let swa: u64 = if sliding_window(summary).is_some() {
        1
    } else {
        0
    };
    let sparse: u64 = if inputs.fork.dsa() {
        2
    } else {
        0
    };
    arith::product4(
        1 + swa + sparse,
        context_tokens(inputs),
        tokens,
        mask_bytes(inputs),
    ).add_checked(&arith::product3(embedding_length(summary), tokens, 4)).add_checked(
        &ik_moe_cpu_size(summary, inputs, tuning),
    )
}

fn graph_size(summary: &GgufSummary, inputs: &EstimatorInputs<'_>, tuning: &Tuning) -> (r: CheckedU64)
    ensures
        r@ == arena(*summary, *inputs, *tuning),
{
    if inputs.fork.is_ik() {
        ik_graph_size(summary, inputs, tuning)
    } else {
        mainline_graph_size(summary, inputs, tuning)
    }
}

/// Bytes of pinned host memory that the graph allocator reserves.
///
/// Mainline pins the attention mask against one stream's share of the
/// cache, two hidden-state inputs, and a second mask for a sliding window;
/// it holds the masks four times under a layer split. ik pins every mask
/// against the whole cache and one hidden-state input.
pub fn pinned_graph_bytes(
    summary: &GgufSummary,
    inputs: &EstimatorInputs<'_>,
    tuning: &Tuning,
) -> (r: u64)
    requires
        arena(*summary, *inputs, *tuning) <= u64::MAX,
    ensures
        r == arena(*summary, *inputs, *tuning),
{
    graph_size(summary, inputs, tuning).unwrap()
}

/// The key of a model's baseline correction: its variant, the runtime, and
/// whether flash attention is off.
pub open spec fn baseline_key(summary: GgufSummary, ik: bool, flash_attn: bool) -> Seq<char> {
    let key = variant(summary) + (if ik {
        "@ik"@
    } else {
        Seq::empty()
    });
    key + (if flash_attn {
        Seq::empty()
    } else {
        "@nofa"@
    })
}

/// The baseline by layer count, before correction.
pub open spec fn layer_baseline(summary: GgufSummary, tuning: Tuning) -> int {
    tuning.process_base_bytes + summary.blocks() * tuning.process_base_bytes_per_layer + (
    if mixture(summary) {
        tuning.process_base_bytes_moe as int
    } else {
        0
    })
}

/// A sum held to what a `u64` can be.
pub open spec fn clamped(n: int) -> int {
    if n < 0 {
        0
    } else if n > u64::MAX {
        u64::MAX as int
    } else {
        n
    }
}

/// The process's fixed host baseline for a model.
pub open spec fn baseline(
    summary: GgufSummary,
    ik: bool,
    flash_attn: bool,
    tuning: Tuning,
) -> int {
    clamped(
        layer_baseline(summary, tuning) + tuning.baseline_offset.offset(
            baseline_key(summary, ik, flash_attn),
        ),
    )
}

fn layer_baseline_size(summary: &GgufSummary, tuning: &Tuning) -> (r: CheckedU64)
    ensures
        r@ == layer_baseline(*summary, *tuning),
{
    let moe: u64 = if has_experts(summary) {
        tuning.process_base_bytes_moe
    } else {
        0
    };
    arith::product(summary.block_total() as u64, tuning.process_base_bytes_per_layer).add_value(
        tuning.process_base_bytes,
    ).add_value(moe)
}

/// The process's fixed host baseline for a model.
pub fn process_base_bytes(
    summary: &GgufSummary,
    ik_llama: bool,
    flash_attn: bool,
    tuning: &Tuning,
) -> (r: u64)
    requires
        layer_baseline(*summary, *tuning) <= u64::MAX,
    ensures
        r == baseline(*summary, ik_llama, flash_attn, *tuning),
{
    let mut key: String = variant_key(summary);
    let ghost plain = key@;
    if ik_llama {
        key.append("@ik");
    } else {
        assert(plain + Seq::<char>::empty() =~= plain);
    }
    let ghost forked = key@;
    if !flash_attn {
        key.append("@nofa");
    } else {
        assert(forked + Seq::<char>::empty() =~= forked);
    }
    let base: u64 = layer_baseline_size(summary, tuning).unwrap();
    let offset: i64 = tuning.baseline_offset.lookup(key.as_str());
    match base.checked_add_signed(offset) {
        Some(r) => r,
        None => if offset < 0 {
            0
        } else {
            u64::MAX
        },
    }
}

/// Host bytes of a draft context: by its shape, and linear in the context.
pub open spec fn draft_host_bytes(inputs: EstimatorInputs<'_>, tuning: Tuning) -> int {
    match inputs.speculation {
        Speculation::Off => 0,
        Speculation::EmbeddedMtp => tuning.mtp_host_bytes_embedded + MTP_HOST_MIB_PER_1K
            * inputs.context / 1024 * MIB,
        Speculation::SeparateDraft { path, spec_type } => tuning.mtp_host_bytes_separate_draft
            + MTP_HOST_MIB_PER_1K * inputs.context / 1024 * MIB,
    }
}

/// Host bytes of the devices beyond the first.
pub open spec fn device_host_bytes(inputs: EstimatorInputs<'_>) -> int {
    PROCESS_BASE_BYTES_PER_DEVICE * arith::reduced(inputs.visible_devices as int, 1)
}

/// Host baseline that a tensor split across devices adds.
pub open spec fn tensor_split_host_bytes(
    summary: GgufSummary,
    inputs: EstimatorInputs<'_>,
    tuning: Tuning,
) -> int {
    if inputs.visible_devices > 1 && inputs.split_mode == SplitMode::Tensor {
        tuning.tensor_split_baseline.rate(summary.architecture@) as int
    } else {
        0
    }
}

/// Host bytes a service is predicted to hold beside weights and cache.
pub open spec fn overhead(
    summary: GgufSummary,
    inputs: EstimatorInputs<'_>,
    tuning: Tuning,
) -> int {
    let pinned = arith::capped_sum(
        arena(summary, inputs, tuning),
        tuning.pinned_extra_bytes as int,
    );
    let process = arith::capped_sum(
        pinned,
        baseline(summary, inputs.fork is Ik, fused(inputs), tuning),
    );
    let devices = arith::capped_sum(process, device_host_bytes(inputs));
    let split = arith::capped_sum(devices, tensor_split_host_bytes(summary, inputs, tuning));
    arith::capped_sum(split, draft_host_bytes(inputs, tuning))
}

/// Whether the terms of the host overhead can be counted.
pub open spec fn overhead_fits(
    summary: GgufSummary,
    inputs: EstimatorInputs<'_>,
    tuning: Tuning,
) -> bool {
    &&& arena(summary, inputs, tuning) <= u64::MAX
    &&& layer_baseline(summary, tuning) <= u64::MAX
    &&& draft_host_bytes(inputs, tuning) <= u64::MAX
}

fn draft_host_size(inputs: &EstimatorInputs<'_>, tuning: &Tuning) -> (r: CheckedU64)
    ensures
        r@ == draft_host_bytes(*inputs, *tuning),
{
    let base: u64 = match inputs.speculation {
        Speculation::Off => return CheckedU64::new(0),
        Speculation::EmbeddedMtp => tuning.mtp_host_bytes_embedded,
        Speculation::SeparateDraft { .. } => tuning.mtp_host_bytes_separate_draft,
    };
    let context_mib: u64 = MTP_HOST_MIB_PER_1K * (inputs.context as u64) / 1024;
    CheckedU64::new(base).add_value(context_mib * MIB)
}

/// Whether the terms of the host overhead can be counted.
pub fn is_overhead_countable(
    summary: &GgufSummary,
    inputs: &EstimatorInputs<'_>,
    tuning: &Tuning,
) -> (r: bool)
    ensures
        r == overhead_fits(*summary, *inputs, *tuning),
{
    !graph_size(summary, inputs, tuning).is_overflowed() && !layer_baseline_size(
        summary,
        tuning,
    ).is_overflowed() && !draft_host_size(inputs, tuning).is_overflowed()
}

/// Host bytes a service is predicted to hold beside weights and cache.
///
/// What slots, checkpoints and the prompt cache may come to hold is not
/// part of it: an idle service holds none of that.
pub fn host_overhead_bytes(
    summary: &GgufSummary,
    inputs: &EstimatorInputs<'_>,
    tuning: &Tuning,
) -> (r: u64)
    requires
        overhead_fits(*summary, *inputs, *tuning),
    ensures
        r == overhead(*summary, *inputs, *tuning),
{
    let extra_devices: u64 = inputs.visible_devices.saturating_sub(1) as u64;
    let device_bytes: u64 = PROCESS_BASE_BYTES_PER_DEVICE * extra_devices;
    let tensor_split: u64 = if inputs.visible_devices > 1 && inputs.split_mode
        == SplitMode::Tensor {
        tuning.tensor_split_baseline.lookup(summary.architecture.as_str())
    } else {
        0
    };
    let flash_attn: bool = inputs.flash_attn == Some(true);
    let arena_bytes: u64 = pinned_graph_bytes(summary, inputs, tuning);
    let base: u64 = process_base_bytes(summary, inputs.fork.is_ik(), flash_attn, tuning);
    let draft: u64 = draft_host_size(inputs, tuning).unwrap();
    arena_bytes.saturating_add(tuning.pinned_extra_bytes).saturating_add(base).saturating_add(
        device_bytes,
    ).saturating_add(tensor_split).saturating_add(draft)
}

/// Host bytes of the slots beyond the first when all are busy.
pub open spec fn slot_reserve(
    arch: Seq<char>,
    inputs: EstimatorInputs<'_>,
    tuning: Tuning,
) -> int {
    tuning.per_slot_host_bytes.rate(arch) * (inputs.slots() - 1)
}

fn slot_host_size(arch: &str, inputs: &EstimatorInputs<'_>, tuning: &Tuning) -> (r: CheckedU64)
    ensures
        r@ == slot_reserve(arch@, *inputs, *tuning),
{
    arith::product(tuning.per_slot_host_bytes.lookup(arch), (inputs.slot_count() - 1) as u64)
}

/// Host bytes of the slots beyond the first when all are busy. Reserved,
/// not predicted.
pub fn slot_host_bytes(arch: &str, inputs: &EstimatorInputs<'_>, tuning: &Tuning) -> (r: u64)
    requires
        slot_reserve(arch@, *inputs, *tuning) <= u64::MAX,
    ensures
        r == slot_reserve(arch@, *inputs, *tuning),
{
    slot_host_size(arch, inputs, tuning).unwrap()
}

/// Host bytes of every slot's checkpoints.
pub open spec fn checkpoint_reserve(
    summary: GgufSummary,
    inputs: EstimatorInputs<'_>,
    tuning: Tuning,
) -> int {
    tuning.checkpoint_headroom_bytes.rate(variant(summary)) * inputs.slots()
}

fn checkpoint_size(summary: &GgufSummary, inputs: &EstimatorInputs<'_>, tuning: &Tuning) -> (r:
    CheckedU64)
    ensures
        r@ == checkpoint_reserve(*summary, *inputs, *tuning),
{
    arith::product(
        tuning.checkpoint_headroom_bytes.lookup(variant_key(summary).as_str()),
        inputs.slot_count() as u64,
    )
}

/// Whether what slots and checkpoints may come to hold can be counted.
pub fn is_reserve_countable(
    summary: &GgufSummary,
    inputs: &EstimatorInputs<'_>,
    tuning: &Tuning,
) -> (r: bool)
    ensures
        r == (slot_reserve(summary.architecture@, *inputs, *tuning) <= u64::MAX
            && checkpoint_reserve(*summary, *inputs, *tuning) <= u64::MAX),
{
    !slot_host_size(summary.architecture.as_str(), inputs, tuning).is_overflowed()
        && !checkpoint_size(summary, inputs, tuning).is_overflowed()
}

/// Host bytes of every slot's checkpoints, once prompts are long enough to
/// be checkpointed. Reserved, not predicted.
pub fn checkpoint_headroom_bytes(
    summary: &GgufSummary,
    inputs: &EstimatorInputs<'_>,
    tuning: &Tuning,
) -> (r: u64)
    requires
        checkpoint_reserve(*summary, *inputs, *tuning) <= u64::MAX,
    ensures
        r == checkpoint_reserve(*summary, *inputs, *tuning),
{
    checkpoint_size(summary, inputs, tuning).unwrap()
}

/// The prompt cache's cap in bytes.
pub open spec fn prompt_cache(inputs: EstimatorInputs<'_>) -> int {
    (match inputs.cache_ram_mb {
        Some(mb) => mb as int,
        None => DEFAULT_CACHE_RAM_MB as int,
    }) * MIB
}

/// The prompt cache's cap in bytes; nothing where it is switched off.
/// Reserved, not predicted.
pub fn prompt_cache_bytes(inputs: &EstimatorInputs<'_>) -> (r: u64)
    ensures
        r == prompt_cache(*inputs),
{
    let mb: u32 = match inputs.cache_ram_mb {
        Some(mb) => mb,
        None => DEFAULT_CACHE_RAM_MB,
    };
    mb as u64 * MIB
}

/// A tensor split fuses the cards: mainline's arena is what it is on one
/// card, where no experts live on the host.
pub proof fn lemma_tensor_split_is_one_card(
    summary: GgufSummary,
    one: EstimatorInputs<'_>,
    many: EstimatorInputs<'_>,
    tuning: Tuning,
)
    requires
        one.fork == crate::estimate::types::Fork::Mainline,
        one.visible_devices <= 1,
        !one.host_resident_experts,
        many == (EstimatorInputs {
            visible_devices: many.visible_devices,
            split_mode: SplitMode::Tensor,
            ..one
        }),
    ensures
        arena(summary, many, tuning) == arena(summary, one, tuning),
{
}

/// A layer split across cards holds mainline's masks four times where one
/// card holds them once, and nothing else of the arena changes.
pub proof fn lemma_layer_split_replicates_masks(
    summary: GgufSummary,
    one: EstimatorInputs<'_>,
    many: EstimatorInputs<'_>,
    tuning: Tuning,
)
    requires
        one.fork == crate::estimate::types::Fork::Mainline,
        one.visible_devices <= 1,
        !one.host_resident_experts,
        one.split_mode != SplitMode::Tensor,
        many.visible_devices > 1,
        many == (EstimatorInputs { visible_devices: many.visible_devices, ..one }),
    ensures
        arena(summary, many, tuning) == arena(summary, one, tuning) + (
        MAINLINE_LAYER_SPLIT_MASK_COPIES - 1) * mainline_masks(summary, one, tuning),
        arena(summary, one, tuning) < arena(summary, many, tuning),
{
    let m = mainline_masks(summary, one, tuning);
    assert(mainline_masks(summary, many, tuning) == m);
    lemma_mainline_terms(summary, one, tuning);
    lemma_base_mask_positive(summary, one);
    assert(m * 4 == m + 3 * m) by (nonlinear_arith);
    assert(m * 1 == m) by (nonlinear_arith);
    assert(m > 0);
}

proof fn lemma_base_mask_positive(summary: GgufSummary, inputs: EstimatorInputs<'_>)
    ensures
        base_mask(summary, inputs) > 0,
{
    let c = stream_cells(inputs);
    let t = batch_tokens(inputs);
    let e = mask_entry_bytes(inputs);
    let ctx = context_of(inputs);
    let s = inputs.stream_count();
    assert(ctx / s >= 0) by (nonlinear_arith)
        requires
            ctx >= 1,
            s >= 1,
    ;
    lemma_padded(ctx / s);
    assert(c * t * e >= 512) by (nonlinear_arith)
        requires
            c >= 256,
            t >= 1,
            e >= 2,
    ;
}

/// Beyond the first, each visible device of a tensor split costs its own
/// context and nothing else, as long as the sum stays in range.
pub proof fn lemma_device_costs_its_context(
    summary: GgufSummary,
    few: EstimatorInputs<'_>,
    many: EstimatorInputs<'_>,
    tuning: Tuning,
)
    requires
        few.fork == crate::estimate::types::Fork::Mainline,
        few.split_mode == SplitMode::Tensor,
        2 <= few.visible_devices <= many.visible_devices,
        many == (EstimatorInputs { visible_devices: many.visible_devices, ..few }),
        overhead(summary, many, tuning) < u64::MAX,
    ensures
        overhead(summary, many, tuning) - overhead(summary, few, tuning)
            == PROCESS_BASE_BYTES_PER_DEVICE * (many.visible_devices - few.visible_devices),
{
    lemma_mainline_terms(summary, few, tuning);
    assert(arena(summary, many, tuning) == arena(summary, few, tuning));
    let x = device_host_bytes(few);
    let y = device_host_bytes(many);
    assert(y - x == PROCESS_BASE_BYTES_PER_DEVICE * (many.visible_devices - few.visible_devices))
        by (nonlinear_arith)
        requires
            x == PROCESS_BASE_BYTES_PER_DEVICE * (few.visible_devices - 1),
            y == PROCESS_BASE_BYTES_PER_DEVICE * (many.visible_devices - 1),
    ;
    assert(0 <= x <= y) by (nonlinear_arith)
        requires
            x == PROCESS_BASE_BYTES_PER_DEVICE * (few.visible_devices - 1),
            y == PROCESS_BASE_BYTES_PER_DEVICE * (many.visible_devices - 1),
            1 <= few.visible_devices <= many.visible_devices,
    ;
    assert(draft_host_bytes(many, tuning) == draft_host_bytes(few, tuning));
    assert(draft_host_bytes(few, tuning) >= 0);
}

/// The two draft shapes differ in their base alone.
pub proof fn lemma_draft_shapes_differ_by_base(
    embedded: EstimatorInputs<'_>,
    separate: EstimatorInputs<'_>,
    tuning: Tuning,
)
    requires
        embedded.speculation is EmbeddedMtp,
        separate.speculation is SeparateDraft,
        embedded.context == separate.context,
    ensures
        draft_host_bytes(embedded, tuning) - draft_host_bytes(separate, tuning)
            == tuning.mtp_host_bytes_embedded - tuning.mtp_host_bytes_separate_draft,
{
}

/// Either draft shape costs the host more than no draft does, by its base and
/// what grows with the context, and the two differ by their bases, as long as
/// the sums stay in range.
pub proof fn lemma_drafts_cost_the_host(
    summary: GgufSummary,
    off: EstimatorInputs<'_>,
    embedded: EstimatorInputs<'_>,
    separate: EstimatorInputs<'_>,
    tuning: Tuning,
)
    requires
        off.speculation is Off,
        embedded.speculation is EmbeddedMtp,
        separate.speculation is SeparateDraft,
        embedded == (EstimatorInputs { speculation: embedded.speculation, ..off }),
        separate == (EstimatorInputs { speculation: separate.speculation, ..off }),
        tuning.mtp_host_bytes_embedded > 0,
        tuning.mtp_host_bytes_separate_draft > 0,
        overhead(summary, embedded, tuning) < u64::MAX,
        overhead(summary, separate, tuning) < u64::MAX,
    ensures
        overhead(summary, off, tuning) < overhead(summary, embedded, tuning),
        overhead(summary, off, tuning) < overhead(summary, separate, tuning),
        overhead(summary, embedded, tuning) - overhead(summary, separate, tuning)
            == tuning.mtp_host_bytes_embedded - tuning.mtp_host_bytes_separate_draft,
{
    assert(arena(summary, embedded, tuning) == arena(summary, off, tuning));
    assert(arena(summary, separate, tuning) == arena(summary, off, tuning));
    assert(draft_host_bytes(off, tuning) == 0);
}

proof fn lemma_exact_rate(rates: Seq<(String, u64)>, i: int, key: Seq<char>)
    requires
        0 <= i,
    ensures
        match exact_rate(rates, i, key) {
            Some(r) => exists|k: int|
                i <= k < rates.len() && (#[trigger] rates[k]).0@ == key && rates[k].1 == r,
            None => forall|k: int| i <= k < rates.len() ==> (#[trigger] rates[k]).0@ != key,
        },
    decreases rates.len() - i,
{
    if i < rates.len() && rates[i].0@ != key {
        lemma_exact_rate(rates, i + 1, key);
    }
}

proof fn lemma_worst_rate(rates: Seq<(String, u64)>, prefix: Seq<char>)
    ensures
        match worst_rate(rates, prefix) {
            Some(r) => {
                &&& forall|k: int|
                    0 <= k < rates.len() && prefix.is_prefix_of((#[trigger] rates[k]).0@)
                        ==> rates[k].1 <= r
                &&& exists|k: int|
                    0 <= k < rates.len() && prefix.is_prefix_of((#[trigger] rates[k]).0@)
                        && rates[k].1 == r
            },
            None => forall|k: int|
                0 <= k < rates.len() ==> !prefix.is_prefix_of((#[trigger] rates[k]).0@),
        },
    decreases rates.len(),
{
    if rates.len() > 0 {
        let rest = rates.drop_last();
        let last = rates.len() - 1;
        lemma_worst_rate(rest, prefix);
        assert forall|k: int| 0 <= k < rest.len() implies rest[k] == #[trigger] rates[k] by {}
        assert(rates[last] == rates.last());
        if let Some(r) = worst_rate(rest, prefix) {
            let k = choose|k: int|
                0 <= k < rest.len() && prefix.is_prefix_of((#[trigger] rest[k]).0@) && rest[k].1
                    == r;
            assert(rates[k] == rest[k]);
        }
    }
}

/// The rate of ik's host-side experts. No device counts as one. A measured
/// count of devices takes its own rate; a count that was never measured takes
/// the greatest of the architecture's, so that it never reserves too little;
/// an architecture that was never measured takes the fallback.
pub proof fn lemma_unmeasured_devices_take_the_worst(table: RateTable, arch: Seq<char>, devices: u32)
    ensures
        ik_rate(table, arch, 0) == ik_rate(table, arch, 1),
        ({
            let prefix = arch + "@"@;
            let key = prefix + text::digits(arith::greatest(devices as int, 1) as nat);
            let rate = ik_rate(table, arch, devices as int);
            let measured = exists|k: int|
                0 <= k < table.rates@.len() && (#[trigger] table.rates@[k]).0@ == key;
            let known = exists|k: int|
                0 <= k < table.rates@.len() && prefix.is_prefix_of((#[trigger] table.rates@[k]).0@);
            &&& measured ==> exists|k: int|
                0 <= k < table.rates@.len() && (#[trigger] table.rates@[k]).0@ == key
                    && table.rates@[k].1 == rate
            &&& !measured && known ==> {
                &&& forall|k: int|
                    0 <= k < table.rates@.len() && prefix.is_prefix_of(
                        (#[trigger] table.rates@[k]).0@,
                    ) ==> table.rates@[k].1 <= rate
                &&& exists|k: int|
                    0 <= k < table.rates@.len() && prefix.is_prefix_of(
                        (#[trigger] table.rates@[k]).0@,
                    ) && table.rates@[k].1 == rate
            }
            &&& !measured && !known ==> rate == table.fallback
        }),
{
    let prefix = arch + "@"@;
    let key = prefix + text::digits(arith::greatest(devices as int, 1) as nat);
    lemma_exact_rate(table.rates@, 0, key);
    lemma_worst_rate(table.rates@, prefix);
}

/// An idle service of one slot reserves nothing for slots, and switching
/// the prompt cache off reserves nothing for it.
pub proof fn lemma_nothing_reserved_for_nothing(
    arch: Seq<char>,
    inputs: EstimatorInputs<'_>,
    tuning: Tuning,
)
    ensures
        inputs.slots() == 1 ==> slot_reserve(arch, inputs, tuning) == 0,
        inputs.cache_ram_mb == Some(0u32) ==> prompt_cache(inputs) == 0,
{
    let rate = tuning.per_slot_host_bytes.rate(arch) as int;
    assert(rate * 0 == 0) by (nonlinear_arith);
}

} // verus!
