//! KV cache of llama-family models, with sliding-window and shared-cache
//! layers.

use crate::estimate::arith;
use crate::estimate::kv;
use crate::estimate::recurrent;
use crate::estimate::types::EstimatorInputs;
use crate::gguf::{GgufSummary, GgufType};
use crate::text;
use vstd::arithmetic::overflow::CheckedU64;
use vstd::prelude::*;

verus! {

/// Length of the sliding-window group of an architecture whose pattern the
/// GGUF does not carry: every group ends in one global layer.
pub open spec fn swa_group(arch: Seq<char>) -> Option<u32> {
    if arch == "gemma2"@ || arch == "gemma3"@ {
        Some(6)
    } else if arch == "laguna"@ {
        Some(4)
    } else {
        None
    }
}

/// Length of the sliding-window group of an architecture whose pattern the
/// GGUF does not carry.
pub fn hardcoded_swa_group_size(arch: &str) -> (r: Option<u32>)
    ensures
        r == swa_group(arch@),
{
    if text::same(arch, "gemma2") || text::same(arch, "gemma3") {
        Some(6)
    } else if text::same(arch, "laguna") {
        Some(4)
    } else {
        None
    }
}

/// The KV head counts a model declares; where it declares none it has one
/// per query head.
pub open spec fn head_counts(summary: GgufSummary) -> Seq<u32> {
    let declared = match summary.value("attention.head_count_kv"@) {
        Some(v) => Some(v),
        None => summary.value("attention.head_count"@),
    };
    match declared {
        Some(v) => match v.u32s_view() {
            Some(counts) => counts,
            None => Seq::empty(),
        },
        None => Seq::empty(),
    }
}

/// KV heads by layer: one declared count stands for all `n` layers.
pub open spec fn layer_heads(summary: GgufSummary, n: int) -> Seq<u32> {
    let declared = head_counts(summary);
    if declared.len() == 1 {
        Seq::new(n as nat, |i: int| declared[0])
    } else {
        declared
    }
}

/// Head width where the model declares none: the hidden size divided among
/// the query heads, or 128.
pub open spec fn derived_head_dim(summary: GgufSummary) -> int {
    match (summary.u32_at("embedding_length"@), summary.u32_at("attention.head_count"@)) {
        (Some(width), Some(heads)) => if heads > 0 {
            width as int / heads as int
        } else {
            128
        },
        _ => 128,
    }
}

/// Width of a key.
pub open spec fn key_length(summary: GgufSummary) -> int {
    summary.u32_or("attention.key_length"@, derived_head_dim(summary))
}

/// Width of a value.
pub open spec fn value_length(summary: GgufSummary) -> int {
    summary.u32_or("attention.value_length"@, derived_head_dim(summary))
}

/// Bytes per head and token of a full-attention layer.
pub open spec fn full_width(summary: GgufSummary, inputs: EstimatorInputs<'_>) -> int {
    kv::head_bytes(
        key_length(summary),
        value_length(summary),
        kv::cache_type_of(inputs.cache_type_k),
        kv::cache_type_of(inputs.cache_type_v),
    )
}

/// Bytes per head and token of a sliding-window layer.
pub open spec fn window_width(summary: GgufSummary, inputs: EstimatorInputs<'_>) -> int {
    kv::head_bytes(
        summary.u32_or("attention.key_length_swa"@, key_length(summary)),
        summary.u32_or("attention.value_length_swa"@, value_length(summary)),
        kv::cache_type_of(inputs.cache_type_k),
        kv::cache_type_of(inputs.cache_type_v),
    )
}

/// The per-layer sliding-window flags a model declares, where there is one
/// for each layer.
pub open spec fn window_flags(summary: GgufSummary, n: int) -> Option<Seq<bool>> {
    match summary.value("attention.sliding_window_pattern"@) {
        Some(v) => match v.bools_view() {
            Some(flags) => if flags.len() == n {
                Some(flags)
            } else {
                None
            },
            None => None,
        },
        None => None,
    }
}

/// Whether layer `i` attends to a sliding window only.
pub open spec fn slides(summary: GgufSummary, n: int, i: int) -> bool {
    match window_flags(summary, n) {
        Some(flags) => flags[i],
        None => match swa_group(summary.architecture@) {
            Some(group) => (i + 1) % (group as int) != 0,
            None => false,
        },
    }
}

/// Tokens that layer `i` caches.
///
/// A sliding-window layer caches its window for each slot of its own, even
/// where the slots share the full cache; ik_llama caches the whole context
/// in every layer.
pub open spec fn layer_tokens(
    summary: GgufSummary,
    inputs: EstimatorInputs<'_>,
    n: int,
    i: int,
) -> int {
    if slides(summary, n, i) && !(inputs.fork is Ik) {
        arith::least(
            inputs.context as int,
            summary.u32_or("attention.sliding_window"@, inputs.context as int),
        ) * (if inputs.unified() {
            inputs.slots()
        } else {
            1
        })
    } else {
        inputs.context as int
    }
}

/// Cache bytes of layer `i`.
pub open spec fn layer_cache(
    summary: GgufSummary,
    inputs: EstimatorInputs<'_>,
    n: int,
    i: int,
) -> int {
    layer_heads(summary, n)[i] * (if slides(summary, n, i) && !(inputs.fork is Ik) {
        window_width(summary, inputs)
    } else {
        full_width(summary, inputs)
    }) * layer_tokens(summary, inputs, n, i)
}

/// Cache bytes of the first `k` layers.
pub open spec fn cache_of_layers(
    summary: GgufSummary,
    inputs: EstimatorInputs<'_>,
    n: int,
    k: int,
) -> int
    decreases k,
{
    if k <= 0 {
        0
    } else {
        cache_of_layers(summary, inputs, n, k - 1) + layer_cache(summary, inputs, n, k - 1)
    }
}

/// How many of the first `k` layers have no KV heads; those are recurrent.
pub open spec fn headless(heads: Seq<u32>, k: int) -> int
    decreases k,
{
    if k <= 0 {
        0
    } else {
        headless(heads, k - 1) + (if heads[k - 1] == 0 {
            1int
        } else {
            0
        })
    }
}

/// Layers with a cache of their own: the last `shared_kv_layers` reuse an
/// earlier one's.
pub open spec fn own_cache_layers(summary: GgufSummary, n: int) -> int {
    arith::reduced(n, summary.u32_or("attention.shared_kv_layers"@, 0))
}

/// Whether the model declares KV heads for its `n` layers.
pub open spec fn heads_known(summary: GgufSummary, n: int) -> bool {
    n > 0 && layer_heads(summary, n).len() == n
}

/// Bytes of attention cache and recurrent state for the whole context.
pub open spec fn context_bytes(summary: GgufSummary, n: int, inputs: EstimatorInputs<'_>) -> int {
    cache_of_layers(summary, inputs, n, own_cache_layers(summary, n)) + recurrent::state(
        summary,
        headless(layer_heads(summary, n), own_cache_layers(summary, n)),
        inputs,
    )
}

/// Context bytes per token: the share of `context_bytes` that one token of
/// the context carries.
pub open spec fn per_token(summary: GgufSummary, n: int, inputs: EstimatorInputs<'_>) -> int {
    if !heads_known(summary, n) || inputs.context == 0 {
        0
    } else {
        context_bytes(summary, n, inputs) / (inputs.context as int)
    }
}

proof fn lemma_head_bytes(k: int, v: int, a: GgufType, b: GgufType)
    requires
        k >= 0,
        v >= 0,
    ensures
        kv::head_bytes(k, v, a, b) >= 0,
{
    let x = kv::block_bytes(a);
    let y = kv::block_bytes(b);
    assert(k * x + v * y >= 0) by (nonlinear_arith)
        requires
            k >= 0,
            v >= 0,
            x >= 0,
            y >= 0,
    ;
}

proof fn lemma_dims(summary: GgufSummary)
    ensures
        0 <= derived_head_dim(summary) <= u32::MAX,
        0 <= key_length(summary) <= u32::MAX,
        0 <= value_length(summary) <= u32::MAX,
{
    if let (Some(w), Some(h)) = (
        summary.u32_at("embedding_length"@),
        summary.u32_at("attention.head_count"@),
    ) {
        if h > 0 {
            assert(0 <= w as int / h as int <= w) by (nonlinear_arith)
                requires
                    h > 0,
                    w >= 0,
            ;
        }
    }
}

proof fn lemma_layer_cache_nonnegative(
    summary: GgufSummary,
    inputs: EstimatorInputs<'_>,
    n: int,
    i: int,
)
    ensures
        layer_cache(summary, inputs, n, i) >= 0,
        0 <= layer_tokens(summary, inputs, n, i) <= u64::MAX,
        0 <= window_width(summary, inputs),
        0 <= full_width(summary, inputs),
{
    lemma_dims(summary);
    let a = kv::cache_type_of(inputs.cache_type_k);
    let b = kv::cache_type_of(inputs.cache_type_v);
    lemma_head_bytes(key_length(summary), value_length(summary), a, b);
    lemma_head_bytes(
        summary.u32_or("attention.key_length_swa"@, key_length(summary)),
        summary.u32_or("attention.value_length_swa"@, value_length(summary)),
        a,
        b,
    );
    let capped = arith::least(
        inputs.context as int,
        summary.u32_or("attention.sliding_window"@, inputs.context as int),
    );
    let times = if inputs.unified() {
        inputs.slots()
    } else {
        1
    };
    assert(0 <= capped * times <= u64::MAX) by (nonlinear_arith)
        requires
            0 <= capped <= u32::MAX,
            1 <= times <= u32::MAX,
    ;
    let h = layer_heads(summary, n)[i] as int;
    let w = if slides(summary, n, i) && !(inputs.fork is Ik) {
        window_width(summary, inputs)
    } else {
        full_width(summary, inputs)
    };
    let t = layer_tokens(summary, inputs, n, i);
    assert(h * w * t >= 0) by (nonlinear_arith)
        requires
            h >= 0,
            w >= 0,
            t >= 0,
    ;
}

/// KV heads by layer: one declared count stands for all layers.
fn heads_by_layer(summary: &GgufSummary, n_layers: u32) -> (r: Vec<u32>)
    ensures
        r@ == layer_heads(*summary, n_layers as int),
{
    let declared: Option<Vec<u32>> = match summary.meta("attention.head_count_kv") {
        Some(v) => v.as_u32_array(),
        None => match summary.meta("attention.head_count") {
            Some(v) => v.as_u32_array(),
            None => None,
        },
    };
    let counts: Vec<u32> = match declared {
        Some(counts) => counts,
        None => Vec::new(),
    };
    assert(counts@ =~= head_counts(*summary));
    if counts.len() == 1 {
        let first: u32 = counts[0];
        let mut r: Vec<u32> = Vec::new();
        let mut i: u32 = 0;
        while i < n_layers
            invariant
                i <= n_layers,
                r@ == Seq::new(i as nat, |j: int| first),
            decreases n_layers - i,
        {
            r.push(first);
            i += 1;
            assert(r@ =~= Seq::new(i as nat, |j: int| first));
        }
        r
    } else {
        counts
    }
}

/// The head width that follows from the model's widths.
fn head_dim(summary: &GgufSummary) -> (r: u64)
    ensures
        r == derived_head_dim(*summary),
        r <= u32::MAX,
{
    proof {
        lemma_dims(*summary);
    }
    let width: Option<u32> = summary.meta_u32("embedding_length");
    let heads: Option<u32> = summary.meta_u32("attention.head_count");
    match (width, heads) {
        (Some(w), Some(h)) => if h > 0 {
            (w / h) as u64
        } else {
            128
        },
        _ => 128,
    }
}

fn flags_by_layer(summary: &GgufSummary, n_layers: u32) -> (r: Option<Vec<bool>>)
    ensures
        match r {
            Some(flags) => window_flags(*summary, n_layers as int) == Some(flags@),
            None => window_flags(*summary, n_layers as int) is None,
        },
{
    match summary.meta("attention.sliding_window_pattern") {
        Some(v) => match v.as_bool_array() {
            Some(flags) => if flags.len() == n_layers as usize {
                Some(flags)
            } else {
                None
            },
            None => None,
        },
        None => None,
    }
}

/// Bytes of attention cache and recurrent state for the whole context,
/// however many; none where the model declares no KV heads for its layers or
/// there is no context.
pub(crate) fn context_size(summary: &GgufSummary, n_layers: u32, inputs: &EstimatorInputs<'_>) -> (r:
    Option<CheckedU64>)
    ensures
        match r {
            Some(size) => heads_known(*summary, n_layers as int) && inputs.context > 0 && size@
                == context_bytes(*summary, n_layers as int, *inputs),
            None => !(heads_known(*summary, n_layers as int) && inputs.context > 0),
        },
{
    let heads: Vec<u32> = heads_by_layer(summary, n_layers);
    if heads.len() == 0 || heads.len() != n_layers as usize {
        return None;
    }
    if inputs.context == 0 {
        return None;
    }
    let cache_k = kv::cache_type(inputs.cache_type_k);
    let cache_v = kv::cache_type(inputs.cache_type_v);
    let derived: u64 = head_dim(summary);
    let key: u64 = summary.meta_u32_or("attention.key_length", derived);
    let value: u64 = summary.meta_u32_or("attention.value_length", derived);
    let key_swa: u64 = summary.meta_u32_or("attention.key_length_swa", key);
    let value_swa: u64 = summary.meta_u32_or("attention.value_length_swa", value);
    let per_head_full: u64 = kv::head_width(key, value, cache_k, cache_v);
    let per_head_swa: u64 = kv::head_width(key_swa, value_swa, cache_k, cache_v);
    let flags: Option<Vec<bool>> = flags_by_layer(summary, n_layers);
    let group: Option<u32> = hardcoded_swa_group_size(summary.architecture.as_str());
    let shared: u64 = summary.meta_u32_or("attention.shared_kv_layers", 0);
    let unique: u64 = (n_layers as u64).saturating_sub(shared);
    let context: u64 = inputs.context as u64;
    let window: u64 = summary.meta_u32_or("attention.sliding_window", context);
    let times: u64 = if inputs.is_unified() {
        inputs.slot_count() as u64
    } else {
        1
    };
    let capped: u64 = arith::smaller(context, window);
    assert(capped * times <= u64::MAX) by (nonlinear_arith)
        requires
            0 <= capped <= u32::MAX,
            1 <= times <= u32::MAX,
    ;
    let window_tokens: u64 = capped * times;
    let ik: bool = inputs.fork.is_ik();
    let ghost n = n_layers as int;
    let mut total: CheckedU64 = CheckedU64::new(0);
    let mut recurrent_layers: u64 = 0;
    let mut i: u64 = 0;
    while i < unique
        invariant
            i <= unique,
            unique == own_cache_layers(*summary, n),
            unique <= n,
            n == n_layers,
            heads@ == layer_heads(*summary, n),
            heads@.len() == n,
            per_head_full == full_width(*summary, *inputs),
            per_head_swa == window_width(*summary, *inputs),
            context == inputs.context,
            window_tokens == arith::least(
                inputs.context as int,
                summary.u32_or("attention.sliding_window"@, inputs.context as int),
            ) * (if inputs.unified() {
                inputs.slots()
            } else {
                1
            }),
            ik == inputs.fork is Ik,
            match flags {
                Some(f) => window_flags(*summary, n) == Some(f@),
                None => window_flags(*summary, n) is None,
            },
            group == swa_group(summary.architecture@),
            total@ == cache_of_layers(*summary, *inputs, n, i as int),
            recurrent_layers == headless(heads@, i as int),
            recurrent_layers <= i,
        decreases unique - i,
    {
        let sliding: bool = match &flags {
            Some(f) => f[i as usize],
            None => match group {
                Some(g) => (i + 1) % (g as u64) != 0,
                None => false,
            },
        };
        assert(sliding == slides(*summary, n, i as int));
        let count: u32 = heads[i as usize];
        let (per_head, tokens): (u64, u64) = if sliding && !ik {
            (per_head_swa, window_tokens)
        } else {
            (per_head_full, context)
        };
        let layer: CheckedU64 = arith::product3(count as u64, per_head, tokens);
        assert(layer@ == layer_cache(*summary, *inputs, n, i as int));
        total = total.add_checked(&layer);
        if count == 0 {
            recurrent_layers += 1;
        }
        i += 1;
    }
    Some(total.add_checked(&recurrent::state_size(summary, recurrent_layers, inputs)))
}

/// Whether the context bytes of a model can be counted.
pub open spec fn countable(summary: GgufSummary, n: int, inputs: EstimatorInputs<'_>) -> bool {
    heads_known(summary, n) && inputs.context > 0 ==> context_bytes(summary, n, inputs) <= u64::MAX
}

/// Whether the context bytes of a model can be counted.
pub fn is_countable(summary: &GgufSummary, n_layers: u32, inputs: &EstimatorInputs<'_>) -> (r: bool)
    ensures
        r == countable(*summary, n_layers as int, *inputs),
{
    match context_size(summary, n_layers, inputs) {
        Some(size) => !size.is_overflowed(),
        None => true,
    }
}

/// Context bytes per token of a llama-family model.
///
/// The head counts may be one number or one per layer; sliding-window
/// layers cache their window only; the last layers may share an earlier
/// layer's cache; layers without KV heads carry recurrent state instead.
/// The whole is divided by the context, so that a caller that multiplies by
/// the context recovers it.
pub fn compute_kv_per_token(summary: &GgufSummary, n_layers: u32, inputs: &EstimatorInputs<'_>) -> (r:
    u64)
    requires
        countable(*summary, n_layers as int, *inputs),
    ensures
        r == per_token(*summary, n_layers as int, *inputs),
{
    match context_size(summary, n_layers, inputs) {
        Some(size) => size.unwrap() / (inputs.context as u64),
        None => 0,
    }
}

proof fn lemma_narrower_head(
    k: int,
    v: int,
    wide_k: GgufType,
    wide_v: GgufType,
    narrow_k: GgufType,
    narrow_v: GgufType,
)
    requires
        k >= 0,
        v >= 0,
        kv::block_bytes(narrow_k) <= kv::block_bytes(wide_k),
        kv::block_bytes(narrow_v) <= kv::block_bytes(wide_v),
    ensures
        kv::head_bytes(k, v, narrow_k, narrow_v) <= kv::head_bytes(k, v, wide_k, wide_v),
{
    let a = kv::block_bytes(narrow_k);
    let b = kv::block_bytes(wide_k);
    let c = kv::block_bytes(narrow_v);
    let d = kv::block_bytes(wide_v);
    assert(k * a <= k * b && v * c <= v * d) by (nonlinear_arith)
        requires
            k >= 0,
            v >= 0,
            a <= b,
            c <= d,
    ;
}

proof fn lemma_narrower_layers(
    summary: GgufSummary,
    wide: EstimatorInputs<'_>,
    narrow: EstimatorInputs<'_>,
    n: int,
    k: int,
)
    requires
        narrow == (EstimatorInputs {
            cache_type_k: narrow.cache_type_k,
            cache_type_v: narrow.cache_type_v,
            ..wide
        }),
        full_width(summary, narrow) <= full_width(summary, wide),
        window_width(summary, narrow) <= window_width(summary, wide),
    ensures
        cache_of_layers(summary, narrow, n, k) <= cache_of_layers(summary, wide, n, k),
    decreases k,
{
    if k > 0 {
        lemma_narrower_layers(summary, wide, narrow, n, k - 1);
        lemma_layer_cache_nonnegative(summary, wide, n, k - 1);
        lemma_layer_cache_nonnegative(summary, narrow, n, k - 1);
        let heads = layer_heads(summary, n)[k - 1] as int;
        let slid = slides(summary, n, k - 1) && !(wide.fork is Ik);
        let a = if slid {
            window_width(summary, narrow)
        } else {
            full_width(summary, narrow)
        };
        let b = if slid {
            window_width(summary, wide)
        } else {
            full_width(summary, wide)
        };
        let tokens = layer_tokens(summary, wide, n, k - 1);
        assert(heads * a * tokens <= heads * b * tokens) by (nonlinear_arith)
            requires
                heads >= 0,
                tokens >= 0,
                a <= b,
        ;
    }
}

/// A cache of narrower elements, keys and values alike, never takes more per
/// token.
pub proof fn lemma_narrower_cache_takes_no_more(
    summary: GgufSummary,
    n: int,
    wide: EstimatorInputs<'_>,
    narrow: EstimatorInputs<'_>,
)
    requires
        narrow == (EstimatorInputs {
            cache_type_k: narrow.cache_type_k,
            cache_type_v: narrow.cache_type_v,
            ..wide
        }),
        kv::block_bytes(kv::cache_type_of(narrow.cache_type_k)) <= kv::block_bytes(
            kv::cache_type_of(wide.cache_type_k),
        ),
        kv::block_bytes(kv::cache_type_of(narrow.cache_type_v)) <= kv::block_bytes(
            kv::cache_type_of(wide.cache_type_v),
        ),
    ensures
        per_token(summary, n, narrow) <= per_token(summary, n, wide),
{
    lemma_dims(summary);
    let wide_k = kv::cache_type_of(wide.cache_type_k);
    let wide_v = kv::cache_type_of(wide.cache_type_v);
    let narrow_k = kv::cache_type_of(narrow.cache_type_k);
    let narrow_v = kv::cache_type_of(narrow.cache_type_v);
    lemma_narrower_head(
        key_length(summary),
        value_length(summary),
        wide_k,
        wide_v,
        narrow_k,
        narrow_v,
    );
    lemma_narrower_head(
        summary.u32_or("attention.key_length_swa"@, key_length(summary)),
        summary.u32_or("attention.value_length_swa"@, value_length(summary)),
        wide_k,
        wide_v,
        narrow_k,
        narrow_v,
    );
    let own = own_cache_layers(summary, n);
    lemma_narrower_layers(summary, wide, narrow, n, own);
    if wide.context > 0 {
        let a = context_bytes(summary, n, narrow);
        let b = context_bytes(summary, n, wide);
        let c = wide.context as int;
        assert(a <= b);
        vstd::arithmetic::div_mod::lemma_div_is_ordered(a, b, c);
    }
}

} // verus!
