//! What a context costs: the laws of its price per token.

use crate::estimate::hybrid;
use crate::estimate::kv;
use crate::estimate::llama_kv;
use crate::estimate::moe;
use crate::estimate::recurrent;
use crate::estimate::types::EstimatorInputs;
use crate::gguf::{GgufSummary, GgufType, GgufValue};
use vstd::prelude::*;
use vstd::string::*;

verus! {

/// Bytes that 32 elements of each cache type take: four, two or one byte an
/// element and its scales, and a type without a known width like f16.
pub proof fn lemma_cache_types_priced(t: GgufType)
    ensures
        kv::block_bytes(GgufType::F32) == 32 * 4,
        kv::block_bytes(GgufType::F16) == 32 * 2,
        kv::block_bytes(GgufType::BF16) == 32 * 2,
        kv::block_bytes(GgufType::Q8_0) == 32 + 2,
        kv::block_bytes(GgufType::Q8_KV) == 32,
        kv::block_bytes(GgufType::Q6_0) == 24 + 2,
        kv::block_bytes(GgufType::Q5_1) == 20 + 4,
        kv::block_bytes(GgufType::Q5_0) == 20 + 2,
        kv::block_bytes(GgufType::Q4_1) == 16 + 4,
        kv::block_bytes(GgufType::Q4_0) == 16 + 2,
        kv::block_bytes(GgufType::IQ4_NL) == 16 + 2,
        t != GgufType::F32 && t != GgufType::Q8_0 && t != GgufType::Q8_KV && t != GgufType::Q6_0
            && t != GgufType::Q5_1 && t != GgufType::Q5_0 && t != GgufType::Q4_1 && t
            != GgufType::Q4_0 && t != GgufType::IQ4_NL ==> kv::block_bytes(t) == 64,
        kv::block_bytes(t) > 0,
{
}

/// A setting that is absent is f16, for keys and values alike.
pub proof fn lemma_default_cache_is_f16(
    summary: GgufSummary,
    n: int,
    absent: EstimatorInputs<'_>,
    given: EstimatorInputs<'_>,
)
    requires
        given == (EstimatorInputs {
            cache_type_k: if absent.cache_type_k is Some {
                absent.cache_type_k
            } else {
                Some(GgufType::F16)
            },
            cache_type_v: if absent.cache_type_v is Some {
                absent.cache_type_v
            } else {
                Some(GgufType::F16)
            },
            ..absent
        }),
    ensures
        llama_kv::per_token(summary, n, absent) == llama_kv::per_token(summary, n, given),
        hybrid::per_token(summary, n, absent) == hybrid::per_token(summary, n, given),
{
    assert(llama_kv::full_width(summary, absent) == llama_kv::full_width(summary, given));
    assert(llama_kv::window_width(summary, absent) == llama_kv::window_width(summary, given));
    lemma_same_cache(
        summary,
        absent,
        given,
        n,
        llama_kv::own_cache_layers(summary, n),
    );
}

proof fn lemma_same_cache(
    summary: GgufSummary,
    a: EstimatorInputs<'_>,
    b: EstimatorInputs<'_>,
    n: int,
    k: int,
)
    requires
        llama_kv::full_width(summary, a) == llama_kv::full_width(summary, b),
        llama_kv::window_width(summary, a) == llama_kv::window_width(summary, b),
        b == (EstimatorInputs { cache_type_k: b.cache_type_k, cache_type_v: b.cache_type_v, ..a }),
    ensures
        llama_kv::cache_of_layers(summary, a, n, k) == llama_kv::cache_of_layers(summary, b, n, k),
    decreases k,
{
    if k > 0 {
        lemma_same_cache(summary, a, b, n, k - 1);
    }
}

/// Bytes one head takes for one token: every key element at the key's type
/// and every value element at the value's, 32 to a block.
pub proof fn lemma_head_priced_by_both_types(
    summary: GgufSummary,
    inputs: EstimatorInputs<'_>,
    key_type: GgufType,
    value_type: GgufType,
)
    requires
        inputs.cache_type_k == Some(key_type),
        inputs.cache_type_v == Some(value_type),
    ensures
        llama_kv::full_width(summary, inputs) == (llama_kv::key_length(summary) * kv::block_bytes(
            key_type,
        ) + llama_kv::value_length(summary) * kv::block_bytes(value_type)) / 32,
        summary.u32_at("attention.key_length_swa"@) matches Some(k) ==> (summary.u32_at(
            "attention.value_length_swa"@,
        ) matches Some(v) ==> llama_kv::window_width(summary, inputs) == (k * kv::block_bytes(
            key_type,
        ) + v * kv::block_bytes(value_type)) / 32),
        summary.u32_at("attention.key_length_swa"@) is None && summary.u32_at(
            "attention.value_length_swa"@,
        ) is None ==> llama_kv::window_width(summary, inputs) == llama_kv::full_width(
            summary,
            inputs,
        ),
{
}

/// Key and value widths are what the model declares; without a declaration
/// the hidden size is shared among the query heads, and 128 stands in where
/// that is unknown.
pub proof fn lemma_widths_declared(summary: GgufSummary)
    ensures
        summary.u32_at("attention.key_length"@) matches Some(k) ==> llama_kv::key_length(summary)
            == k,
        summary.u32_at("attention.value_length"@) matches Some(v) ==> llama_kv::value_length(
            summary,
        ) == v,
        summary.u32_at("attention.key_length"@) is None ==> (summary.u32_at("embedding_length"@)
            matches Some(width) ==> (summary.u32_at("attention.head_count"@) matches Some(heads)
            ==> (heads > 0 ==> llama_kv::key_length(summary) * heads <= width && width < (
        llama_kv::key_length(summary) + 1) * heads))),
        summary.u32_at("attention.value_length"@) is None ==> (summary.u32_at("embedding_length"@)
            matches Some(width) ==> (summary.u32_at("attention.head_count"@) matches Some(heads)
            ==> (heads > 0 ==> llama_kv::value_length(summary) * heads <= width && width < (
        llama_kv::value_length(summary) + 1) * heads))),
        summary.u32_at("attention.key_length"@) is None && (summary.u32_at("embedding_length"@)
            is None || summary.u32_at("attention.head_count"@) is None || summary.u32_at(
            "attention.head_count"@,
        ) == Some(0u32)) ==> llama_kv::key_length(summary) == 128,
        summary.u32_at("attention.value_length"@) is None && (summary.u32_at("embedding_length"@)
            is None || summary.u32_at("attention.head_count"@) is None || summary.u32_at(
            "attention.head_count"@,
        ) == Some(0u32)) ==> llama_kv::value_length(summary) == 128,
{
    if let (Some(width), Some(heads)) = (
        summary.u32_at("embedding_length"@),
        summary.u32_at("attention.head_count"@),
    ) {
        if heads > 0 {
            let q = width as int / heads as int;
            assert(q * heads <= width && width < (q + 1) * heads) by (nonlinear_arith)
                requires
                    q == width as int / heads as int,
                    heads > 0,
            ;
        }
    }
}

/// KV heads of each layer: a list is taken layer by layer, one count stands
/// for every layer, and the query heads stand in where no KV heads are
/// declared.
pub proof fn lemma_heads_declared(summary: GgufSummary, n: int, i: int)
    requires
        0 <= i < n,
    ensures
        summary.value("attention.head_count_kv"@) == Some(
            GgufValue::U32(llama_kv::layer_heads(summary, n)[i]),
        ) || !(summary.value("attention.head_count_kv"@) matches Some(GgufValue::U32(_))),
        summary.value("attention.head_count_kv"@) matches Some(GgufValue::U32(_))
            ==> llama_kv::layer_heads(summary, n).len() == n,
        summary.value("attention.head_count_kv"@) is None ==> (summary.value(
            "attention.head_count"@,
        ) matches Some(GgufValue::U32(h)) ==> llama_kv::layer_heads(summary, n).len() == n
            && llama_kv::layer_heads(summary, n)[i] == h),
        summary.value("attention.head_count_kv"@) matches Some(v) ==> (v.u32s_view() matches Some(
            list,
        ) ==> (list.len() != 1 ==> llama_kv::layer_heads(summary, n) == list)),
        summary.value("attention.head_count_kv"@) is None && summary.value(
            "attention.head_count"@,
        ) is None ==> llama_kv::layer_heads(summary, n).len() == 0,
{
}

/// Which layers see a window only: those the model flags, where it flags
/// each; else all but every sixth of gemma2 and gemma3 and all but every
/// fourth of laguna; else none.
pub proof fn lemma_windowed_layers(summary: GgufSummary, n: int, i: int)
    requires
        0 <= i < n,
    ensures
        summary.value("attention.sliding_window_pattern"@) matches Some(v) ==> (v.bools_view()
            matches Some(flags) ==> (flags.len() == n ==> llama_kv::slides(summary, n, i)
            == flags[i])),
        summary.value("attention.sliding_window_pattern"@) is None && (summary.architecture@
            == "gemma2"@ || summary.architecture@ == "gemma3"@) ==> llama_kv::slides(summary, n, i)
            == (i % 6 != 5),
        summary.value("attention.sliding_window_pattern"@) is None && summary.architecture@
            == "laguna"@ ==> llama_kv::slides(summary, n, i) == (i % 4 != 3),
        summary.value("attention.sliding_window_pattern"@) is None && summary.architecture@
            != "gemma2"@ && summary.architecture@ != "gemma3"@ && summary.architecture@
            != "laguna"@ ==> !llama_kv::slides(summary, n, i),
{
    reveal_strlit("gemma2");
    reveal_strlit("gemma3");
    reveal_strlit("laguna");
    assert("gemma2"@.len() == 6 && "laguna"@.len() == 6 && "gemma3"@.len() == 6);
    assert("laguna"@[0] != "gemma2"@[0] && "laguna"@[0] != "gemma3"@[0]);
}

/// What one more layer adds to the cache: its heads, at the width of its
/// kind, for the tokens it keeps. A layer that sees everything keeps the
/// whole context, and so does every layer on ik_llama. One that sees a
/// window keeps no more than the window, once for each slot where the slots
/// share the cache, and once in all where they do not.
pub proof fn lemma_layer_adds_its_cache(
    summary: GgufSummary,
    inputs: EstimatorInputs<'_>,
    n: int,
    i: int,
)
    requires
        0 <= i < n,
    ensures
        llama_kv::cache_of_layers(summary, inputs, n, 0) == 0,
        !llama_kv::slides(summary, n, i) || inputs.fork is Ik ==> llama_kv::cache_of_layers(
            summary,
            inputs,
            n,
            i + 1,
        ) - llama_kv::cache_of_layers(summary, inputs, n, i) == llama_kv::layer_heads(summary, n)[i]
            * llama_kv::full_width(summary, inputs) * inputs.context,
        llama_kv::slides(summary, n, i) && !(inputs.fork is Ik) && inputs.kv_unified != Some(true)
            ==> (summary.u32_at("attention.sliding_window"@) matches Some(w)
            ==> llama_kv::cache_of_layers(summary, inputs, n, i + 1) - llama_kv::cache_of_layers(
            summary,
            inputs,
            n,
            i,
        ) == llama_kv::layer_heads(summary, n)[i] * llama_kv::window_width(summary, inputs) * (
        if w < inputs.context {
            w as int
        } else {
            inputs.context as int
        })),
        llama_kv::slides(summary, n, i) && !(inputs.fork is Ik) && inputs.kv_unified == Some(true)
            ==> (inputs.parallel matches Some(p) ==> (summary.u32_at("attention.sliding_window"@)
            matches Some(w) ==> (p > 0 ==> llama_kv::cache_of_layers(summary, inputs, n, i + 1)
            - llama_kv::cache_of_layers(summary, inputs, n, i) == llama_kv::layer_heads(
            summary,
            n,
        )[i] * llama_kv::window_width(summary, inputs) * ((if w < inputs.context {
            w as int
        } else {
            inputs.context as int
        }) * p)))),
        llama_kv::slides(summary, n, i) && !(inputs.fork is Ik) && inputs.kv_unified != Some(true)
            && summary.u32_at("attention.sliding_window"@) is None ==> llama_kv::cache_of_layers(
            summary,
            inputs,
            n,
            i + 1,
        ) - llama_kv::cache_of_layers(summary, inputs, n, i) == llama_kv::layer_heads(summary, n)[i]
            * llama_kv::window_width(summary, inputs) * inputs.context,
{
    assert(inputs.context * 1 == inputs.context) by (nonlinear_arith);
}

/// The context of a model is the cache of its layers, but for the last ones
/// that share an earlier layer's, and the recurrent state of those without
/// KV heads. A token's price is its share, rounded down, and nothing where
/// there is no context or the heads of some layer are not known.
pub proof fn lemma_context_is_cache_and_state(
    summary: GgufSummary,
    n: int,
    inputs: EstimatorInputs<'_>,
    shared: int,
)
    requires
        n > 0,
        inputs.context > 0,
        0 <= shared <= n,
        summary.u32_at("attention.shared_kv_layers"@) == Some(shared as u32) || (shared == 0
            && summary.u32_at("attention.shared_kv_layers"@) is None),
        shared <= u32::MAX,
        llama_kv::layer_heads(summary, n).len() == n,
    ensures
        (forall|i: int| 0 <= i < n - shared ==> #[trigger] llama_kv::layer_heads(summary, n)[i] > 0)
            ==> {
            let whole = llama_kv::cache_of_layers(summary, inputs, n, n - shared);
            let share = llama_kv::per_token(summary, n, inputs);
            share * inputs.context <= whole && whole < (share + 1) * inputs.context
        },
        (forall|i: int| 0 <= i < n - shared ==> #[trigger] llama_kv::layer_heads(summary, n)[i]
            == 0) ==> {
            let whole = recurrent::state(summary, n - shared, inputs);
            let share = llama_kv::per_token(summary, n, inputs);
            share * inputs.context <= whole && whole < (share + 1) * inputs.context
        },
{
    let k = n - shared;
    let heads = llama_kv::layer_heads(summary, n);
    let context = inputs.context as int;
    let whole = llama_kv::context_bytes(summary, n, inputs);
    let share = whole / context;
    assert(share * context <= whole && whole < (share + 1) * context) by (nonlinear_arith)
        requires
            share == whole / context,
            context > 0,
    ;
    assert(llama_kv::own_cache_layers(summary, n) == k);
    if forall|i: int| 0 <= i < k ==> #[trigger] heads[i] > 0 {
        lemma_none_headless(heads, k);
        recurrent::lemma_state_nonnegative(summary, 0, inputs);
    }
    if forall|i: int| 0 <= i < k ==> #[trigger] heads[i] == 0 {
        lemma_all_headless(heads, k);
        lemma_headless_cache(summary, inputs, n, k);
    }
}

proof fn lemma_none_headless(heads: Seq<u32>, k: int)
    requires
        0 <= k <= heads.len(),
        forall|i: int| 0 <= i < k ==> #[trigger] heads[i] > 0,
    ensures
        llama_kv::headless(heads, k) == 0,
    decreases k,
{
    if k > 0 {
        lemma_none_headless(heads, k - 1);
    }
}

proof fn lemma_all_headless(heads: Seq<u32>, k: int)
    requires
        0 <= k <= heads.len(),
        forall|i: int| 0 <= i < k ==> #[trigger] heads[i] == 0,
    ensures
        llama_kv::headless(heads, k) == k,
    decreases k,
{
    if k > 0 {
        lemma_all_headless(heads, k - 1);
    }
}

proof fn lemma_headless_cache(summary: GgufSummary, inputs: EstimatorInputs<'_>, n: int, k: int)
    requires
        0 <= k <= n,
        llama_kv::layer_heads(summary, n).len() == n,
        forall|i: int| 0 <= i < k ==> #[trigger] llama_kv::layer_heads(summary, n)[i] == 0,
    ensures
        llama_kv::cache_of_layers(summary, inputs, n, k) == 0,
    decreases k,
{
    if k > 0 {
        lemma_headless_cache(summary, inputs, n, k - 1);
        assert(llama_kv::layer_heads(summary, n)[k - 1] == 0);
        let w = if llama_kv::slides(summary, n, k - 1) && !(inputs.fork is Ik) {
            llama_kv::window_width(summary, inputs)
        } else {
            llama_kv::full_width(summary, inputs)
        };
        let t = llama_kv::layer_tokens(summary, inputs, n, k - 1);
        assert(0 * w * t == 0) by (nonlinear_arith);
    }
}

/// Layers without KV heads count as recurrent, and no others: a layer adds
/// one to their number exactly where it has none.
pub proof fn lemma_headless_layers_are_recurrent(heads: Seq<u32>, i: int)
    requires
        0 <= i < heads.len(),
    ensures
        llama_kv::headless(heads, 0) == 0,
        heads[i] == 0 ==> llama_kv::headless(heads, i + 1) == llama_kv::headless(heads, i) + 1,
        heads[i] > 0 ==> llama_kv::headless(heads, i + 1) == llama_kv::headless(heads, i),
{
}

proof fn lemma_uniform_layers(
    summary: GgufSummary,
    n: int,
    inputs: EstimatorInputs<'_>,
    heads: u32,
    k: int,
)
    requires
        0 <= k <= n,
        llama_kv::layer_heads(summary, n) == Seq::new(n as nat, |i: int| heads),
        forall|i: int| 0 <= i < n ==> !#[trigger] llama_kv::slides(summary, n, i),
    ensures
        llama_kv::cache_of_layers(summary, inputs, n, k) == k * (heads * llama_kv::full_width(
            summary,
            inputs,
        )) * inputs.context,
    decreases k,
{
    let w = heads * llama_kv::full_width(summary, inputs);
    let c = inputs.context as int;
    if k > 0 {
        lemma_uniform_layers(summary, n, inputs, heads, k - 1);
        assert(!llama_kv::slides(summary, n, k - 1));
        assert(k * w * c == (k - 1) * w * c + w * c) by (nonlinear_arith);
    } else {
        assert(0 * w * c == 0) by (nonlinear_arith);
    }
}

/// A model whose layers all attend to everything and have the same heads:
/// its cache is layers times heads times context times the bytes of one
/// key, at the key's type, and one value, at the value's. A token's price
/// is that without the context.
pub proof fn lemma_uniform_cache(
    summary: GgufSummary,
    n: int,
    inputs: EstimatorInputs<'_>,
    heads: u32,
    key_length: u32,
    value_length: u32,
    key_type: GgufType,
    value_type: GgufType,
)
    requires
        n > 0,
        inputs.context > 0,
        heads > 0,
        summary.value("attention.head_count_kv"@) == Some(GgufValue::U32(heads)),
        summary.u32_at("attention.key_length"@) == Some(key_length),
        summary.u32_at("attention.value_length"@) == Some(value_length),
        summary.u32_at("attention.shared_kv_layers"@) is None,
        summary.value("attention.sliding_window_pattern"@) is None,
        summary.architecture@ != "gemma2"@,
        summary.architecture@ != "gemma3"@,
        summary.architecture@ != "laguna"@,
        inputs.cache_type_k == Some(key_type),
        inputs.cache_type_v == Some(value_type),
    ensures
        llama_kv::context_bytes(summary, n, inputs) == n * (heads * ((key_length * kv::block_bytes(
            key_type,
        ) + value_length * kv::block_bytes(value_type)) / 32)) * inputs.context,
        llama_kv::per_token(summary, n, inputs) == n * (heads * ((key_length * kv::block_bytes(
            key_type,
        ) + value_length * kv::block_bytes(value_type)) / 32)),
{
    let all = llama_kv::layer_heads(summary, n);
    assert(all =~= Seq::new(n as nat, |i: int| heads));
    assert forall|i: int| 0 <= i < n implies !#[trigger] llama_kv::slides(summary, n, i) by {
        lemma_windowed_layers(summary, n, i);
    }
    lemma_uniform_layers(summary, n, inputs, heads, n);
    assert forall|i: int| 0 <= i < n implies #[trigger] all[i] > 0 by {}
    lemma_none_headless(all, n);
    recurrent::lemma_state_nonnegative(summary, 0, inputs);
    let w = n * (heads * llama_kv::full_width(summary, inputs));
    let c = inputs.context as int;
    assert(w * c / c == w) by (nonlinear_arith)
        requires
            c > 0,
    ;
}

/// With the key type held, a value type whose blocks are narrower by at
/// least a byte per head costs strictly less; and where both widths fill
/// whole blocks, what a change of the key type costs does not depend on the
/// value type, nor what a change of the value type costs on the key type.
pub proof fn lemma_each_half_at_its_own_type(
    summary: GgufSummary,
    n: int,
    base: EstimatorInputs<'_>,
    heads: u32,
    key_length: u32,
    value_length: u32,
    keys: (GgufType, GgufType),
    values: (GgufType, GgufType),
)
    requires
        n > 0,
        base.context > 0,
        heads > 0,
        summary.value("attention.head_count_kv"@) == Some(GgufValue::U32(heads)),
        summary.u32_at("attention.key_length"@) == Some(key_length),
        summary.u32_at("attention.value_length"@) == Some(value_length),
        summary.u32_at("attention.shared_kv_layers"@) is None,
        summary.value("attention.sliding_window_pattern"@) is None,
        summary.architecture@ != "gemma2"@,
        summary.architecture@ != "gemma3"@,
        summary.architecture@ != "laguna"@,
    ensures
        value_length * kv::block_bytes(values.0) + 32 <= value_length * kv::block_bytes(values.1)
            ==> llama_kv::per_token(
            summary,
            n,
            (EstimatorInputs {
                cache_type_k: Some(keys.0),
                cache_type_v: Some(values.0),
                ..base
            }),
        ) < llama_kv::per_token(
            summary,
            n,
            (EstimatorInputs {
                cache_type_k: Some(keys.0),
                cache_type_v: Some(values.1),
                ..base
            }),
        ),
        key_length * kv::block_bytes(keys.0) + 32 <= key_length * kv::block_bytes(keys.1)
            ==> llama_kv::per_token(
            summary,
            n,
            (EstimatorInputs {
                cache_type_k: Some(keys.0),
                cache_type_v: Some(values.0),
                ..base
            }),
        ) < llama_kv::per_token(
            summary,
            n,
            (EstimatorInputs {
                cache_type_k: Some(keys.1),
                cache_type_v: Some(values.0),
                ..base
            }),
        ),
        key_length % 32 == 0 && value_length % 32 == 0 ==> llama_kv::per_token(
            summary,
            n,
            (EstimatorInputs {
                cache_type_k: Some(keys.0),
                cache_type_v: Some(values.0),
                ..base
            }),
        ) - llama_kv::per_token(
            summary,
            n,
            (EstimatorInputs {
                cache_type_k: Some(keys.1),
                cache_type_v: Some(values.0),
                ..base
            }),
        ) == llama_kv::per_token(
            summary,
            n,
            (EstimatorInputs {
                cache_type_k: Some(keys.0),
                cache_type_v: Some(values.1),
                ..base
            }),
        ) - llama_kv::per_token(
            summary,
            n,
            (EstimatorInputs {
                cache_type_k: Some(keys.1),
                cache_type_v: Some(values.1),
                ..base
            }),
        ),
{
    let at = |k: GgufType, v: GgufType|
        (EstimatorInputs { cache_type_k: Some(k), cache_type_v: Some(v), ..base });
    lemma_uniform_cache(
        summary,
        n,
        at(keys.0, values.0),
        heads,
        key_length,
        value_length,
        keys.0,
        values.0,
    );
    lemma_uniform_cache(
        summary,
        n,
        at(keys.0, values.1),
        heads,
        key_length,
        value_length,
        keys.0,
        values.1,
    );
    lemma_uniform_cache(
        summary,
        n,
        at(keys.1, values.0),
        heads,
        key_length,
        value_length,
        keys.1,
        values.0,
    );
    lemma_uniform_cache(
        summary,
        n,
        at(keys.1, values.1),
        heads,
        key_length,
        value_length,
        keys.1,
        values.1,
    );
    let a = key_length * kv::block_bytes(keys.0);
    let b = key_length * kv::block_bytes(keys.1);
    let c = value_length * kv::block_bytes(values.0);
    let d = value_length * kv::block_bytes(values.1);
    let h = heads as int;
    let w = |x: int, y: int| (x + y) / 32;
    if c + 32 <= d {
        assert(w(a, c) < w(a, d));
        assert(n * (h * w(a, c)) < n * (h * w(a, d))) by (nonlinear_arith)
            requires
                n > 0,
                h > 0,
                w(a, c) < w(a, d),
        ;
    }
    if a + 32 <= b {
        assert(w(a, c) < w(b, c));
        assert(n * (h * w(a, c)) < n * (h * w(b, c))) by (nonlinear_arith)
            requires
                n > 0,
                h > 0,
                w(a, c) < w(b, c),
        ;
    }
    if key_length % 32 == 0 && value_length % 32 == 0 {
        lemma_whole_blocks(key_length as int, kv::block_bytes(keys.0));
        lemma_whole_blocks(key_length as int, kv::block_bytes(keys.1));
        lemma_whole_blocks(value_length as int, kv::block_bytes(values.0));
        lemma_whole_blocks(value_length as int, kv::block_bytes(values.1));
        let (p, q, r, s) = (a / 32, b / 32, c / 32, d / 32);
        assert(w(a, c) == p + r && w(b, c) == q + r && w(a, d) == p + s && w(b, d) == q + s);
        assert(n * (h * (p + r)) - n * (h * (q + r)) == n * (h * (p + s)) - n * (h * (q + s)))
            by (nonlinear_arith);
    }
}

proof fn lemma_whole_blocks(length: int, bytes: int)
    requires
        length % 32 == 0,
    ensures
        (length * bytes) % 32 == 0,
{
    let m = length / 32;
    assert(length * bytes == 32 * (m * bytes)) by (nonlinear_arith)
        requires
            length == 32 * m,
    ;
}

/// The state of recurrent layers: each holds the past activations of its
/// convolution and its state, four bytes an element, for every slot, and
/// four times where decoding can roll back.
pub proof fn lemma_state_priced(
    summary: GgufSummary,
    layers: int,
    inputs: EstimatorInputs<'_>,
    conv: u64,
    inner: u64,
    state: u64,
    groups: u64,
)
    requires
        summary.u64_at("ssm.conv_kernel"@) == Some(conv),
        conv > 0,
        summary.u64_at("ssm.inner_size"@) == Some(inner),
        summary.u64_at("ssm.state_size"@) == Some(state),
        summary.u64_at("ssm.group_count"@) == Some(groups),
    ensures
        inputs.parallel is None && inputs.speculation is Off ==> recurrent::state(
            summary,
            layers,
            inputs,
        ) == layers * ((conv - 1) * (inner + 2 * groups * state) + state * inner) * 4,
        inputs.parallel is None && !(inputs.speculation is Off) ==> recurrent::state(
            summary,
            layers,
            inputs,
        ) == layers * ((conv - 1) * (inner + 2 * groups * state) + state * inner) * 4 * 4,
        inputs.parallel matches Some(p) ==> (p > 0 && inputs.speculation is Off
            ==> recurrent::state(summary, layers, inputs) == layers * ((conv - 1) * (inner + 2
            * groups * state) + state * inner) * 4 * p),
{
    let e = layers * ((conv - 1) * (inner + 2 * groups * state) + state * inner) * 4;
    let p = match inputs.parallel {
        Some(p) => p as int,
        None => 1,
    };
    assert(e * (p * 1) == e * p && e * (1 * 1) == e && e * (1 * 4) == e * 4) by (nonlinear_arith);
}

/// A short convolution keeps one activation less than it spans, of the
/// hidden width; a model that declares neither kind keeps nothing.
pub proof fn lemma_short_convolution_priced(
    summary: GgufSummary,
    layers: int,
    inputs: EstimatorInputs<'_>,
)
    requires
        summary.u64_at("ssm.conv_kernel"@) is None,
        inputs.parallel is None,
        inputs.speculation is Off,
    ensures
        summary.u64_at("shortconv.l_cache"@) matches Some(l) ==> (summary.u64_at(
            "embedding_length"@,
        ) matches Some(width) ==> (l > 0 ==> recurrent::state(summary, layers, inputs) == layers
            * (width * (l - 1)) * 4)),
        summary.u64_at("shortconv.l_cache"@) is None ==> recurrent::state(summary, layers, inputs)
            == 0,
{
    let e = recurrent::layer_elements(summary);
    if let Some(w) = summary.u64_at("embedding_length"@) {
        assert(w * (1 - 1) == 0) by (nonlinear_arith);
    }
    assert(layers * e * 4 * (1 * 1) == layers * e * 4) by (nonlinear_arith);
    assert(layers * 0 * 4 == 0) by (nonlinear_arith);
}

/// A draft head's blocks are not part of the main context.
pub proof fn lemma_head_blocks_left_out(summary: GgufSummary)
    ensures
        summary.u32_at("nextn_predict_layers"@) is None ==> recurrent::span(summary)
            == summary.blocks(),
        summary.u32_at("nextn_predict_layers"@) matches Some(k) ==> (k <= summary.blocks()
            ==> recurrent::span(summary) + k == summary.blocks()),
        summary.u32_at("nextn_predict_layers"@) matches Some(k) ==> (k > summary.blocks()
            ==> recurrent::span(summary) == 0),
        summary.block_count matches Some(b) ==> summary.blocks() == b,
        summary.block_count is None ==> summary.blocks() == 0,
{
}

/// A hybrid caches every `interval`-th layer of its main context, at both
/// types, and shares the state of the others among the tokens.
pub proof fn lemma_hybrid_priced(
    summary: GgufSummary,
    n: int,
    inputs: EstimatorInputs<'_>,
    interval: u32,
    heads: u32,
    key_length: u32,
    value_length: u32,
    key_type: GgufType,
    value_type: GgufType,
)
    requires
        n == summary.blocks(),
        interval > 0,
        summary.u32_at("full_attention_interval"@) == Some(interval) || (interval == 1
            && summary.u32_at("full_attention_interval"@) is None),
        summary.u32_at("attention.head_count_kv"@) == Some(heads),
        summary.u32_at("attention.key_length"@) == Some(key_length) || (key_length == 128
            && summary.u32_at("attention.key_length"@) is None),
        summary.u32_at("attention.value_length"@) == Some(value_length) || (value_length == 128
            && summary.u32_at("attention.value_length"@) is None),
        inputs.cache_type_k == Some(key_type),
        inputs.cache_type_v == Some(value_type),
    ensures
        ({
            let span = recurrent::span(summary);
            let cached = span / (interval as int);
            let cache = cached * heads * ((key_length * kv::block_bytes(key_type) + value_length
                * kv::block_bytes(value_type)) / 32);
            let state = recurrent::state(summary, span - cached, inputs);
            let price = hybrid::per_token(summary, n, inputs);
            &&& inputs.context == 0 ==> price == cache
            &&& inputs.context > 0 ==> (price - cache) * inputs.context <= state && state < (price
                - cache + 1) * inputs.context
        }),
{
    let span = recurrent::span(summary);
    assert(span <= n);
    let state = recurrent::state(summary, span - span / (interval as int), inputs);
    let c = inputs.context as int;
    if c > 0 {
        let q = state / c;
        assert(q * c <= state && state < (q + 1) * c) by (nonlinear_arith)
            requires
                q == state / c,
                c > 0,
        ;
    }
}

/// A mixture of experts pays for its context as its attention does: a
/// deepseek4 model for its compressed layers, a glm-dsa model for one latent
/// key per layer, one that declares an interval as a hybrid, and any other
/// as a llama.
pub proof fn lemma_mixture_priced_by_its_attention(
    summary: GgufSummary,
    n: int,
    inputs: EstimatorInputs<'_>,
    key_type: GgufType,
)
    requires
        n == summary.blocks(),
        inputs.cache_type_k == Some(key_type),
    ensures
        summary.architecture@ == "deepseek4"@ && n > 0 && inputs.context > 0 && summary.value(
            "attention.compress_ratios"@,
        ) is None ==> moe::per_token(summary, n, inputs) == (n / 2) * 317 * kv::block_bytes(
            key_type,
        ) / 64,
        summary.architecture@ == "deepseek4"@ && (n == 0 || inputs.context == 0) ==> moe::per_token(
            summary,
            n,
            inputs,
        ) == 0,
        summary.architecture@ == "glm-dsa"@ ==> (summary.u32_at("attention.key_length"@)
            matches Some(k) ==> moe::per_token(summary, n, inputs) == recurrent::span(summary) * ((k
            * kv::block_bytes(key_type)) / 32)),
        summary.architecture@ != "deepseek4"@ && summary.architecture@ != "glm-dsa"@
            && summary.value("full_attention_interval"@) is Some ==> moe::per_token(
            summary,
            n,
            inputs,
        ) == hybrid::per_token(summary, n, inputs),
        summary.architecture@ != "deepseek4"@ && summary.architecture@ != "glm-dsa"@
            && summary.value("full_attention_interval"@) is None ==> moe::per_token(
            summary,
            n,
            inputs,
        ) == llama_kv::per_token(summary, n, inputs),
{
    reveal_strlit("deepseek4");
    reveal_strlit("glm-dsa");
    assert("deepseek4"@.len() != "glm-dsa"@.len());
    assert(0 * kv::block_bytes(key_type) == 0);
}

/// A deepseek4 model that lists the compression of its layers has as many
/// compressed ones as the list has fours.
pub proof fn lemma_compressed_layers_counted(
    summary: GgufSummary,
    n: int,
    inputs: EstimatorInputs<'_>,
    key_type: GgufType,
    ratios: Seq<u32>,
)
    requires
        summary.architecture@ == "deepseek4"@,
        n > 0,
        inputs.context > 0,
        inputs.cache_type_k == Some(key_type),
        summary.value("attention.compress_ratios"@) is Some,
        summary.value("attention.compress_ratios"@)->0.u32s_view() == Some(ratios),
        exists|i: int| 0 <= i < ratios.len() && #[trigger] ratios[i] == 4,
    ensures
        moe::per_token(summary, n, inputs) == ratios.filter(|r: u32| r == 4).len() * 317
            * kv::block_bytes(key_type) / 64,
{
    lemma_times_listed(ratios, 4);
    let i = choose|i: int| 0 <= i < ratios.len() && #[trigger] ratios[i] == 4;
    lemma_listed_counts(ratios, 4, i);
}

proof fn lemma_times_listed(ratios: Seq<u32>, ratio: u32)
    ensures
        moe::times_listed(ratios, ratio) == ratios.filter(|r: u32| r == ratio).len(),
    decreases ratios.len(),
{
    reveal(Seq::filter);
    if ratios.len() > 0 {
        lemma_times_listed(ratios.drop_last(), ratio);
    }
}

proof fn lemma_listed_counts(ratios: Seq<u32>, ratio: u32, i: int)
    requires
        0 <= i < ratios.len(),
        ratios[i] == ratio,
    ensures
        moe::times_listed(ratios, ratio) > 0,
    decreases ratios.len(),
{
    lemma_times_listed(ratios.drop_last(), ratio);
    if i < ratios.len() - 1 {
        lemma_listed_counts(ratios.drop_last(), ratio, i);
    }
}

/// A model without blocks, or a context without tokens, prices no token.
pub proof fn lemma_nothing_per_token(summary: GgufSummary, n: int, inputs: EstimatorInputs<'_>)
    ensures
        n <= 0 || inputs.context == 0 ==> llama_kv::per_token(summary, n, inputs) == 0,
{
}

/// A model that declares no ratios compresses every other layer.
pub proof fn lemma_half_compressed_by_default(summary: GgufSummary, n: int)
    ensures
        summary.value("attention.compress_ratios"@) is None ==> moe::compressed_layers(summary, n)
            == n / 2,
{
}

} // verus!
