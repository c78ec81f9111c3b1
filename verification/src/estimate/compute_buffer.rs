//! Compute buffer of the head GPU.

use crate::config::units::MIB;
use crate::estimate::arith;
use crate::estimate::tuning::{Tuning, DEFAULT_UBATCH};
use crate::estimate::types::EstimatorInputs;
use crate::gguf::{GgufSummary, GgufTensor};
use vstd::arithmetic::overflow::CheckedU64;
use vstd::prelude::*;

verus! {

/// What the fitted graph model says of a service, in MiB.
#[derive(Debug, Clone, Copy, PartialEq, Eq, Structural)]
pub struct GraphSize {
    /// Graph buffer of every device.
    pub per_device_mib: u32,
    /// What the head device holds beyond that.
    pub head_extra_mib: u32,
}

/// Physical batch size of a service.
pub open spec fn batch_of(ubatch: Option<u32>) -> int {
    match ubatch {
        Some(n) => n as int,
        None => DEFAULT_UBATCH as int,
    }
}

/// Physical batch size of a service.
pub fn batch(ubatch: Option<u32>) -> (r: u32)
    ensures
        r == batch_of(ubatch),
{
    match ubatch {
        Some(n) => n,
        None => DEFAULT_UBATCH,
    }
}

/// Query heads of a model, inferred from its widths where it declares none.
pub open spec fn query_heads(summary: GgufSummary) -> int {
    let declared = summary.u64_or_zero("attention.head_count"@);
    if declared > 0 {
        declared
    } else {
        match (summary.u64_at("embedding_length"@), summary.u64_at("attention.key_length"@)) {
            (Some(width), Some(head)) => if head > 0 {
                width as int / head as int
            } else {
                0
            },
            _ => 0,
        }
    }
}

proof fn lemma_query_heads_nonnegative(summary: GgufSummary)
    ensures
        query_heads(summary) >= 0,
{
    if let (Some(width), Some(head)) = (
        summary.u64_at("embedding_length"@),
        summary.u64_at("attention.key_length"@),
    ) {
        if head > 0 {
            assert(width as int / head as int >= 0) by (nonlinear_arith)
                requires
                    head > 0,
                    width >= 0,
            ;
        }
    }
}

/// Query heads of a model, inferred from its widths where it declares none.
fn query_head_count(summary: &GgufSummary) -> (r: u64)
    ensures
        r == query_heads(*summary),
{
    let declared: u64 = summary.meta_u64_or_zero("attention.head_count");
    if declared > 0 {
        return declared;
    }
    let width: Option<u64> = summary.meta_u64("embedding_length");
    let head: Option<u64> = summary.meta_u64("attention.key_length");
    match (width, head) {
        (Some(w), Some(h)) => if h > 0 {
            w / h
        } else {
            0
        },
        _ => 0,
    }
}

/// Hundredths of a byte in the score matrix of an unfused attention pass:
/// one entry per head, cache token and batch token. `context` is what one
/// stream's cache spans.
pub open spec fn score_centibytes(
    summary: GgufSummary,
    context: int,
    ubatch: int,
    tuning: Tuning,
) -> int {
    tuning.no_flash_attn_score_centibytes.rate(summary.architecture@) * query_heads(summary)
        * context * arith::least(context, ubatch)
}

/// MiB of the score matrix; none with flash attention, which never holds it
/// whole.
pub open spec fn score_mib(
    summary: GgufSummary,
    context: int,
    ubatch: int,
    flash_attn: bool,
    tuning: Tuning,
) -> int {
    if flash_attn {
        0
    } else {
        arith::least(
            score_centibytes(summary, context, ubatch, tuning) / 100 / (MIB as int),
            u32::MAX as int,
        )
    }
}

fn score_size(summary: &GgufSummary, context: u32, ubatch: u32, tuning: &Tuning) -> (r: CheckedU64)
    ensures
        r@ == score_centibytes(*summary, context as int, ubatch as int, *tuning),
{
    let heads: u64 = query_head_count(summary);
    let tokens: u64 = if context <= ubatch {
        context as u64
    } else {
        ubatch as u64
    };
    let rate: u64 = tuning.no_flash_attn_score_centibytes.lookup(summary.architecture.as_str());
    arith::product4(rate, heads, context as u64, tokens)
}

fn no_flash_attn_mib(
    summary: &GgufSummary,
    context: u32,
    ubatch: u32,
    flash_attn: bool,
    tuning: &Tuning,
) -> (r: u32)
    requires
        !flash_attn ==> score_centibytes(*summary, context as int, ubatch as int, *tuning)
            <= u64::MAX,
    ensures
        r == score_mib(*summary, context as int, ubatch as int, flash_attn, *tuning),
{
    if flash_attn {
        return 0;
    }
    let mib: u64 = score_size(summary, context, ubatch, tuning).unwrap() / 100 / MIB;
    if mib <= u32::MAX as u64 {
        mib as u32
    } else {
        u32::MAX
    }
}

/// `a + b`, not above what a `u32` holds.
pub open spec fn capped_mib(a: int, b: int) -> int {
    arith::least(a + b, u32::MAX as int)
}

/// Tokens that one stream's cache spans: its share of the context.
pub open spec fn stream_share(inputs: EstimatorInputs<'_>) -> int {
    inputs.context as int / inputs.stream_count()
}

fn share_of_stream(inputs: &EstimatorInputs<'_>) -> (r: u32)
    ensures
        r == stream_share(*inputs),
{
    inputs.context / inputs.streams()
}

/// Compute buffer of the head GPU in MiB: the operator's figure, or the
/// graph model's with the score matrix of one stream on top.
pub open spec fn head_buffer_mib(
    summary: GgufSummary,
    inputs: EstimatorInputs<'_>,
    graph: GraphSize,
    tuning: Tuning,
) -> int {
    match inputs.compute_buffer_mb {
        Some(mb) => mb as int,
        None => capped_mib(
            capped_mib(graph.per_device_mib as int, graph.head_extra_mib as int),
            score_mib(
                summary,
                stream_share(inputs),
                batch_of(inputs.ubatch),
                inputs.flash_attn != Some(false),
                tuning,
            ),
        ),
    }
}

/// Whether the score matrix, where there is one, can be counted.
pub open spec fn score_fits(
    summary: GgufSummary,
    inputs: EstimatorInputs<'_>,
    tuning: Tuning,
) -> bool {
    inputs.compute_buffer_mb is None && inputs.flash_attn == Some(false) ==> score_centibytes(
        summary,
        stream_share(inputs),
        batch_of(inputs.ubatch),
        tuning,
    ) <= u64::MAX
}

/// Whether the score matrix, where there is one, can be counted.
pub fn is_score_countable(
    summary: &GgufSummary,
    inputs: &EstimatorInputs<'_>,
    tuning: &Tuning,
) -> (r: bool)
    ensures
        r == score_fits(*summary, *inputs, *tuning),
{
    if inputs.compute_buffer_mb.is_some() || inputs.flash_attn != Some(false) {
        return true;
    }
    !score_size(
        summary,
        share_of_stream(inputs),
        batch(inputs.ubatch),
        tuning,
    ).is_overflowed()
}

/// Compute buffer of the head GPU in MiB.
pub fn per_device_for(
    summary: &GgufSummary,
    inputs: &EstimatorInputs<'_>,
    graph: GraphSize,
    tuning: &Tuning,
) -> (r: u32)
    requires
        score_fits(*summary, *inputs, *tuning),
    ensures
        r == head_buffer_mib(*summary, *inputs, graph, *tuning),
{
    match inputs.compute_buffer_mb {
        Some(mb) => mb,
        None => {
            let flash_attn: bool = match inputs.flash_attn {
                Some(on) => on,
                None => true,
            };
            let scores: u32 = no_flash_attn_mib(
                summary,
                share_of_stream(inputs),
                batch(inputs.ubatch),
                flash_attn,
                tuning,
            );
            graph.per_device_mib.saturating_add(graph.head_extra_mib).saturating_add(scores)
        },
    }
}

/// An operator's figure replaces every modelled term.
pub proof fn lemma_operator_buffer_wins(
    summary: GgufSummary,
    inputs: EstimatorInputs<'_>,
    graph: GraphSize,
    tuning: Tuning,
    mb: u32,
)
    requires
        inputs.compute_buffer_mb == Some(mb),
    ensures
        head_buffer_mib(summary, inputs, graph, tuning) == mb,
{
}

/// With one graph size, a longer context never reserves less.
pub proof fn lemma_longer_context_reserves_no_less(
    summary: GgufSummary,
    short: EstimatorInputs<'_>,
    long: EstimatorInputs<'_>,
    graph: GraphSize,
    tuning: Tuning,
)
    requires
        short.context <= long.context,
        long == (EstimatorInputs { context: long.context, ..short }),
    ensures
        head_buffer_mib(summary, short, graph, tuning) <= head_buffer_mib(
            summary,
            long,
            graph,
            tuning,
        ),
{
    let rate = tuning.no_flash_attn_score_centibytes.rate(summary.architecture@) as int;
    let heads = query_heads(summary);
    let a = stream_share(short);
    let b = stream_share(long);
    vstd::arithmetic::div_mod::lemma_div_is_ordered(
        short.context as int,
        long.context as int,
        short.stream_count(),
    );
    vstd::arithmetic::div_mod::lemma_div_pos_is_pos(short.context as int, short.stream_count());
    let u = batch_of(short.ubatch);
    let s = arith::least(a, u);
    let t = arith::least(b, u);
    lemma_query_heads_nonnegative(summary);
    let p = rate * heads;
    assert(p >= 0) by (nonlinear_arith)
        requires
            p == rate * heads,
            rate >= 0,
            heads >= 0,
    ;
    assert(p * a <= p * b && p * a >= 0) by (nonlinear_arith)
        requires
            p >= 0,
            0 <= a <= b,
    ;
    assert(p * a * s <= p * b * t) by (nonlinear_arith)
        requires
            0 <= p * a <= p * b,
            0 <= s <= t,
    ;
    let x = score_centibytes(summary, a, u, tuning);
    let y = score_centibytes(summary, b, u, tuning);
    assert(x <= y);
    assert(x / 100 <= y / 100);
    assert(x / 100 / (MIB as int) <= y / 100 / (MIB as int)) by {
        vstd::arithmetic::div_mod::lemma_div_is_ordered(x / 100, y / 100, MIB as int);
    }
}

/// The score matrix spans one stream's share of the cache: on slots that
/// each have a cache of their own a service holds what one slot holds at that
/// share of the context.
pub proof fn lemma_scores_span_one_share(
    summary: GgufSummary,
    many: EstimatorInputs<'_>,
    one: EstimatorInputs<'_>,
    graph: GraphSize,
    tuning: Tuning,
)
    requires
        one.stream_count() == 1,
        one.context == stream_share(many),
        one == (EstimatorInputs {
            context: one.context,
            parallel: one.parallel,
            kv_unified: one.kv_unified,
            ..many
        }),
    ensures
        head_buffer_mib(summary, many, graph, tuning) == head_buffer_mib(
            summary,
            one,
            graph,
            tuning,
        ),
{
}

/// Whether a model is a Gemma E-variant: only those carry a per-layer
/// embedding stack.
pub open spec fn e_variant(summary: GgufSummary) -> bool {
    summary.tensors@.contains_key("per_layer_token_embd.weight"@)
}

/// Whether a model is a Gemma E-variant.
pub fn is_gemma_e_variant(summary: &GgufSummary) -> (r: bool)
    ensures
        r == e_variant(*summary),
{
    summary.tensors.contains_key("per_layer_token_embd.weight")
}

/// The largest of a tensor's dimensions, zero without any.
pub open spec fn widest(shape: Seq<u64>) -> int
    decreases shape.len(),
{
    if shape.len() == 0 {
        0
    } else {
        arith::greatest(widest(shape.drop_last()), shape.last() as int)
    }
}

fn widest_dimension(shape: &Vec<u64>) -> (r: u64)
    ensures
        r == widest(shape@),
{
    let mut r: u64 = 0;
    for i in 0..shape.len()
        invariant
            r == widest(shape@.take(i as int)),
    {
        proof {
            assert(shape@.take(i + 1).drop_last() =~= shape@.take(i as int));
        }
        if shape[i] > r {
            r = shape[i];
        }
    }
    assert(shape@.take(shape@.len() as int) =~= shape@);
    r
}

/// Vocabulary size, read off the output head or, where the embedding table
/// is the head, off that.
pub open spec fn vocabulary(summary: GgufSummary) -> int {
    if summary.tensors@.contains_key("output.weight"@) {
        widest(summary.tensors@["output.weight"@].shape@)
    } else if summary.tensors@.contains_key("token_embd.weight"@) {
        widest(summary.tensors@["token_embd.weight"@].shape@)
    } else {
        0
    }
}

/// `a * b`, not above what a `u64` holds.
pub open spec fn capped_product(a: int, b: int) -> int {
    arith::least(a * b, u64::MAX as int)
}

fn saturating_product(a: u64, b: u64) -> (r: u64)
    ensures
        r == capped_product(a as int, b as int),
{
    match a.checked_mul(b) {
        Some(p) => p,
        None => u64::MAX,
    }
}

/// Bytes of the logits that only the head device materialises, priced at
/// two bytes an entry so that what is left off the others is never too
/// much.
pub fn output_logits_bytes(summary: &GgufSummary, ubatch: Option<u32>) -> (r: u64)
    ensures
        r == capped_product(capped_product(vocabulary(*summary), batch_of(ubatch)), 2),
{
    let tensor: Option<&GgufTensor> = match summary.tensors.get("output.weight") {
        Some(t) => Some(t),
        None => summary.tensors.get("token_embd.weight"),
    };
    let n_vocab: u64 = match tensor {
        Some(t) => widest_dimension(&t.shape),
        None => 0,
    };
    saturating_product(saturating_product(n_vocab, batch(ubatch) as u64), 2)
}

/// Unless flash attention is switched off the head GPU holds the graph and
/// its extra and nothing else, whatever the context, the batch and the
/// heads; and there is nothing to count.
pub proof fn lemma_fused_attention_holds_no_scores(
    summary: GgufSummary,
    inputs: EstimatorInputs<'_>,
    graph: GraphSize,
    tuning: Tuning,
)
    requires
        inputs.compute_buffer_mb is None,
        inputs.flash_attn is None || inputs.flash_attn == Some(true),
    ensures
        graph.per_device_mib + graph.head_extra_mib <= u32::MAX ==> head_buffer_mib(
            summary,
            inputs,
            graph,
            tuning,
        ) == graph.per_device_mib + graph.head_extra_mib,
        graph.per_device_mib + graph.head_extra_mib > u32::MAX ==> head_buffer_mib(
            summary,
            inputs,
            graph,
            tuning,
        ) == u32::MAX,
        score_fits(summary, inputs, tuning),
{
}

/// A setting of flash attention that is absent is one that is on.
pub proof fn lemma_flash_attention_on_by_default(
    summary: GgufSummary,
    absent: EstimatorInputs<'_>,
    on: EstimatorInputs<'_>,
    graph: GraphSize,
    tuning: Tuning,
)
    requires
        absent.flash_attn is None,
        on == (EstimatorInputs { flash_attn: Some(true), ..absent }),
    ensures
        head_buffer_mib(summary, absent, graph, tuning) == head_buffer_mib(
            summary,
            on,
            graph,
            tuning,
        ),
        score_fits(summary, absent, tuning) && score_fits(summary, on, tuning),
{
}

/// With flash attention off the head GPU holds beside its graph one score
/// per head, cache token and batch token, at the architecture's rate. The
/// cache tokens are one stream's share of the context, and no batch is
/// longer than that.
pub proof fn lemma_unfused_attention_holds_its_scores(
    summary: GgufSummary,
    inputs: EstimatorInputs<'_>,
    graph: GraphSize,
    tuning: Tuning,
    heads: u64,
    tokens: int,
    batch: int,
)
    requires
        inputs.compute_buffer_mb is None,
        inputs.flash_attn == Some(false),
        summary.u64_at("attention.head_count"@) == Some(heads),
        heads > 0,
        inputs.kv_unified == Some(true) || inputs.parallel is None || inputs.parallel == Some(1u32)
            ==> tokens == inputs.context,
        inputs.kv_unified != Some(true) ==> (inputs.parallel matches Some(p) ==> (p > 0 ==> tokens
            == inputs.context as int / p as int)),
        inputs.parallel != Some(0u32),
        inputs.ubatch matches Some(u) ==> batch == (if u < tokens {
            u as int
        } else {
            tokens
        }),
        inputs.ubatch is None ==> batch == (if 512 < tokens {
            512
        } else {
            tokens
        }),
    ensures
        ({
            let scores = tuning.no_flash_attn_score_centibytes.rate(summary.architecture@) * heads
                * tokens * batch / 100 / 1048576;
            let whole = graph.per_device_mib + graph.head_extra_mib + scores;
            whole <= u32::MAX ==> head_buffer_mib(summary, inputs, graph, tuning) == whole
        }),
        score_fits(summary, inputs, tuning) <==> tuning.no_flash_attn_score_centibytes.rate(
            summary.architecture@,
        ) * heads * tokens * batch <= u64::MAX,
{
    assert(stream_share(inputs) == tokens) by {
        if inputs.kv_unified == Some(true) || inputs.parallel is None {
            assert(inputs.context as int / 1 == inputs.context);
        }
    }
    assert(arith::least(tokens, batch_of(inputs.ubatch)) == batch);
    let rate = tuning.no_flash_attn_score_centibytes.rate(summary.architecture@) as int;
    let x = rate * heads * tokens * batch;
    assert(tokens >= 0) by (nonlinear_arith)
        requires
            tokens == stream_share(inputs),
            stream_share(inputs) == inputs.context as int / inputs.stream_count(),
            inputs.stream_count() >= 1,
            inputs.context >= 0,
    ;
    assert(x >= 0) by (nonlinear_arith)
        requires
            x == rate * heads * tokens * batch,
            rate >= 0,
            heads >= 0,
            tokens >= 0,
            batch >= 0,
    ;
}

/// Query heads are those the model declares, or else as many heads as the
/// hidden size holds.
pub proof fn lemma_query_heads(summary: GgufSummary)
    ensures
        summary.u64_at("attention.head_count"@) matches Some(h) ==> (h > 0 ==> query_heads(summary)
            == h),
        summary.u64_at("attention.head_count"@) is None ==> (summary.u64_at("embedding_length"@)
            matches Some(width) ==> (summary.u64_at("attention.key_length"@) matches Some(head)
            ==> (head > 0 ==> query_heads(summary) * head <= width && width < (query_heads(summary)
            + 1) * head))),
        summary.u64_at("attention.head_count"@) is None && (summary.u64_at("embedding_length"@)
            is None || summary.u64_at("attention.key_length"@) is None) ==> query_heads(summary)
            == 0,
{
    if let (Some(width), Some(head)) = (
        summary.u64_at("embedding_length"@),
        summary.u64_at("attention.key_length"@),
    ) {
        if head > 0 {
            let q = width as int / head as int;
            assert(q * head <= width && width < (q + 1) * head) by (nonlinear_arith)
                requires
                    q == width as int / head as int,
                    head > 0,
            ;
        }
    }
}

/// Batches are as long as configured, and 512 tokens by default.
pub proof fn lemma_batch_by_default(ubatch: Option<u32>)
    ensures
        ubatch matches Some(n) ==> batch_of(ubatch) == n,
        ubatch is None ==> batch_of(ubatch) == 512,
{
}

/// No dimension of a tensor exceeds the widest, which is one of them.
pub proof fn lemma_widest(shape: Seq<u64>)
    ensures
        forall|i: int| 0 <= i < shape.len() ==> #[trigger] shape[i] <= widest(shape),
        shape.len() > 0 ==> exists|i: int| 0 <= i < shape.len() && #[trigger] shape[i] == widest(shape),
        shape.len() == 0 ==> widest(shape) == 0,
    decreases shape.len(),
{
    if shape.len() > 0 {
        let rest = shape.drop_last();
        lemma_widest(rest);
        assert forall|i: int| 0 <= i < shape.len() implies #[trigger] shape[i] <= widest(shape) by {
            if i < rest.len() {
                assert(rest[i] <= widest(rest));
            }
        }
        if widest(shape) != shape.last() {
            assert(rest.len() > 0) by {
                if rest.len() == 0 {
                    assert(widest(rest) == 0);
                }
            }
            let i = choose|i: int| 0 <= i < rest.len() && #[trigger] rest[i] == widest(rest);
            assert(shape[i] == widest(shape));
        } else {
            assert(shape[shape.len() - 1] == widest(shape));
        }
    }
}

/// The vocabulary is the widest side of the output head, or of the
/// embedding table where that is the head.
pub proof fn lemma_vocabulary(summary: GgufSummary)
    ensures
        summary.tensors@.contains_key("output.weight"@) ==> vocabulary(summary) == widest(
            summary.tensors@["output.weight"@].shape@,
        ),
        !summary.tensors@.contains_key("output.weight"@) && summary.tensors@.contains_key(
            "token_embd.weight"@,
        ) ==> vocabulary(summary) == widest(summary.tensors@["token_embd.weight"@].shape@),
        !summary.tensors@.contains_key("output.weight"@) && !summary.tensors@.contains_key(
            "token_embd.weight"@,
        ) ==> vocabulary(summary) == 0,
{
}

/// A Gemma E-variant is told by its stack of per-layer embeddings.
pub proof fn lemma_e_variant_by_its_stack(summary: GgufSummary)
    ensures
        e_variant(summary) <==> summary.tensors@.contains_key("per_layer_token_embd.weight"@),
{
}

/// The logits take two bytes for each word of the vocabulary and each token
/// of the batch, and never more than can be counted.
pub proof fn lemma_logits_priced(words: int, tokens: int)
    requires
        0 <= words <= u64::MAX,
        0 <= tokens <= u64::MAX,
    ensures
        words * tokens * 2 <= u64::MAX ==> capped_product(capped_product(words, tokens), 2) == words
            * tokens * 2,
        words * tokens * 2 > u64::MAX ==> capped_product(capped_product(words, tokens), 2)
            == u64::MAX,
{
    assert(words * tokens >= 0) by (nonlinear_arith)
        requires
            words >= 0,
            tokens >= 0,
    ;
}

} // verus!
