//! Mixtures of experts.

use crate::estimate::arith;
use crate::estimate::hybrid;
use crate::estimate::kv;
use crate::estimate::layers;
use crate::estimate::llama_kv;
use crate::estimate::recurrent;
use crate::estimate::tuning::{DEEPSEEK4_CSA_KV_BYTES_PER_TOKEN_LAYER_F16, DEEPSEEK4_CSA_RATIO};
use crate::estimate::types::{EstimatorInputs, ExpertTensor};
use crate::gguf::{GgufSummary, GgufTensor};
use crate::text;
use vstd::arithmetic::overflow::CheckedU64;
use vstd::prelude::*;

verus! {

/// Architectures whose blocks carry fused expert tensors.
pub const MOE_FAMILY: [&'static str; 11] = [
    "llama4",
    "qwen3moe",
    "qwen3vlmoe",
    "deepseek2",
    "mixtral",
    "gpt-oss",
    "glm4moe",
    "qwen35moe",
    "deepseek4",
    "glm-dsa",
    "laguna",
];

/// Whether an architecture is one of [`MOE_FAMILY`].
pub fn is_moe(arch: &str) -> (r: bool)
    ensures
        r == text::listed(MOE_FAMILY@, arch@),
{
    text::is_listed(&MOE_FAMILY, arch)
}

/// How often `ratio` stands in a list.
pub open spec fn times_listed(ratios: Seq<u32>, ratio: u32) -> int
    decreases ratios.len(),
{
    if ratios.len() == 0 {
        0
    } else {
        times_listed(ratios.drop_last(), ratio) + (if ratios.last() == ratio {
            1int
        } else {
            0
        })
    }
}

fn count_listed(ratios: &Vec<u32>, ratio: u32) -> (r: u64)
    ensures
        r == times_listed(ratios@, ratio),
{
    let mut r: u64 = 0;
    for i in 0..ratios.len()
        invariant
            r == times_listed(ratios@.take(i as int), ratio),
            r <= i,
    {
        proof {
            assert(ratios@.take(i + 1).drop_last() =~= ratios@.take(i as int));
        }
        if ratios[i] == ratio {
            r += 1;
        }
    }
    assert(ratios@.take(ratios@.len() as int) =~= ratios@);
    r
}

/// Layers of a deepseek4 model whose cache grows with the context: those
/// declared so, or half of all where none is declared.
pub open spec fn compressed_layers(summary: GgufSummary, n: int) -> int {
    let declared = match summary.value("attention.compress_ratios"@) {
        Some(v) => match v.u32s_view() {
            Some(ratios) => times_listed(ratios, DEEPSEEK4_CSA_RATIO),
            None => 0,
        },
        None => 0,
    };
    if declared > 0 {
        declared
    } else {
        n / 2
    }
}

/// 64ths of the context bytes per token of a deepseek4 model. Its cache
/// holds keys only, so the width of an f16 layer is scaled by the key type.
pub open spec fn compressed_sixty_fourths(
    summary: GgufSummary,
    n: int,
    inputs: EstimatorInputs<'_>,
) -> int {
    compressed_layers(summary, n) * DEEPSEEK4_CSA_KV_BYTES_PER_TOKEN_LAYER_F16 * kv::block_bytes(
        kv::cache_type_of(inputs.cache_type_k),
    )
}

/// Context bytes per token of a deepseek4 model.
pub open spec fn compressed_per_token(
    summary: GgufSummary,
    n: int,
    inputs: EstimatorInputs<'_>,
) -> int {
    if inputs.context == 0 || n == 0 {
        0
    } else {
        compressed_sixty_fourths(summary, n, inputs) / 64
    }
}

/// Layers of a deepseek4 model whose cache grows with the context.
fn compressed_layer_count(summary: &GgufSummary, n_layers: u32) -> (r: u64)
    ensures
        r == compressed_layers(*summary, n_layers as int),
{
    let declared: u64 = match summary.meta("attention.compress_ratios") {
        Some(v) => match v.as_u32_array() {
            Some(ratios) => count_listed(&ratios, DEEPSEEK4_CSA_RATIO),
            None => 0,
        },
        None => 0,
    };
    if declared > 0 {
        declared
    } else {
        (n_layers / 2) as u64
    }
}

fn compressed_size(summary: &GgufSummary, n_layers: u32, inputs: &EstimatorInputs<'_>) -> (r:
    CheckedU64)
    ensures
        r@ == compressed_sixty_fourths(*summary, n_layers as int, *inputs),
{
    let width: u64 = kv::kv_bytes_per_block(kv::cache_type(inputs.cache_type_k));
    let csa_layers: u64 = compressed_layer_count(summary, n_layers);
    arith::product3(csa_layers, DEEPSEEK4_CSA_KV_BYTES_PER_TOKEN_LAYER_F16, width)
}

/// Context bytes per token of a deepseek4 model.
pub fn deepseek4_kv_per_token(
    summary: &GgufSummary,
    n_layers: u32,
    inputs: &EstimatorInputs<'_>,
) -> (r: u64)
    requires
        compressed_sixty_fourths(*summary, n_layers as int, *inputs) <= u64::MAX,
    ensures
        r == compressed_per_token(*summary, n_layers as int, *inputs),
{
    if inputs.context == 0 || n_layers == 0 {
        return 0;
    }
    compressed_size(summary, n_layers, inputs).unwrap() / 64
}

/// Context bytes per token of a model that caches one latent key per layer
/// and no value. A draft head's trailing blocks have no cache here.
pub open spec fn latent_per_token(summary: GgufSummary, n: int, inputs: EstimatorInputs<'_>) -> int {
    arith::least(recurrent::span(summary), n) * kv::head_bytes(
        summary.u32_or("attention.key_length"@, 0),
        0,
        kv::cache_type_of(inputs.cache_type_k),
        kv::cache_type_of(inputs.cache_type_k),
    )
}

fn latent_size(summary: &GgufSummary, n_layers: u32, inputs: &EstimatorInputs<'_>) -> (r: CheckedU64)
    ensures
        r@ == latent_per_token(*summary, n_layers as int, *inputs),
{
    let cache_k = kv::cache_type(inputs.cache_type_k);
    let key: u64 = summary.meta_u32_or("attention.key_length", 0);
    let span: u64 = arith::smaller(
        recurrent::context_layer_span(summary) as u64,
        n_layers as u64,
    );
    arith::product(span, kv::head_width(key, 0, cache_k, cache_k))
}

/// Context bytes per token of a model that caches one latent key per layer.
pub fn mla_kv_per_token(summary: &GgufSummary, n_layers: u32, inputs: &EstimatorInputs<'_>) -> (r:
    u64)
    requires
        latent_per_token(*summary, n_layers as int, *inputs) <= u64::MAX,
    ensures
        r == latent_per_token(*summary, n_layers as int, *inputs),
{
    latent_size(summary, n_layers, inputs).unwrap()
}

/// Whether a model declares that only every so many layers attend fully.
pub open spec fn interval_declared(summary: GgufSummary) -> bool {
    summary.value("full_attention_interval"@) is Some
}

/// Context bytes per token of a mixture of experts.
pub open spec fn per_token(summary: GgufSummary, n: int, inputs: EstimatorInputs<'_>) -> int {
    if summary.architecture@ == "deepseek4"@ {
        compressed_per_token(summary, n, inputs)
    } else if summary.architecture@ == "glm-dsa"@ {
        latent_per_token(summary, n, inputs)
    } else if interval_declared(summary) {
        hybrid::per_token(summary, n, inputs)
    } else {
        llama_kv::per_token(summary, n, inputs)
    }
}

/// Whether the context bytes of a mixture of experts can be counted.
pub open spec fn per_token_fits(summary: GgufSummary, n: int, inputs: EstimatorInputs<'_>) -> bool {
    if summary.architecture@ == "deepseek4"@ {
        compressed_sixty_fourths(summary, n, inputs) <= u64::MAX
    } else if summary.architecture@ == "glm-dsa"@ {
        latent_per_token(summary, n, inputs) <= u64::MAX
    } else if interval_declared(summary) {
        hybrid::per_token_fits(summary, n, inputs)
    } else {
        llama_kv::countable(summary, n, inputs)
    }
}

/// Whether the context bytes of a mixture of experts can be counted.
pub fn is_countable(summary: &GgufSummary, n_layers: u32, inputs: &EstimatorInputs<'_>) -> (r: bool)
    ensures
        r == per_token_fits(*summary, n_layers as int, *inputs),
{
    let arch = summary.architecture.as_str();
    if text::same(arch, "deepseek4") {
        !compressed_size(summary, n_layers, inputs).is_overflowed()
    } else if text::same(arch, "glm-dsa") {
        !latent_size(summary, n_layers, inputs).is_overflowed()
    } else if summary.meta("full_attention_interval").is_some() {
        hybrid::is_countable(summary, n_layers, inputs)
    } else {
        llama_kv::is_countable(summary, n_layers, inputs)
    }
}

/// Context bytes per token of a mixture of experts.
pub fn kv_per_token(summary: &GgufSummary, n_layers: u32, inputs: &EstimatorInputs<'_>) -> (r: u64)
    requires
        per_token_fits(*summary, n_layers as int, *inputs),
    ensures
        r == per_token(*summary, n_layers as int, *inputs),
{
    let arch = summary.architecture.as_str();
    if text::same(arch, "deepseek4") {
        deepseek4_kv_per_token(summary, n_layers, inputs)
    } else if text::same(arch, "glm-dsa") {
        mla_kv_per_token(summary, n_layers, inputs)
    } else if summary.meta("full_attention_interval").is_some() {
        hybrid::kv_for_hybrid(summary, n_layers, inputs)
    } else {
        llama_kv::compute_kv_per_token(summary, n_layers, inputs)
    }
}

/// Whether `a` goes before `b` in the order by layer, then projection.
pub open spec fn expert_before(a: ExpertTensor, b: ExpertTensor) -> bool {
    a.layer < b.layer || (a.layer == b.layer && a.kind.rank() < b.kind.rank())
}

/// The list with `e` placed behind every entry that it does not go before.
pub open spec fn placed(list: Seq<ExpertTensor>, e: ExpertTensor) -> Seq<ExpertTensor>
    decreases list.len(),
{
    if list.len() == 0 || !expert_before(e, list.last()) {
        list.push(e)
    } else {
        placed(list.drop_last(), e).push(list.last())
    }
}

/// The expert tensor that an entry of the tensor table is, in a model of
/// `n` blocks.
pub open spec fn as_expert(t: (Seq<char>, GgufTensor), n: int) -> Option<ExpertTensor> {
    match (layers::block_index(t.0), layers::expert_of(t.0)) {
        (Some(layer), Some(kind)) => if layer < n {
            Some(ExpertTensor { layer, kind, bytes: t.1.byte_size })
        } else {
            None
        },
        _ => None,
    }
}

/// The expert tensors of a model of `n` blocks by layer and projection;
/// those that agree in both stay in the order of the tensor table.
pub open spec fn experts(tensors: Seq<(Seq<char>, GgufTensor)>, n: int) -> Seq<ExpertTensor>
    decreases tensors.len(),
{
    if tensors.len() == 0 {
        Seq::empty()
    } else {
        match as_expert(tensors.last(), n) {
            Some(e) => placed(experts(tensors.drop_last(), n), e),
            None => experts(tensors.drop_last(), n),
        }
    }
}

/// The blocks among the first `n` that hold any expert bytes, ascending.
pub open spec fn expert_blocks(tensors: Seq<(Seq<char>, GgufTensor)>, n: int) -> Seq<u32>
    decreases n,
{
    if n <= 0 {
        Seq::empty()
    } else if layers::sum_where(tensors, layers::expert_in_block(n - 1)) > 0 {
        expert_blocks(tensors, n - 1).push((n - 1) as u32)
    } else {
        expert_blocks(tensors, n - 1)
    }
}

/// Whether a list stands in order of layer, then projection.
pub open spec fn experts_ascend(list: Seq<ExpertTensor>) -> bool {
    forall|i: int, j: int|
        0 <= i < j < list.len() ==> !expert_before(#[trigger] list[j], #[trigger] list[i])
}

proof fn lemma_placed(list: Seq<ExpertTensor>, e: ExpertTensor)
    requires
        experts_ascend(list),
    ensures
        experts_ascend(placed(list, e)),
        placed(list, e).len() == list.len() + 1,
        placed(list, e).to_multiset() == list.to_multiset().insert(e),
        forall|k: int|
            0 <= k < placed(list, e).len() ==> (#[trigger] placed(list, e)[k] == e || exists|m: int|
                0 <= m < list.len() && list[m] == placed(list, e)[k]),
    decreases list.len(),
{
    broadcast use vstd::seq_lib::group_to_multiset_ensures;

    if list.len() == 0 || !expert_before(e, list.last()) {
        assert forall|i: int, j: int| 0 <= i < j < list.push(e).len() implies !expert_before(
            #[trigger] list.push(e)[j],
            #[trigger] list.push(e)[i],
        ) by {
            if j == list.len() {
                if i < list.len() - 1 {
                    assert(!expert_before(list[list.len() - 1], list[i]));
                }
            } else {
                assert(!expert_before(list[j], list[i]));
            }
        }
        assert forall|k: int| 0 <= k < list.push(e).len() implies (#[trigger] list.push(e)[k] == e
            || exists|m: int| 0 <= m < list.len() && list[m] == list.push(e)[k]) by {
            if k < list.len() {
                assert(list[k] == list.push(e)[k]);
            }
        }
    } else {
        let rest = list.drop_last();
        let last = list.last();
        assert forall|i: int, j: int| 0 <= i < j < rest.len() implies !expert_before(
            #[trigger] rest[j],
            #[trigger] rest[i],
        ) by {
            assert(!expert_before(list[j], list[i]));
        }
        lemma_placed(rest, e);
        let inner = placed(rest, e);
        let out = inner.push(last);
        assert(list =~= rest.push(last));
        assert(out.to_multiset() =~= list.to_multiset().insert(e));
        assert forall|k: int| 0 <= k < out.len() implies (#[trigger] out[k] == e || exists|m: int|
            0 <= m < list.len() && list[m] == out[k]) by {
            if k < inner.len() {
                assert(out[k] == inner[k]);
                if inner[k] != e {
                    let m = choose|m: int| 0 <= m < rest.len() && rest[m] == inner[k];
                    assert(list[m] == out[k]);
                }
            } else {
                assert(list[list.len() - 1] == out[k]);
            }
        }
        assert forall|i: int, j: int| 0 <= i < j < out.len() implies !expert_before(
            #[trigger] out[j],
            #[trigger] out[i],
        ) by {
            if j < inner.len() {
                assert(!expert_before(inner[j], inner[i]));
            } else {
                assert(out[i] == inner[i]);
                if inner[i] != e {
                    let m = choose|m: int| 0 <= m < rest.len() && rest[m] == inner[i];
                    assert(!expert_before(list[list.len() - 1], list[m]));
                }
            }
        }
    }
}

/// The expert list stands in order of layer and projection, and names only
/// blocks of the model.
pub proof fn lemma_experts_ordered(tensors: Seq<(Seq<char>, GgufTensor)>, n: int)
    ensures
        experts_ascend(experts(tensors, n)),
        forall|k: int| 0 <= k < experts(tensors, n).len() ==> (#[trigger] experts(tensors, n)[k]).layer
            < n,
    decreases tensors.len(),
{
    if tensors.len() > 0 {
        let rest = tensors.drop_last();
        lemma_experts_ordered(rest, n);
        if let Some(e) = as_expert(tensors.last(), n) {
            lemma_placed(experts(rest, n), e);
            assert forall|k: int| 0 <= k < experts(tensors, n).len() implies (#[trigger] experts(
                tensors,
                n,
            )[k]).layer < n by {
                let out = placed(experts(rest, n), e);
                assert(out[k] == e || exists|m: int|
                    0 <= m < experts(rest, n).len() && experts(rest, n)[m] == out[k]);
            }
        }
    }
}

/// An expert tensor's bytes are part of what its block weighs.
pub proof fn lemma_expert_within_block(tensors: Seq<(Seq<char>, GgufTensor)>, n: int, k: int)
    requires
        0 <= k < experts(tensors, n).len(),
    ensures
        experts(tensors, n)[k].bytes <= layers::sum_where(
            tensors,
            layers::in_block(experts(tensors, n)[k].layer as int),
        ),
    decreases tensors.len(),
{
    let rest = tensors.drop_last();
    let list = experts(rest, n);
    lemma_experts_ordered(rest, n);
    match as_expert(tensors.last(), n) {
        Some(e) => {
            lemma_placed(list, e);
            let out = placed(list, e);
            let layer = out[k].layer as int;
            layers::lemma_sum_narrower(rest, layers::in_block(layer), layers::in_block(layer));
            if out[k] != e {
                let m = choose|m: int| 0 <= m < list.len() && list[m] == out[k];
                lemma_expert_within_block(rest, n, m);
            }
        },
        None => {
            lemma_expert_within_block(rest, n, k);
        },
    }
}

fn goes_before(a: &ExpertTensor, b: &ExpertTensor) -> (r: bool)
    ensures
        r == expert_before(*a, *b),
{
    a.layer < b.layer || (a.layer == b.layer && a.kind.position() < b.kind.position())
}

/// Places `e` behind every entry that it does not go before.
fn place(list: &mut Vec<ExpertTensor>, e: ExpertTensor)
    ensures
        final(list)@ == placed(old(list)@, e),
{
    let ghost start = list@;
    let mut i: usize = list.len();
    proof {
        assert(start.skip(start.len() as int) =~= Seq::empty());
        assert(start.take(start.len() as int) =~= start);
        assert(placed(start, e) =~= placed(start.take(i as int), e) + start.skip(i as int));
    }
    while i > 0 && goes_before(&e, &list[i - 1])
        invariant
            list@ == start,
            i <= start.len(),
            placed(start, e) == placed(start.take(i as int), e) + start.skip(i as int),
        decreases i,
    {
        proof {
            let part = start.take(i as int);
            assert(part.drop_last() =~= start.take(i - 1));
            assert(part.last() == start[i - 1]);
            assert(placed(part, e) == placed(start.take(i - 1), e).push(start[i - 1]));
            assert(placed(start.take(i - 1), e).push(start[i - 1]) + start.skip(i as int)
                =~= placed(start.take(i - 1), e) + start.skip(i - 1));
        }
        i -= 1;
    }
    list.insert(i, e);
    proof {
        let part = start.take(i as int);
        assert(placed(part, e) == part.push(e)) by {
            if i > 0 {
                assert(part.last() == start[i - 1]);
            }
        }
        assert(list@ =~= part.push(e) + start.skip(i as int));
    }
}

/// The expert tensors of a model, in order of layer and projection.
pub fn collect_experts(summary: &GgufSummary, n_layers: u32) -> (r: Vec<ExpertTensor>)
    ensures
        r@ == experts(summary.tensors.pairs(), n_layers as int),
{
    let ghost tensors = summary.tensors.pairs();
    let mut r: Vec<ExpertTensor> = Vec::new();
    let n: usize = summary.tensors.len();
    assert(tensors.take(0) =~= Seq::empty());
    for k in 0..n
        invariant
            n == tensors.len(),
            tensors == summary.tensors.pairs(),
            r@ == experts(tensors.take(k as int), n_layers as int),
    {
        proof {
            assert(tensors.take(k + 1).drop_last() =~= tensors.take(k as int));
            assert(tensors.take(k + 1).last() == tensors[k as int]);
        }
        let name: &str = summary.tensors.key_at(k);
        let bytes: u64 = summary.tensors.value_at(k).byte_size;
        let index: Option<u32> = layers::layer_index(name);
        if let Some(layer) = index {
            if layer < n_layers {
                if let Some(kind) = layers::expert_kind(name) {
                    place(&mut r, ExpertTensor { layer, kind, bytes });
                }
            }
        }
    }
    assert(tensors.take(n as int) =~= tensors);
    r
}

/// The blocks of a model that hold any expert bytes, ascending.
pub fn collect_expert_layers(summary: &GgufSummary, n_layers: u32) -> (r: Vec<u32>)
    requires
        layers::sum_where(summary.tensors.pairs(), layers::every()) <= u64::MAX,
    ensures
        r@ == expert_blocks(summary.tensors.pairs(), n_layers as int),
{
    let ghost tensors = summary.tensors.pairs();
    let mut sizes: Vec<u64> = layers::zeros(n_layers);
    let n: usize = summary.tensors.len();
    for k in 0..n
        invariant
            n == tensors.len(),
            tensors == summary.tensors.pairs(),
            layers::sum_where(tensors, layers::every()) <= u64::MAX,
            sizes@.len() == n_layers,
            forall|i: int|
                0 <= i < n_layers ==> #[trigger] sizes@[i] == layers::sum_where(
                    tensors.take(k as int),
                    layers::expert_in_block(i),
                ),
    {
        let ghost before = sizes@;
        proof {
            assert(tensors.take(k + 1).drop_last() =~= tensors.take(k as int));
            assert(tensors.take(k + 1).last() == tensors[k as int]);
        }
        let name: &str = summary.tensors.key_at(k);
        let bytes: u64 = summary.tensors.value_at(k).byte_size;
        let index: Option<u32> = layers::layer_index(name);
        if let Some(idx) = index {
            if (idx as usize) < sizes.len() && layers::expert_kind(name).is_some() {
                proof {
                    layers::lemma_sum_bounded(
                        tensors,
                        k + 1,
                        layers::expert_in_block(idx as int),
                    );
                }
                let was: u64 = sizes[idx as usize];
                sizes[idx as usize] = was + bytes;
            }
        }
        proof {
            assert forall|i: int| 0 <= i < n_layers implies #[trigger] sizes@[i]
                == layers::sum_where(tensors.take(k + 1), layers::expert_in_block(i)) by {
                assert(before[i] == layers::sum_where(
                    tensors.take(k as int),
                    layers::expert_in_block(i),
                ));
            }
        }
    }
    assert(tensors.take(n as int) =~= tensors);
    let mut r: Vec<u32> = Vec::new();
    let mut i: u32 = 0;
    while i < n_layers
        invariant
            i <= n_layers,
            sizes@.len() == n_layers,
            forall|j: int|
                0 <= j < n_layers ==> #[trigger] sizes@[j] == layers::sum_where(
                    tensors,
                    layers::expert_in_block(j),
                ),
            r@ == expert_blocks(tensors, i as int),
        decreases n_layers - i,
    {
        if sizes[i as usize] > 0 {
            r.push(i);
        }
        i += 1;
    }
    r
}

/// The blocks that are listed as holding experts are those that hold any
/// expert bytes, each once, in ascending order.
pub proof fn lemma_expert_blocks_listed(tensors: Seq<(Seq<char>, GgufTensor)>, n: int)
    requires
        0 <= n <= u32::MAX,
    ensures
        forall|k: u32| #[trigger]
            expert_blocks(tensors, n).contains(k) <==> k < n && layers::sum_where(
                tensors,
                layers::expert_in_block(k as int),
            ) > 0,
        forall|i: int, j: int|
            0 <= i < j < expert_blocks(tensors, n).len() ==> #[trigger] expert_blocks(tensors, n)[i]
                < #[trigger] expert_blocks(tensors, n)[j],
    decreases n,
{
    if n > 0 {
        lemma_expert_blocks_listed(tensors, n - 1);
        let rest = expert_blocks(tensors, n - 1);
        let all = expert_blocks(tensors, n);
        let holds = layers::sum_where(tensors, layers::expert_in_block(n - 1)) > 0;
        assert forall|k: u32| #[trigger]
            all.contains(k) <==> k < n && layers::sum_where(
                tensors,
                layers::expert_in_block(k as int),
            ) > 0 by {
            assert(rest.contains(k) <==> k < n - 1 && layers::sum_where(
                tensors,
                layers::expert_in_block(k as int),
            ) > 0);
            if rest.contains(k) {
                assert(all[rest.index_of(k)] == k);
            }
            if holds {
                assert(all[rest.len() as int] == (n - 1) as u32);
            }
            if all.contains(k) {
                let i = all.index_of(k);
                if i < rest.len() {
                    assert(rest[i] == k);
                }
            }
        }
        assert forall|i: int, j: int| 0 <= i < j < all.len() implies #[trigger] all[i]
            < #[trigger] all[j] by {
            assert(all[i] == rest[i]);
            if j < rest.len() {
                assert(all[j] == rest[j]);
            } else {
                assert(rest.contains(rest[i]));
            }
        }
    }
}

/// The experts that are listed are those of the tensor table, each with its
/// block, its projection and its bytes: a table entry adds its expert and
/// no other, and an entry that is none adds nothing.
pub proof fn lemma_experts_listed(
    tensors: Seq<(Seq<char>, GgufTensor)>,
    entry: (Seq<char>, GgufTensor),
    n: int,
)
    ensures
        match (layers::block_index(entry.0), layers::expert_of(entry.0)) {
            (Some(layer), Some(kind)) => if layer < n {
                experts(tensors.push(entry), n).to_multiset() == experts(
                    tensors,
                    n,
                ).to_multiset().insert(ExpertTensor { layer, kind, bytes: entry.1.byte_size })
            } else {
                experts(tensors.push(entry), n) == experts(tensors, n)
            },
            _ => experts(tensors.push(entry), n) == experts(tensors, n),
        },
        experts(Seq::empty(), n).len() == 0,
{
    assert(tensors.push(entry).drop_last() =~= tensors);
    lemma_experts_ordered(tensors, n);
    if let Some(e) = as_expert(entry, n) {
        lemma_placed(experts(tensors, n), e);
    }
}

} // verus!
