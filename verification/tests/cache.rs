//! Context memory: cache types, layer walks, recurrent state, families.

use ananke::config::flags::cache_type;
use ananke::estimate::compute_buffer::GraphSize;
use ananke::estimate::family::{
    hybrid_estimate, is_llama_family, llama_estimate, moe_estimate, LLAMA_FAMILY,
};
use ananke::estimate::hybrid::{is_hybrid, HYBRID_FAMILY};
use ananke::estimate::kv::{is_quantised, kv_bytes_per_block};
use ananke::estimate::layers::{expert_kind, layer_index};
use ananke::estimate::llama_kv::hardcoded_swa_group_size;
use ananke::estimate::moe::{is_moe, MOE_FAMILY};
use ananke::estimate::pipeline::{dispatch, EstimatorError};
use ananke::estimate::recurrent::{context_layer_span, state_bytes};
use ananke::estimate::tuning::{OffsetTable, RateTable, Tuning, SPEC_RECURRENT_ROLLBACK_DEPTH};
use ananke::estimate::types::{Estimate, EstimatorInputs, ExpertKind, Speculation, SplitMode};
use ananke::gguf::{GgufSummary, GgufTensor, GgufType, GgufValue};
use ananke::text_map::TextMap;

const MIB: u64 = 1024 * 1024;

const GRAPH: GraphSize = GraphSize {
    per_device_mib: 400,
    head_extra_mib: 100,
};

fn flat(fallback: u64) -> RateTable {
    RateTable {
        rates: Vec::new(),
        fallback,
    }
}

fn tuning() -> Tuning {
    Tuning {
        pinned_extra_bytes: 0,
        process_base_bytes: 0,
        process_base_bytes_per_layer: 0,
        process_base_bytes_moe: 0,
        baseline_offset: OffsetTable {
            offsets: Vec::new(),
            fallback: 0,
        },
        tensor_split_baseline: flat(0),
        mtp_host_bytes_embedded: 0,
        mtp_host_bytes_separate_draft: 0,
        no_flash_attn_rates: flat(0),
        quantised_cache_rates: flat(0),
        mainline_tensor_moe_bytes_per_nembd: 0,
        ik_moe_rates: flat(0),
        per_slot_host_bytes: flat(0),
        checkpoint_headroom_bytes: flat(0),
        no_flash_attn_score_centibytes: flat(0),
        mtp_draft_compute_base_mib: flat(0),
        mtp_draft_compute_mib_per_1k: flat(0),
        draft_model_compute_mib: flat(0),
        draft_model_compute_mib_per_1k: flat(0),
        mtp_unaccounted_mib_per_device: 0,
        mmproj_graph_bytes: 0,
    }
}

fn tensor(name: &str, bytes: u64) -> GgufTensor {
    GgufTensor {
        name: name.to_string(),
        dtype: GgufType::F16,
        shape: vec![bytes / 2],
        byte_size: bytes,
        shard_idx: 0,
        offset: 0,
    }
}

fn summary(arch: &str, layers: u32) -> GgufSummary {
    let mut s = GgufSummary {
        path: "/fake".to_string(),
        total_tensor_bytes: 0,
        tensors: TextMap::new(),
        metadata: TextMap::new(),
        block_count: Some(layers),
        architecture: arch.to_string(),
        shards: vec!["/fake".to_string()],
    };
    s.metadata.insert(
        "general.architecture".to_string(),
        GgufValue::String(arch.to_string()),
    );
    set(&mut s, "block_count", layers);
    s
}

fn set(s: &mut GgufSummary, suffix: &str, value: u32) {
    let key = format!("{}.{}", s.architecture, suffix);
    s.metadata.insert(key, GgufValue::U32(value));
}

fn set_array(s: &mut GgufSummary, suffix: &str, values: Vec<GgufValue>) {
    let key = format!("{}.{}", s.architecture, suffix);
    s.metadata.insert(key, GgufValue::Array(values));
}

fn put_tensor(s: &mut GgufSummary, name: &str, bytes: u64) {
    s.tensors.insert(name.to_string(), tensor(name, bytes));
}

fn inputs<'a>(cache: GgufType, context: u32) -> EstimatorInputs<'a> {
    EstimatorInputs {
        context,
        name: "demo",
        cache_type_k: Some(cache),
        cache_type_v: Some(cache),
        ..EstimatorInputs::empty("/fake")
    }
}

fn llama(s: &GgufSummary, i: &EstimatorInputs) -> Estimate {
    llama_estimate(s, i, GRAPH, &tuning())
}

fn moe(s: &GgufSummary, i: &EstimatorInputs) -> Estimate {
    moe_estimate(s, i, GRAPH, &tuning())
}

fn hybrid(s: &GgufSummary, i: &EstimatorInputs) -> Estimate {
    hybrid_estimate(s, i, GRAPH, &tuning())
}

// Cache types.

fn kv_bytes_per_element(t: GgufType) -> f64 {
    kv_bytes_per_block(t) as f64 / 32.0
}

#[test]
fn a_projections_word_names_its_expert() {
    for kind in [ExpertKind::Gate, ExpertKind::Up, ExpertKind::Down] {
        for n in [0u32, 7, 10, 405, u32::MAX] {
            let stem = format!("blk.{n}.ffn_{}", kind.tensor_token());
            let name = format!("{stem}_exps.weight");
            assert_eq!(expert_kind(&name), Some(kind));
            assert_eq!(layer_index(&name), Some(n));
            assert_eq!(expert_kind(&format!("{stem}_shexp.weight")), None);
            assert_eq!(expert_kind(&format!("{stem}.weight")), None);
            assert_eq!(expert_kind(&name["blk.".len()..]), None);
        }
    }
}

#[test]
fn q8_0_is_around_1_point_06() {
    assert!((kv_bytes_per_element(GgufType::Q8_0) - 1.0625).abs() < 1e-6);
}

#[test]
fn an_unpriced_type_falls_back_to_f16() {
    assert_eq!(kv_bytes_per_element(GgufType::Q4K), 2.0);
    assert_eq!(kv_bytes_per_element(GgufType::Unknown(999)), 2.0);
}

#[test]
fn q6_0_and_q8_kv_have_correct_bpe() {
    assert_eq!(kv_bytes_per_element(GgufType::Q6_0), 0.8125);
    assert_eq!(kv_bytes_per_element(GgufType::Q8_KV), 1.0);
}

#[test]
fn every_priced_type_has_its_width() {
    assert_eq!(kv_bytes_per_element(GgufType::F32), 4.0);
    assert_eq!(kv_bytes_per_element(GgufType::F16), 2.0);
    assert_eq!(kv_bytes_per_element(GgufType::BF16), 2.0);
    assert_eq!(kv_bytes_per_element(GgufType::Q5_1), 0.75);
    assert_eq!(kv_bytes_per_element(GgufType::Q5_0), 0.6875);
    assert_eq!(kv_bytes_per_element(GgufType::Q4_1), 0.625);
    assert_eq!(kv_bytes_per_element(GgufType::Q4_0), 0.5625);
    assert_eq!(kv_bytes_per_element(GgufType::IQ4_NL), 0.5625);
}

#[test]
fn the_two_quantised_partitions_agree() {
    for name in cache_type::ALL {
        let ty = GgufType::from_name(name).unwrap_or_else(|| panic!("{name} has no ggml type"));
        assert_eq!(
            is_quantised(ty),
            cache_type::is_quantised(name),
            "{name} is classified differently by the two partitions"
        );
    }
}

// Plain attention.

fn fake_summary() -> GgufSummary {
    let mut s = summary("qwen3", 2);
    for layer in 0..2u32 {
        for kind in ["attn_q", "attn_k", "attn_v", "ffn_down"] {
            put_tensor(&mut s, &format!("blk.{layer}.{kind}.weight"), MIB);
        }
    }
    set(&mut s, "attention.head_count_kv", 4);
    set(&mut s, "attention.key_length", 128);
    set(&mut s, "attention.value_length", 128);
    s
}

#[test]
fn kv_uses_arch_metadata() {
    let s = fake_summary();
    let e = llama(&s, &inputs(GgufType::F16, 4096));
    assert_eq!(e.kv_per_token, 4096);
}

#[test]
fn lfm2_hybrid_kv_prices_only_attention_layers() {
    let mut s = summary("lfm2", 16);
    s.total_tensor_bytes = 16 * MIB;
    for layer in 0..16u32 {
        let kind = if layer % 3 == 2 {
            "attn_q"
        } else {
            "shortconv.in_proj"
        };
        put_tensor(&mut s, &format!("blk.{layer}.{kind}.weight"), 1024 * 1024);
    }
    set(&mut s, "embedding_length", 1024);
    set(&mut s, "attention.head_count", 16);
    let kv_array: Vec<GgufValue> = (0..16)
        .map(|i| GgufValue::U32(if i % 3 == 2 { 8 } else { 0 }))
        .collect();
    set_array(&mut s, "attention.head_count_kv", kv_array);

    assert!(is_llama_family("lfm2"));
    let e = llama(&s, &inputs(GgufType::F16, 16384));
    assert_eq!(e.kv_per_token, 10240);
    assert_eq!(e.per_layer_bytes.as_ref().unwrap().len(), 16);
}

#[test]
fn kv_quantised_shrinks() {
    let s = fake_summary();
    let e_q8 = llama(&s, &inputs(GgufType::Q8_0, 4096));
    let e_f16 = llama(&s, &inputs(GgufType::F16, 4096));
    assert!(e_q8.kv_per_token < e_f16.kv_per_token);
    assert_eq!(e_q8.kv_per_token, 2 * 4 * 2 * 136);
}

#[test]
fn a_narrower_cache_never_takes_more() {
    let s = gemma4_summary(&[true, false, true, false], &[8, 0, 4, 2], 512);
    let widths = [
        GgufType::F32,
        GgufType::F16,
        GgufType::Q8_0,
        GgufType::Q8_KV,
        GgufType::Q6_0,
        GgufType::Q5_1,
        GgufType::Q5_0,
        GgufType::Q4_1,
        GgufType::Q4_0,
    ];
    let taken: Vec<u64> = widths
        .iter()
        .map(|t| llama(&s, &inputs(*t, 4096)).kv_per_token)
        .collect();
    for pair in taken.windows(2) {
        assert!(pair[1] <= pair[0], "{taken:?}");
    }
}

#[test]
fn missing_head_count_kv_falls_back_to_head_count() {
    let mut s = summary("talkie", 2);
    for layer in 0..2u32 {
        for kind in ["attn_q", "attn_k", "attn_v", "ffn_down"] {
            put_tensor(&mut s, &format!("blk.{layer}.{kind}.weight"), 1024 * 1024);
        }
    }
    set(&mut s, "attention.head_count", 8);
    set(&mut s, "attention.key_length", 128);
    set(&mut s, "attention.value_length", 128);
    let e = llama(&s, &inputs(GgufType::F16, 4096));
    assert_eq!(e.kv_per_token, 8192);
}

#[test]
fn a_model_without_head_counts_has_no_cache() {
    let s = summary("llama", 2);
    assert_eq!(llama(&s, &inputs(GgufType::F16, 4096)).kv_per_token, 0);
}

fn gemma4_summary(is_swa: &[bool], kv_heads: &[u32], sliding_window: u32) -> GgufSummary {
    assert_eq!(is_swa.len(), kv_heads.len());
    let mut s = summary("gemma4", is_swa.len() as u32);
    set_array(
        &mut s,
        "attention.head_count_kv",
        kv_heads.iter().map(|h| GgufValue::U32(*h)).collect(),
    );
    set(&mut s, "attention.key_length", 512);
    set(&mut s, "attention.value_length", 512);
    set(&mut s, "attention.key_length_swa", 256);
    set(&mut s, "attention.value_length_swa", 256);
    set(&mut s, "attention.sliding_window", sliding_window);
    set_array(
        &mut s,
        "attention.sliding_window_pattern",
        is_swa.iter().map(|b| GgufValue::Bool(*b)).collect(),
    );
    s
}

#[test]
fn gemma4_swa_uses_per_layer_mask_and_swa_head_dims() {
    let mask = [true, true, false, true];
    let heads = [8u32, 8, 8, 8];
    let s = gemma4_summary(&mask, &heads, 1024);
    let e = llama(&s, &inputs(GgufType::F16, 4096));
    let total_kv = e.kv_per_token * e.context as u64;
    assert_eq!(total_kv, 92_274_688);
}

#[test]
fn gemma4_shared_kv_layers_skip_cache() {
    let mask = [true, true, false, true];
    let heads = [8u32, 8, 8, 8];
    let mut s = gemma4_summary(&mask, &heads, 1024);
    set(&mut s, "attention.shared_kv_layers", 1);
    let e = llama(&s, &inputs(GgufType::F16, 4096));
    let total_kv = e.kv_per_token * e.context as u64;
    assert_eq!(total_kv, 92_274_688 - 8_388_608);
}

#[test]
fn gemma4_swa_kv_unified_multiplies_window_by_parallel() {
    let mask = [true, true, false, true];
    let heads = [8u32, 8, 8, 8];
    let s = gemma4_summary(&mask, &heads, 1024);

    let no_kvu = inputs(GgufType::F16, 65536);
    let e_no_kvu = llama(&s, &no_kvu);
    assert_eq!(
        e_no_kvu.kv_per_token * 65536,
        1_098_907_648,
        "without kv_unified, SWA uses 1x window"
    );

    let with_kvu = EstimatorInputs {
        parallel: Some(4),
        kv_unified: Some(true),
        ..inputs(GgufType::F16, 65536)
    };
    let e_with_kvu = llama(&s, &with_kvu);
    assert_eq!(
        e_with_kvu.kv_per_token * 65536,
        1_174_405_120,
        "with kv_unified+parallel=4, SWA uses 4x window"
    );
}

#[test]
fn only_three_architectures_have_a_window_without_a_pattern() {
    assert_eq!(hardcoded_swa_group_size("gemma2"), Some(6));
    assert_eq!(hardcoded_swa_group_size("gemma3"), Some(6));
    assert_eq!(hardcoded_swa_group_size("laguna"), Some(4));
    assert_eq!(hardcoded_swa_group_size("gemma4"), None);
}

#[test]
fn deci_is_llama_family() {
    assert!(is_llama_family("deci"));
}

#[test]
fn gemma4_is_llama_family() {
    assert!(is_llama_family("gemma4"));
}

#[test]
fn talkie_is_llama_family() {
    assert!(is_llama_family("talkie"));
}

#[test]
fn gemma3n_is_llama_family() {
    assert!(is_llama_family("gemma3n"));
}

#[test]
fn no_architecture_is_in_two_families() {
    for arch in LLAMA_FAMILY {
        assert!(is_llama_family(arch) && !is_moe(arch) && !is_hybrid(arch));
    }
    for arch in MOE_FAMILY {
        assert!(!is_llama_family(arch) && is_moe(arch) && !is_hybrid(arch));
    }
    for arch in HYBRID_FAMILY {
        assert!(!is_llama_family(arch) && !is_moe(arch) && is_hybrid(arch));
    }
}

// Hybrids.

fn fake_hybrid_summary(arch: &str, n_layers: u32, interval: Option<u32>) -> GgufSummary {
    let mut s = summary(arch, n_layers);
    for layer in 0..n_layers {
        put_tensor(&mut s, &format!("blk.{layer}.attn_q.weight"), 1024 * 1024);
    }
    put_tensor(&mut s, "output.weight", 2 * 1024 * 1024);
    put_tensor(&mut s, "token_embd.weight", 4 * 1024 * 1024);
    set(&mut s, "attention.head_count_kv", 4);
    set(&mut s, "attention.key_length", 128);
    set(&mut s, "attention.value_length", 128);
    if let Some(interval) = interval {
        set(&mut s, "full_attention_interval", interval);
    }
    set(&mut s, "ssm.conv_kernel", 4);
    set(&mut s, "ssm.inner_size", 6144);
    set(&mut s, "ssm.state_size", 128);
    set(&mut s, "ssm.group_count", 16);
    s
}

#[test]
fn qwen35_kv_scales_with_full_attention_interval() {
    let s = fake_hybrid_summary("qwen35", 64, Some(4));
    let e = hybrid(&s, &inputs(GgufType::F16, 4096));
    assert_eq!(e.kv_per_token, 71072);
}

#[test]
fn jamba_kv_no_interval_scales_all_layers() {
    let s = fake_hybrid_summary("jamba", 80, None);
    let e = hybrid(&s, &inputs(GgufType::F16, 4096));
    assert_eq!(e.kv_per_token, 163840);
}

#[test]
fn hybrid_is_recognised() {
    assert!(is_hybrid("jamba"));
    assert!(is_hybrid("qwen35"));
}

#[test]
fn tensors_are_shared_out_between_blocks_and_the_rest() {
    let mut s = fake_hybrid_summary("qwen35", 3, None);
    put_tensor(&mut s, "output_norm.weight", 10);
    put_tensor(&mut s, "blk.7.attn_q.weight", 1000);
    let e = hybrid(&s, &inputs(GgufType::F16, 4096));
    assert_eq!(e.per_layer_bytes, Some(vec![MIB, MIB, MIB]));
    assert_eq!(e.non_layer.output_head_bytes, 2 * MIB);
    assert_eq!(e.non_layer.token_embd_bytes, 4 * MIB);
    assert_eq!(e.non_layer.other_bytes, 10);
    assert_eq!(e.weights_bytes, 9 * MIB + 10);
    assert_eq!(e.compute_buffer_mb, 500);
}

// Mixtures of experts.

#[test]
fn deepseek4_kv_uses_csa_layer_count_not_naive_mla() {
    let n_layers = 43u32;
    let compress_ratios: Vec<GgufValue> = (0..n_layers)
        .map(|i| {
            GgufValue::U32(match i {
                0 | 1 => 0,
                i if i % 2 == 0 => 4,
                _ => 128,
            })
        })
        .collect();
    let csa_layers = compress_ratios
        .iter()
        .filter(|v| matches!(v, GgufValue::U32(4)))
        .count();
    assert_eq!(csa_layers, 21, "sanity: fixture has 21 CSA layers");

    let mut s = summary("deepseek4", n_layers);
    for layer in 0..n_layers {
        for kind in ["attn_kv", "ffn_gate_exps", "ffn_gate_shexp"] {
            put_tensor(&mut s, &format!("blk.{layer}.{kind}.weight"), 1024 * 1024);
        }
    }
    set(&mut s, "attention.head_count_kv", 1);
    set(&mut s, "attention.key_length", 512);
    set(&mut s, "attention.value_length", 512);
    set_array(&mut s, "attention.compress_ratios", compress_ratios);

    let e = moe(&s, &inputs(GgufType::F16, 131072));
    assert_eq!(e.kv_per_token, 6657);
    assert!(
        e.kv_per_token < 88_064 / 10,
        "deepseek4 KV must be far below the naive MLA estimate; got {}",
        e.kv_per_token
    );
    assert_eq!(e.expert_tensors.as_ref().unwrap().len(), 43);
}

#[test]
fn deepseek4_kv_scales_with_cache_type() {
    let s = summary("deepseek4", 43);
    assert_eq!(moe(&s, &inputs(GgufType::F16, 131072)).kv_per_token, 6657);
    assert!(moe(&s, &inputs(GgufType::Q8_0, 131072)).kv_per_token < 6657);
}

#[test]
fn qwen35moe_kv_scales_with_full_attention_interval() {
    let mut s = summary("qwen35moe", 8);
    for layer in 0..8u32 {
        put_tensor(&mut s, &format!("blk.{layer}.attn_q.weight"), 1024 * 1024);
    }
    set(&mut s, "attention.head_count_kv", 4);
    set(&mut s, "attention.key_length", 128);
    set(&mut s, "attention.value_length", 128);
    set(&mut s, "full_attention_interval", 4);
    for (key, value) in [
        ("ssm.conv_kernel", 4u32),
        ("ssm.inner_size", 4096),
        ("ssm.state_size", 128),
        ("ssm.group_count", 16),
    ] {
        set(&mut s, key, value);
    }
    let i = EstimatorInputs {
        name: "demo",
        context: 4096,
        ..EstimatorInputs::empty("/fake")
    };
    let e = moe(&s, &i);
    assert_eq!(e.kv_per_token, 7312);
}

#[test]
fn expert_pattern_matches() {
    assert_eq!(
        expert_kind("blk.0.ffn_gate_exps.weight"),
        Some(ExpertKind::Gate)
    );
    assert_eq!(
        expert_kind("blk.1.ffn_up_exps.weight"),
        Some(ExpertKind::Up)
    );
    assert_eq!(
        expert_kind("blk.5.ffn_down_exps.weight"),
        Some(ExpertKind::Down)
    );
    assert_eq!(expert_kind("blk.0.ffn_gate.weight"), None);
    assert_eq!(expert_kind("blk.0.ffn_gate_shexp.weight"), None);
    assert_eq!(expert_kind("output.weight"), None);
}

#[test]
fn a_block_number_is_read_from_the_tensor_name() {
    assert_eq!(layer_index("blk.12.attn_q.weight"), Some(12));
    assert_eq!(layer_index("output.weight"), None);
    assert_eq!(layer_index("blk.x.attn_q.weight"), None);
    assert_eq!(layer_index("blk.99999999999.attn_q.weight"), None);
}

#[test]
fn itemises_expert_tensors_with_full_per_layer() {
    let mut s = summary("qwen3moe", 3);
    for layer in 0..3u32 {
        put_tensor(&mut s, &format!("blk.{layer}.attn_q.weight"), 1024 * 1024);
        let size = match layer {
            0 => 4,
            1 => 10,
            2 => 2,
            _ => unreachable!(),
        };
        put_tensor(
            &mut s,
            &format!("blk.{layer}.ffn_gate_exps.weight"),
            size * 1024 * 1024,
        );
    }
    let i = EstimatorInputs {
        name: "demo",
        context: 4096,
        ..EstimatorInputs::empty("/fake")
    };
    let e = moe(&s, &i);
    let experts = e.expert_tensors.expect("MoE arch must itemise experts");
    assert_eq!(experts.len(), 3, "one fused gate tensor per layer");
    assert_eq!(experts[0].layer, 0);
    assert_eq!(experts[0].bytes, 4 * 1024 * 1024);
    assert_eq!(experts[1].layer, 1);
    assert_eq!(experts[1].bytes, 10 * 1024 * 1024);
    assert_eq!(experts[2].layer, 2);
    assert_eq!(experts[2].bytes, 2 * 1024 * 1024);
    let per_layer = e.per_layer_bytes.expect("per-layer breakdown");
    assert_eq!(per_layer[1], (1 + 10) * 1024 * 1024);
}

#[test]
fn experts_come_in_the_order_of_layer_and_projection() {
    let mut s = summary("qwen3moe", 12);
    for layer in [10u32, 2] {
        for kind in ["up", "gate", "down"] {
            put_tensor(&mut s, &format!("blk.{layer}.ffn_{kind}_exps.weight"), 8);
        }
    }
    let e = moe(&s, &inputs(GgufType::F16, 4096));
    let order: Vec<(u32, ExpertKind)> = e
        .expert_tensors
        .unwrap()
        .iter()
        .map(|t| (t.layer, t.kind))
        .collect();
    assert_eq!(
        order,
        vec![
            (2, ExpertKind::Gate),
            (2, ExpertKind::Up),
            (2, ExpertKind::Down),
            (10, ExpertKind::Gate),
            (10, ExpertKind::Up),
            (10, ExpertKind::Down),
        ]
    );
    assert_eq!(e.expert_layers, vec![2, 10]);
    assert_eq!(ExpertKind::Gate.tensor_token(), "gate");
}

#[test]
fn laguna_kv_uses_scalar_head_count_kv_not_variable_head_count() {
    let n_layers = 48u32;
    let mut s = summary("laguna", n_layers);
    for layer in 0..n_layers {
        for kind in ["attn_q", "attn_k", "attn_v", "attn_output"] {
            put_tensor(&mut s, &format!("blk.{layer}.{kind}.weight"), 1024 * 1024);
        }
        if layer > 0 {
            for kind in ["ffn_gate_exps", "ffn_up_exps", "ffn_down_exps"] {
                put_tensor(&mut s, &format!("blk.{layer}.{kind}.weight"), 1024 * 1024);
            }
            for kind in ["ffn_gate_shexp", "ffn_up_shexp", "ffn_down_shexp"] {
                put_tensor(&mut s, &format!("blk.{layer}.{kind}.weight"), 1024 * 1024);
            }
        }
    }
    let head_count: Vec<GgufValue> = (0..n_layers)
        .map(|i| GgufValue::U32(if i % 4 == 0 { 48 } else { 72 }))
        .collect();
    set_array(&mut s, "attention.head_count", head_count);
    set(&mut s, "attention.head_count_kv", 8);
    set(&mut s, "attention.key_length", 128);
    set(&mut s, "attention.value_length", 128);
    set(&mut s, "attention.sliding_window", 512);

    let e = moe(&s, &inputs(GgufType::F16, 32768));
    assert_eq!(e.kv_per_token, 51_456);

    let experts = e.expert_tensors.expect("MoE arch must itemise experts");
    assert_eq!(experts.len(), 141);
    assert_eq!(e.expert_layers.len(), 47);
    assert!(!e.expert_layers.contains(&0u32));

    let e_q8 = moe(&s, &inputs(GgufType::Q8_0, 32768));
    assert_eq!(e_q8.kv_per_token, 27_336);
    assert!(e_q8.kv_per_token < e.kv_per_token);
}

// Recurrent state.

fn recurrent_summary(
    arch: &str,
    blocks: u32,
    nextn: u32,
    entries: &[(&str, u32)],
) -> GgufSummary {
    let mut s = summary(arch, blocks);
    set(&mut s, "nextn_predict_layers", nextn);
    for (key, value) in entries {
        set(&mut s, key, *value);
    }
    s
}

fn qwen35moe() -> GgufSummary {
    recurrent_summary(
        "qwen35moe",
        41,
        1,
        &[
            ("ssm.conv_kernel", 4),
            ("ssm.inner_size", 4096),
            ("ssm.state_size", 128),
            ("ssm.group_count", 16),
        ],
    )
}

fn slots<'a>(parallel: u32, mtp: bool) -> EstimatorInputs<'a> {
    EstimatorInputs {
        parallel: Some(parallel),
        speculation: if mtp {
            Speculation::EmbeddedMtp
        } else {
            Speculation::Off
        },
        ..inputs(GgufType::Q8_0, 32768)
    }
}

#[test]
fn qwen35moe_reproduces_the_measured_single_slot_state() {
    let s = qwen35moe();
    assert_eq!(context_layer_span(&s), 40);
    let bytes = state_bytes(&s, 30, &slots(1, false));
    assert_eq!(
        bytes,
        (2.8125_f64 * 1024.0 * 1024.0) as u64 + 60 * 1024 * 1024
    );
}

#[test]
fn scales_with_parallel_even_under_unified_kv() {
    let s = qwen35moe();
    let at = |np: u32| {
        let mut i = slots(np, false);
        i.kv_unified = Some(true);
        state_bytes(&s, 30, &i)
    };
    assert_eq!(at(2), at(1) * 2);
    assert_eq!(at(4), at(1) * 4);
}

#[test]
fn speculative_decoding_replicates_the_whole_module() {
    let s = qwen35moe();
    let plain = state_bytes(&s, 30, &slots(1, false));
    let spec = state_bytes(&s, 30, &slots(2, true));
    assert_eq!(spec, plain * 2 * (SPEC_RECURRENT_ROLLBACK_DEPTH + 1));
}

#[test]
fn shortconv_has_a_rolling_state_and_no_ssm_state() {
    let s = recurrent_summary(
        "lfm2",
        16,
        0,
        &[("shortconv.l_cache", 3), ("embedding_length", 1024)],
    );
    let bytes = state_bytes(&s, 10, &slots(1, false));
    assert_eq!(bytes, 10 * 1024 * 2 * 4);
}

#[test]
fn a_pure_attention_model_has_no_recurrent_state() {
    let s = recurrent_summary("llama", 32, 0, &[("embedding_length", 4096)]);
    assert_eq!(state_bytes(&s, 0, &slots(1, false)), 0);
    assert_eq!(state_bytes(&s, 32, &slots(1, false)), 0);
}

// The choice of a family.

#[test]
fn dispatch_recognises_known_families() {
    let s = summary("qwen3", 1);
    let e = dispatch(&s, &inputs(GgufType::F16, 4096), GRAPH, &tuning(), None).unwrap();
    assert_eq!(e.architecture, "qwen3");
}

#[test]
fn an_unrecognised_architecture_is_refused() {
    let mut s = summary("novel-arch", 0);
    s.total_tensor_bytes = 1_000_000;
    s.block_count = None;
    match dispatch(&s, &inputs(GgufType::F16, 4096), GRAPH, &tuning(), None) {
        Err(EstimatorError::UnknownArchitecture { architecture }) => {
            assert_eq!(architecture, "novel-arch");
        }
        other => panic!("expected UnknownArchitecture; got {other:?}"),
    }
}

/// Architectures that the mamba family covers.
const MAMBA: [&str; 2] = ["mamba", "mamba2"];

#[test]
fn the_refusal_names_every_recognised_architecture() {
    let message = EstimatorError::UnknownArchitecture {
        architecture: "novel-arch".to_string(),
    }
    .text(&MAMBA);
    for arch in LLAMA_FAMILY
        .iter()
        .chain(&MOE_FAMILY)
        .chain(&MAMBA)
        .chain(&HYBRID_FAMILY)
    {
        assert!(
            message.contains(arch),
            "{} missing from the refusal message",
            arch
        );
    }
    assert!(message.starts_with("architecture novel-arch is not recognised"));
    assert!(message.contains("] mamba=[mamba,mamba2] hybrid=["));
}

#[test]
fn a_read_failure_names_the_file_and_the_cause() {
    let message = EstimatorError::GgufRead {
        path: "/m.gguf".to_string(),
        cause: "truncated".to_string(),
    }
    .text(&MAMBA);
    assert_eq!(message, "read gguf at /m.gguf: truncated");
}

// Fingerprints.

fn baseline<'a>() -> EstimatorInputs<'a> {
    EstimatorInputs {
        name: "test",
        context: 4096,
        ubatch: Some(512),
        split_mode: SplitMode::Layer,
        ..EstimatorInputs::empty("/fake/model.gguf")
    }
}

#[test]
fn fingerprint_distinguishes_split_mode() {
    let a = baseline();
    let b = EstimatorInputs {
        split_mode: SplitMode::Tensor,
        ..baseline()
    };
    assert_ne!(
        a.config_fingerprint(),
        b.config_fingerprint(),
        "split_mode must participate in the fingerprint"
    );
}

#[test]
fn fingerprint_distinguishes_visible_devices() {
    let a = baseline();
    let b = EstimatorInputs {
        visible_devices: 2,
        ..baseline()
    };
    assert_ne!(
        a.config_fingerprint(),
        b.config_fingerprint(),
        "visible_devices must participate in the fingerprint"
    );
}

#[test]
fn fingerprint_distinguishes_host_resident_experts() {
    let a = baseline();
    let b = EstimatorInputs {
        host_resident_experts: true,
        ..baseline()
    };
    assert_ne!(
        a.config_fingerprint(),
        b.config_fingerprint(),
        "host_resident_experts must participate in the fingerprint"
    );
}

#[test]
fn fingerprint_stable_for_identical_inputs() {
    assert_eq!(
        baseline().config_fingerprint(),
        baseline().config_fingerprint(),
        "identical inputs must produce identical fingerprints"
    );
}

#[test]
fn fingerprint_ignores_the_name() {
    let a = baseline();
    let b = EstimatorInputs {
        name: "another",
        ..baseline()
    };
    assert_eq!(a.config_fingerprint(), b.config_fingerprint());
}
