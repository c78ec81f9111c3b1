//! Host memory: the pinned arena, the process baseline, and what is reserved.

use ananke::estimate::compute_buffer::{
    is_gemma_e_variant, output_logits_bytes, per_device_for, GraphSize,
};
use ananke::estimate::host_buffer::{
    checkpoint_headroom_bytes, has_experts, host_overhead_bytes, ik_moe_rate, is_mla,
    pinned_graph_bytes, process_base_bytes, prompt_cache_bytes, slot_host_bytes,
};
use ananke::estimate::tuning::{
    OffsetTable, RateTable, Tuning, DEFAULT_CACHE_RAM_MB, PROCESS_BASE_BYTES_PER_DEVICE,
};
use ananke::estimate::types::{EstimatorInputs, Fork, Speculation, SplitMode};
use ananke::gguf::{GgufSummary, GgufTensor, GgufType, GgufValue};
use ananke::text_map::TextMap;

const MIB: u64 = 1024 * 1024;

fn flat(fallback: u64) -> RateTable {
    RateTable {
        rates: Vec::new(),
        fallback,
    }
}

fn table(entries: &[(&str, u64)], fallback: u64) -> RateTable {
    RateTable {
        rates: entries.iter().map(|(k, v)| (k.to_string(), *v)).collect(),
        fallback,
    }
}

/// A calibration that reproduces the figures the tests below were measured
/// against.
fn tuning() -> Tuning {
    Tuning {
        pinned_extra_bytes: 16 * MIB,
        process_base_bytes: 233 * MIB - 36 * 2_800_000,
        process_base_bytes_per_layer: 2_800_000,
        process_base_bytes_moe: 150 * MIB,
        baseline_offset: OffsetTable {
            offsets: Vec::new(),
            fallback: 0,
        },
        tensor_split_baseline: flat(184 * MIB),
        mtp_host_bytes_embedded: 176 * MIB,
        mtp_host_bytes_separate_draft: 200 * MIB,
        no_flash_attn_rates: table(&[("gemma3", 32768), ("qwen3", 8192), ("llama", 8192)], 32768),
        quantised_cache_rates: table(&[("lfm2", 61), ("deepseek4", 6144)], 6144),
        mainline_tensor_moe_bytes_per_nembd: 64,
        ik_moe_rates: table(
            &[
                ("glm-dsa@1", 28),
                ("glm-dsa@2", 43),
                ("laguna@1", 36),
                ("laguna@2", 54),
                ("qwen35moe@1", 41),
                ("qwen35moe@2", 41),
            ],
            54,
        ),
        per_slot_host_bytes: table(
            &[("qwen35", 163 * MIB), ("gemma3", 89 * MIB), ("llama", 4 * MIB)],
            163 * MIB,
        ),
        checkpoint_headroom_bytes: table(&[("gemma4", 1614 * MIB), ("qwen35", 150 * MIB)], 1614 * MIB),
        no_flash_attn_score_centibytes: flat(400),
        mtp_draft_compute_base_mib: table(&[("qwen35", 98), ("qwen35moe", 44)], 98),
        mtp_draft_compute_mib_per_1k: flat(500),
        draft_model_compute_mib: table(&[("draft-mtp", 620), ("", 0)], 640),
        draft_model_compute_mib_per_1k: table(&[("draft-mtp", 1), ("", 0)], 2),
        mtp_unaccounted_mib_per_device: 40,
        mmproj_graph_bytes: 248 * MIB,
    }
}

fn inputs<'a>(context: u32, ubatch: u32, flash_attn: bool, parallel: u32) -> EstimatorInputs<'a> {
    EstimatorInputs {
        name: "t",
        context,
        ubatch: Some(ubatch),
        parallel: Some(parallel),
        flash_attn: Some(flash_attn),
        kv_unified: Some(false),
        ..EstimatorInputs::empty("/m.gguf")
    }
}

fn set(s: &mut GgufSummary, suffix: &str, value: u32) {
    let key = format!("{}.{}", s.architecture, suffix);
    s.metadata.insert(key, GgufValue::U32(value));
}

fn put_tensor(s: &mut GgufSummary, name: &str, shape: Vec<u64>, bytes: u64) {
    s.tensors.insert(
        name.to_string(),
        GgufTensor {
            name: name.to_string(),
            dtype: GgufType::F16,
            shape,
            byte_size: bytes,
            shard_idx: 0,
            offset: 0,
        },
    );
}

fn summary(arch: &str, n_embd: u32, layers: u32, swa: Option<u32>) -> GgufSummary {
    let mut s = GgufSummary {
        path: "/m.gguf".to_string(),
        total_tensor_bytes: 0,
        tensors: TextMap::new(),
        metadata: TextMap::new(),
        block_count: Some(layers),
        architecture: arch.to_string(),
        shards: Vec::new(),
    };
    set(&mut s, "embedding_length", n_embd);
    if let Some(w) = swa {
        set(&mut s, "attention.sliding_window", w);
    }
    s
}

fn mib(bytes: u64) -> f64 {
    bytes as f64 / MIB as f64
}

/// One measured point of the mainline sweep.
struct Point {
    n_embd: u32,
    layers: u32,
    swa: Option<u32>,
    context: u32,
    ubatch: u32,
    flash_attn: bool,
    parallel: u32,
    arch: &'static str,
    measured_mib: f64,
}

fn qwen3(context: u32, ubatch: u32, flash_attn: bool, parallel: u32, measured_mib: f64) -> Point {
    Point {
        n_embd: 2560,
        layers: 36,
        swa: None,
        context,
        ubatch,
        flash_attn,
        parallel,
        arch: "qwen3",
        measured_mib,
    }
}

#[test]
fn the_arena_model_reproduces_the_hardware_sweep() {
    let points = [
        // Context, at a fixed batch.
        qwen3(8192, 512, true, 4, 12.01),
        qwen3(16384, 512, true, 4, 14.01),
        qwen3(32768, 512, true, 4, 18.01),
        qwen3(65536, 512, true, 4, 26.01),
        // Batch, at a fixed context.
        qwen3(32768, 1024, true, 4, 36.02),
        qwen3(32768, 2048, true, 4, 72.05),
        // Slots, which divide the cache and so the mask.
        qwen3(32768, 512, true, 1, 42.01),
        qwen3(32768, 512, true, 2, 26.01),
        // Without flash attention.
        qwen3(16384, 512, false, 4, 22.01),
        qwen3(32768, 512, false, 4, 30.01),
        qwen3(65536, 512, false, 4, 46.01),
        qwen3(32768, 1024, false, 4, 60.02),
        // Twice the hidden size.
        Point { n_embd: 5120, layers: 64, arch: "qwen35", ..qwen3(8192, 512, true, 4, 22.02) },
        Point { n_embd: 5120, layers: 64, arch: "qwen35", ..qwen3(8192, 1024, true, 4, 44.04) },
        // A second, window-sized mask.
        Point {
            n_embd: 5376,
            layers: 60,
            swa: Some(1024),
            arch: "gemma4",
            ..qwen3(8192, 512, true, 4, 24.52)
        },
    ];
    for p in points {
        let got = mib(pinned_graph_bytes(
            &summary(p.arch, p.n_embd, p.layers, p.swa),
            &inputs(p.context, p.ubatch, p.flash_attn, p.parallel),
            &tuning(),
        ));
        assert!(
            (got - p.measured_mib).abs() < 0.1,
            "n_embd={} ctx={} ub={} fa={} np={}: modelled {got:.2} MiB \
             against {:.2} MiB measured",
            p.n_embd,
            p.context,
            p.ubatch,
            p.flash_attn,
            p.parallel,
            p.measured_mib
        );
    }
}

#[test]
fn the_mainline_model_stays_reachable_on_sparse_attention_models() {
    // (arch, n_embd, swa, ctx, ubatch, parallel, measured MiB)
    let points = [
        ("deepseek4", 4096u32, Some(128u32), 32768u32, 512u32, 4u32, 21.09f64),
        ("deepseek4", 4096, Some(128), 32768, 1024, 4, 43.12),
        ("deepseek4", 4096, Some(128), 65536, 512, 4, 25.09),
        ("glm-dsa", 6144, None, 32768, 512, 4, 40.07),
        ("qwen35moe", 2048, None, 32768, 512, 4, 16.02),
        ("laguna", 3072, Some(512), 32768, 512, 4, 21.02),
    ];
    for (arch, n_embd, swa, ctx, ub, par, measured) in points {
        let got = mib(pinned_graph_bytes(
            &summary(arch, n_embd, 48, swa),
            &inputs(ctx, ub, true, par),
            &tuning(),
        ));
        let ratio = measured / got;
        assert!(
            (0.8..=1.5).contains(&ratio),
            "{arch} ctx={ctx} ub={ub}: modelled {got:.2} MiB against \
             {measured:.2} MiB measured is a ratio of {ratio:.2}"
        );
    }
}

/// One measured point of the ik sweep; `experts` is `(count, used)`.
struct IkPoint {
    n_embd: u32,
    swa: Option<u32>,
    experts: Option<(u32, u32)>,
    dsa: bool,
    context: u32,
    ubatch: u32,
    parallel: u32,
    measured_mib: f64,
}

fn ik(
    n_embd: u32,
    swa: Option<u32>,
    experts: Option<(u32, u32)>,
    dsa: bool,
    context: u32,
    ubatch: u32,
    parallel: u32,
    measured_mib: f64,
) -> IkPoint {
    IkPoint {
        n_embd,
        swa,
        experts,
        dsa,
        context,
        ubatch,
        parallel,
        measured_mib,
    }
}

#[test]
fn the_ik_arena_model_reproduces_its_own_sweep() {
    let few = Some((256, 8));
    let more = Some((256, 10));
    let points = [
        ik(2560, None, None, false, 32768, 512, 4, 37.01),
        ik(2560, None, None, false, 65536, 512, 4, 69.01),
        ik(2560, None, None, false, 32768, 2048, 4, 148.02),
        // The slot count changes nothing here.
        ik(2560, None, None, false, 32768, 512, 1, 37.01),
        // Below the offload threshold, and then above it.
        ik(2048, None, few, false, 32768, 256, 4, 38.26),
        ik(2048, None, few, false, 32768, 512, 4, 76.51),
        ik(2048, None, few, false, 32768, 1024, 4, 72.03),
        ik(2048, None, few, false, 32768, 2048, 4, 144.05),
        ik(2048, None, few, false, 65536, 512, 4, 108.51),
        // A window, so two masks of the whole cache.
        ik(3072, Some(512), more, false, 131072, 2048, 1, 1048.02),
        ik(3072, Some(512), more, false, 32768, 512, 4, 150.50),
        ik(5376, Some(1024), None, false, 8192, 512, 4, 26.51),
        // Sparse attention, so three masks.
        ik(6144, None, few, true, 131072, 2048, 1, 1584.02),
    ];
    for p in points {
        let mut sum = summary("t", p.n_embd, 36, p.swa);
        if let Some((count, used)) = p.experts {
            set(&mut sum, "expert_count", count);
            set(&mut sum, "expert_used_count", used);
        }
        let mut i = inputs(p.context, p.ubatch, true, p.parallel);
        i.fork = Fork::Ik { dsa: p.dsa };
        let got = mib(pinned_graph_bytes(&sum, &i, &tuning()));
        let nt = u64::from(p.context.min(p.ubatch));
        let moe_term_applies = p
            .experts
            .is_some_and(|(count, used)| nt * u64::from(used) < 32 * u64::from(count));
        if moe_term_applies {
            let ratio = p.measured_mib / got;
            assert!(
                (0.8..=1.5).contains(&ratio),
                "ik n_embd={} ctx={} ub={}: modelled {got:.2} MiB against \
                 {:.2} MiB measured is a ratio of {ratio:.2}",
                p.n_embd,
                p.context,
                p.ubatch,
                p.measured_mib
            );
        } else {
            assert!(
                (got - p.measured_mib).abs() < 0.1,
                "ik n_embd={} ctx={} ub={} np={}: modelled {got:.2} MiB \
                 against {:.2} MiB measured",
                p.n_embd,
                p.context,
                p.ubatch,
                p.parallel,
                p.measured_mib
            );
        }
    }
}

#[test]
fn the_forks_disagree_on_the_same_inputs() {
    let s = summary("t", 2560, 36, None);
    let mainline = pinned_graph_bytes(&s, &inputs(32768, 512, true, 4), &tuning());
    let mut ik = inputs(32768, 512, true, 4);
    ik.fork = Fork::Ik { dsa: false };
    let ik_bytes = pinned_graph_bytes(&s, &ik, &tuning());
    assert_eq!(mib(mainline), 18.0);
    assert_eq!(mib(ik_bytes), 37.0);
}

#[test]
fn the_hidden_state_inputs_dominate_a_short_context() {
    let s = summary("t", 5120, 64, None);
    let total = pinned_graph_bytes(&s, &inputs(8192, 512, true, 4), &tuning());
    let mask = 2048 * 512 * 2;
    assert!(
        total - mask > 9 * mask,
        "the mask is a small share of the arena here ({mask} of {total})"
    );
}

fn with_experts(mut s: GgufSummary) -> GgufSummary {
    put_tensor(&mut s, "blk.0.ffn_gate_exps.weight", vec![1], 2);
    s
}

#[test]
fn a_mixture_of_experts_gets_its_own_allowance() {
    for (layers, measured) in [(41u32, 503.0), (43, 546.0), (48, 400.0)] {
        let s = with_experts(summary("t", 2048, layers, None));
        let predicted = mib(process_base_bytes(&s, false, true, &tuning()));
        let ratio = measured / predicted;
        assert!(
            (0.8..=1.5).contains(&ratio),
            "{layers}-layer MoE: predicted {predicted:.0} MiB against \
             {measured:.0} MiB measured is a ratio of {ratio:.2}"
        );
    }
    let dense = process_base_bytes(&summary("t", 2048, 41, None), false, true, &tuning());
    let moe = process_base_bytes(
        &with_experts(summary("t", 2048, 41, None)),
        false,
        true,
        &tuning(),
    );
    assert!(moe > dense);
    assert!(has_experts(&with_experts(summary("t", 2048, 41, None))));
    assert!(!has_experts(&summary("t", 2048, 41, None)));
}

#[test]
fn the_process_baseline_matches_a_serving_process() {
    let small = mib(process_base_bytes(
        &summary("t", 2560, 36, None),
        false,
        true,
        &tuning(),
    ));
    assert!(
        (small - 233.0).abs() < 8.0,
        "36-layer baseline modelled at {small:.0} MiB against 233 MiB measured"
    );
    let large = mib(process_base_bytes(
        &summary("t", 5120, 64, None),
        false,
        true,
        &tuning(),
    ));
    assert!(large > small, "more layers means more graph metadata");
}

#[test]
fn a_correction_moves_the_baseline_both_ways_and_stops_at_zero() {
    let mut t = tuning();
    t.process_base_bytes = 100;
    t.process_base_bytes_per_layer = 10;
    t.baseline_offset = OffsetTable {
        offsets: vec![
            ("t".to_string(), -30),
            ("t@ik".to_string(), 24),
            ("t@nofa".to_string(), -200),
            ("t@ik@nofa".to_string(), 7),
        ],
        fallback: 1,
    };
    let s = summary("t", 1, 2, None);
    assert_eq!(process_base_bytes(&s, false, true, &t), 90);
    assert_eq!(process_base_bytes(&s, true, true, &t), 144);
    assert_eq!(process_base_bytes(&s, false, false, &t), 0);
    assert_eq!(process_base_bytes(&s, true, false, &t), 127);
    assert_eq!(process_base_bytes(&summary("u", 1, 2, None), false, true, &t), 121);
}

#[test]
fn the_host_model_holds_across_the_offload_spread() {
    // (label, CPU KV MiB, measured owned MiB)
    let regimes = [
        ("-ngl 99, 37/37 on GPU", 0.0, 267.0),
        ("-ngl 18, 18/37 on GPU", 2432.0, 2689.0),
        ("-ngl 6,   6/37 on GPU", 3968.0, 4223.0),
        ("-ngl 0,   0/37 on GPU", 4608.0, 4819.0),
    ];
    let s = summary("t", 2560, 36, None);
    let overhead = mib(host_overhead_bytes(
        &s,
        &inputs(32768, 512, true, 4),
        &tuning(),
    ));
    for (label, cpu_kv, measured) in regimes {
        let predicted = overhead + cpu_kv;
        let ratio = measured / predicted;
        assert!(
            (0.95..=1.02).contains(&ratio),
            "{label}: predicted {predicted:.0} MiB against {measured:.0} MiB \
             measured (ratio {ratio:.3})"
        );
        assert!(
            predicted >= measured * 0.99,
            "{label}: the prediction must not fall short of the measurement"
        );
    }
}

#[test]
fn the_two_mtp_shapes_are_charged_differently() {
    let t = tuning();
    let s = summary("gemma4", 5376, 60, Some(1024));
    let mut i = inputs(240000, 512, true, 4);
    i.kv_unified = Some(true);
    let plain = host_overhead_bytes(&s, &i, &t);

    i.speculation = Speculation::EmbeddedMtp;
    let embedded = host_overhead_bytes(&s, &i, &t);
    i.speculation = Speculation::SeparateDraft {
        path: "/d.gguf",
        spec_type: "draft-mtp",
    };
    let separate = host_overhead_bytes(&s, &i, &t);

    assert!(plain < embedded && plain < separate);
    assert_ne!(embedded, separate);
    assert_eq!(
        embedded.abs_diff(separate),
        t.mtp_host_bytes_embedded
            .abs_diff(t.mtp_host_bytes_separate_draft)
    );
    for (predicted, measured) in [(mib(plain), 770.0), (mib(separate), 1274.0)] {
        let ratio = measured / predicted;
        assert!(
            (0.8..=1.5).contains(&ratio),
            "predicted {predicted:.0} MiB against {measured:.0} MiB \
             measured is a ratio of {ratio:.2}"
        );
    }
}

#[test]
fn the_prompt_cache_is_charged_at_its_cap() {
    let mut i = inputs(4096, 512, true, 1);
    assert_eq!(
        prompt_cache_bytes(&i),
        DEFAULT_CACHE_RAM_MB as u64 * 1024 * 1024
    );
    i.cache_ram_mb = Some(0);
    assert_eq!(prompt_cache_bytes(&i), 0);
    i.cache_ram_mb = Some(512);
    assert_eq!(prompt_cache_bytes(&i), 512 * 1024 * 1024);
}

fn plain<'a>(context: u32) -> EstimatorInputs<'a> {
    EstimatorInputs {
        context,
        cache_type_k: Some(GgufType::F16),
        cache_type_v: Some(GgufType::F16),
        ..EstimatorInputs::empty("/fake")
    }
}

#[test]
fn layer_split_replicates_masks_but_tensor_split_does_not() {
    let s = summary("llama", 4096, 2, None);
    let one = pinned_graph_bytes(&s, &plain(32768), &tuning());

    let mut two = plain(32768);
    two.visible_devices = 2;
    two.split_mode = SplitMode::Layer;
    let layered = pinned_graph_bytes(&s, &two, &tuning());

    let mut fused = plain(32768);
    fused.visible_devices = 2;
    fused.split_mode = SplitMode::Tensor;
    let tensored = pinned_graph_bytes(&s, &fused, &tuning());

    assert!(
        layered > one,
        "layer split across two cards must cost more than one card"
    );
    assert_eq!(
        tensored, one,
        "tensor split fuses the cards, so it must match the single-card figure"
    );
    let ratio = layered as f64 / one as f64;
    assert!(
        (1.5..=4.0).contains(&ratio),
        "layer-split arena ratio {ratio:.2} outside the measured range"
    );
}

#[test]
fn each_extra_visible_device_costs_host_memory() {
    let s = summary("llama", 4096, 2, None);
    let mut two = plain(32768);
    two.visible_devices = 2;
    two.split_mode = SplitMode::Tensor;
    let mut four = plain(32768);
    four.visible_devices = 4;
    four.split_mode = SplitMode::Tensor;

    let delta =
        host_overhead_bytes(&s, &four, &tuning()) - host_overhead_bytes(&s, &two, &tuning());
    assert_eq!(delta, 2 * PROCESS_BASE_BYTES_PER_DEVICE);
}

#[test]
fn ik_moe_term_scales_with_hidden_size() {
    let rates = tuning().ik_moe_rates;
    let rate = ik_moe_rate(&rates, "qwen35moe", 2);
    assert_eq!(
        rate,
        ik_moe_rate(&rates, "qwen35moe", 1),
        "qwen35moe is measured card-independent"
    );
    let narrow = rate * 2048;
    let wide = rate * 6144;
    assert_eq!(
        wide,
        3 * narrow,
        "three times the hidden size, three times the term"
    );
    let drift = (narrow as f64 - 82_944.0).abs() / 82_944.0;
    assert!(
        drift < 0.10,
        "term at n_embd 2048 is {narrow}, {:.0}% from the flat constant it replaces",
        drift * 100.0
    );
}

#[test]
fn an_unmeasured_device_count_takes_the_worst_of_its_architecture() {
    let rates = tuning().ik_moe_rates;
    assert_eq!(ik_moe_rate(&rates, "glm-dsa", 1), 28);
    assert_eq!(ik_moe_rate(&rates, "glm-dsa", 0), 28);
    assert_eq!(ik_moe_rate(&rates, "glm-dsa", 2), 43);
    assert_eq!(ik_moe_rate(&rates, "glm-dsa", 3), 43);
    assert_eq!(ik_moe_rate(&rates, "laguna", 8), 54);
    assert_eq!(ik_moe_rate(&rates, "qwen3moe", 1), 54);
}

#[test]
fn only_deepseek4_halves_its_mask() {
    assert!(is_mla("deepseek4"));
    assert!(!is_mla("deepseek2"));
    assert!(!is_mla("glm-dsa"));
    let halved = pinned_graph_bytes(
        &summary("deepseek4", 0, 4, None),
        &inputs(8192, 512, true, 1),
        &tuning(),
    );
    assert_eq!(halved, 8192 * 512);
}

#[test]
fn a_quantised_cache_and_an_e_variant_add_their_own_terms() {
    let mut i = inputs(8192, 512, true, 1);
    let mut s = summary("lfm2", 0, 16, None);
    let before = pinned_graph_bytes(&s, &i, &tuning());
    i.cache_type_v = Some(GgufType::BF16);
    assert_eq!(pinned_graph_bytes(&s, &i, &tuning()), before + 61 * 512);
    set(&mut s, "block_count", 16);
    put_tensor(&mut s, "per_layer_token_embd.weight", vec![256, 4096], 2);
    assert_eq!(
        pinned_graph_bytes(&s, &i, &tuning()),
        before + 61 * 512 + 1028 * 16 * 512
    );
}

#[test]
fn shared_slots_hold_one_window_mask_for_each_batch_the_window_spans() {
    let s = summary("gemma3", 0, 4, Some(1024));
    let at = |ubatch: u32, unified: bool| {
        let mut i = inputs(8192, ubatch, true, 4);
        i.kv_unified = Some(unified);
        pinned_graph_bytes(&s, &i, &tuning())
    };
    // Own caches: a quarter of the context each, and one window mask.
    assert_eq!(at(512, false), 2 * 512 * (2048 + 1536));
    // A shared cache: the whole context, and one mask more than the batches
    // the window spans, at most three.
    assert_eq!(at(512, true), 2 * 512 * (8192 + 3 * 1536));
    assert_eq!(at(2048, true), 2 * 2048 * (8192 + 2 * 3072));
    assert_eq!(at(256, true), 2 * 256 * (8192 + 3 * 1280));
}

#[test]
fn host_experts_under_a_tensor_split_are_held_on_the_host() {
    let s = summary("qwen35moe", 2048, 4, None);
    let mut i = inputs(8192, 512, true, 1);
    i.split_mode = SplitMode::Tensor;
    let before = pinned_graph_bytes(&s, &i, &tuning());
    i.host_resident_experts = true;
    assert_eq!(
        pinned_graph_bytes(&s, &i, &tuning()),
        before + 64 * 2048 * 512
    );
}

#[test]
fn busy_slots_and_checkpoints_are_reserved_by_slot() {
    let t = tuning();
    let i = inputs(8192, 512, true, 4);
    assert_eq!(slot_host_bytes("qwen35", &i, &t), 3 * 163 * MIB);
    assert_eq!(slot_host_bytes("llama", &i, &t), 3 * 4 * MIB);
    assert_eq!(slot_host_bytes("llama", &inputs(8192, 512, true, 0), &t), 0);
    let s = summary("qwen35", 5120, 64, None);
    let one = checkpoint_headroom_bytes(&s, &inputs(8192, 512, true, 1), &t);
    let four = checkpoint_headroom_bytes(&s, &i, &t);
    assert_eq!(one, 150 * MIB);
    assert_eq!(four, 4 * one);
}

// The compute buffer.

#[test]
fn an_operator_override_wins_outright() {
    let s = summary("qwen3", 4096, 36, None);
    let mut i = plain(32768);
    i.visible_devices = 2;
    i.compute_buffer_mb = Some(1234);
    let graph = GraphSize {
        per_device_mib: 400,
        head_extra_mib: 100,
    };
    assert_eq!(per_device_for(&s, &i, graph, &tuning()), 1234);
}

#[test]
fn the_head_device_holds_the_graph_and_its_extra() {
    let mut s = summary("qwen3", 4096, 36, None);
    set(&mut s, "attention.key_length", 128);
    let graph = GraphSize {
        per_device_mib: 400,
        head_extra_mib: 100,
    };
    let fused = inputs(32768, 512, true, 1);
    assert_eq!(per_device_for(&s, &fused, graph, &tuning()), 500);
    let unfused = inputs(32768, 512, false, 1);
    // 32 heads, 32768 cache tokens and 512 batch tokens, at four bytes each.
    assert_eq!(per_device_for(&s, &unfused, graph, &tuning()), 500 + 2048);
}

#[test]
fn a_longer_context_never_reserves_less() {
    let mut s = summary("qwen3", 4096, 32, None);
    set(&mut s, "attention.head_count", 32);
    let graph = GraphSize {
        per_device_mib: 400,
        head_extra_mib: 100,
    };
    let mut previous = 0;
    for context in [0, 8192, 32768, 131072, 524288] {
        let mut i = inputs(context, 512, false, 1);
        i.split_mode = SplitMode::Layer;
        i.visible_devices = 2;
        let got = per_device_for(&s, &i, graph, &tuning());
        assert!(
            got >= previous,
            "ctx {context} reserved {got} against {previous} at the shorter context"
        );
        previous = got;
    }
    // 32 heads, 524288 cache tokens and 512 batch tokens, at four bytes each.
    assert_eq!(previous, 500 + 32768);
}

#[test]
fn scores_span_one_streams_share_of_the_context() {
    let mut s = summary("gemma3", 4096, 36, None);
    set(&mut s, "attention.head_count", 32);
    let graph = GraphSize {
        per_device_mib: 400,
        head_extra_mib: 100,
    };
    let at = |i: &EstimatorInputs<'_>| per_device_for(&s, i, graph, &tuning());
    // Four slots of their own measure what one does at a quarter of the context.
    assert_eq!(at(&inputs(32768, 512, false, 4)), 500 + 512);
    assert_eq!(at(&inputs(8192, 512, false, 1)), 500 + 512);
    // A shared cache is one stream.
    let mut shared = inputs(32768, 512, false, 4);
    shared.kv_unified = Some(true);
    assert_eq!(at(&shared), 500 + 2048);
}

#[test]
fn either_draft_costs_the_host_more_than_none() {
    let s = summary("qwen3", 4096, 36, None);
    let at = |speculation: Speculation<'static>| {
        let mut i = inputs(8192, 512, true, 1);
        i.speculation = speculation;
        host_overhead_bytes(&s, &i, &tuning())
    };
    let off = at(Speculation::Off);
    let embedded = at(Speculation::EmbeddedMtp);
    let separate = at(Speculation::SeparateDraft {
        path: "/draft",
        spec_type: "draft-mtp",
    });
    assert!(off < embedded && off < separate);
    let t = tuning();
    assert_eq!(
        embedded.abs_diff(separate),
        t.mtp_host_bytes_embedded.abs_diff(t.mtp_host_bytes_separate_draft)
    );
}

#[test]
fn an_unmeasured_device_count_takes_the_worst_rate() {
    let rates = table(&[("a@1", 28), ("a@2", 43), ("a@3", 30), ("ab@9", 99)], 54);
    assert_eq!(ik_moe_rate(&rates, "a", 1), 28);
    assert_eq!(ik_moe_rate(&rates, "a", 0), 28);
    assert_eq!(ik_moe_rate(&rates, "a", 3), 30);
    assert_eq!(ik_moe_rate(&rates, "a", 4), 43);
    assert_eq!(ik_moe_rate(&rates, "ab", 1), 99);
    assert_eq!(ik_moe_rate(&rates, "b", 1), 54);
}

#[test]
fn a_child_sees_at_least_one_device() {
    let base = inputs(8192, 512, true, 1);
    assert_eq!(base.with_visible_devices(0).visible_devices, 1);
    assert_eq!(base.with_visible_devices(3).visible_devices, 3);
    assert_eq!(base.with_visible_devices(3).context, 8192);
}

#[test]
fn an_e_variant_is_told_by_its_embedding_stack() {
    let plain = summary("gemma4", 4096, 35, None);
    let mut e = summary("gemma4", 4096, 35, None);
    put_tensor(&mut e, "per_layer_token_embd.weight", vec![256, 4096], 2 * 256 * 4096);
    assert!(is_gemma_e_variant(&e));
    assert!(!is_gemma_e_variant(&plain));
}

#[test]
fn logits_are_sized_by_the_vocabulary_of_the_head() {
    let mut s = summary("qwen3", 4096, 36, None);
    assert_eq!(output_logits_bytes(&s, None), 0);
    put_tensor(&mut s, "token_embd.weight", vec![4096, 151936], 2);
    assert_eq!(output_logits_bytes(&s, None), 151936 * 512 * 2);
    put_tensor(&mut s, "output.weight", vec![32000, 4096], 2);
    assert_eq!(output_logits_bytes(&s, Some(1)), 64000);
    put_tensor(&mut s, "output.weight", vec![u64::MAX], 2);
    assert_eq!(output_logits_bytes(&s, Some(2)), u64::MAX);
}
