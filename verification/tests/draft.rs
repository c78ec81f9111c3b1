//! Draft contexts, and the estimate as a whole.

use ananke::estimate::compute_buffer::GraphSize;
use ananke::estimate::device_bytes::DeviceBytes;
use ananke::estimate::mtp::{mtp_overhead_bytes, mtp_weight_bytes};
use ananke::estimate::pipeline::{
    dispatch, estimate_if_countable, estimate_with_summary, is_countable, EstimatorError,
};
use ananke::estimate::tuning::{OffsetTable, RateTable, Tuning};
use ananke::estimate::types::{
    DeviceSlot, Estimate, EstimatorInputs, Fork, NonLayer, Speculation, SplitMode,
};
use ananke::gguf::{GgufSummary, GgufTensor, GgufType, GgufValue};
use ananke::text_map::TextMap;

const MIB: u64 = 1024 * 1024;

fn flat(fallback: u64) -> RateTable {
    RateTable {
        rates: Vec::new(),
        fallback,
    }
}

fn table(entries: &[(&str, u64)], fallback: u64) -> RateTable {
    RateTable {
        rates: entries.iter().map(|(k, v)| (k.to_string(), *v)).collect(),
        fallback,
    }
}

/// A calibration that reproduces the figures the tests below were measured
/// against.
fn tuning() -> Tuning {
    Tuning {
        pinned_extra_bytes: 16 * MIB,
        process_base_bytes: 233 * MIB - 36 * 2_800_000,
        process_base_bytes_per_layer: 2_800_000,
        process_base_bytes_moe: 150 * MIB,
        baseline_offset: OffsetTable {
            offsets: Vec::new(),
            fallback: 0,
        },
        tensor_split_baseline: flat(184 * MIB),
        mtp_host_bytes_embedded: 176 * MIB,
        mtp_host_bytes_separate_draft: 200 * MIB,
        no_flash_attn_rates: table(&[("gemma3", 32768), ("qwen3", 8192), ("llama", 8192)], 32768),
        quantised_cache_rates: table(&[("lfm2", 61), ("deepseek4", 6144)], 6144),
        mainline_tensor_moe_bytes_per_nembd: 64,
        ik_moe_rates: table(
            &[
                ("glm-dsa@1", 28),
                ("glm-dsa@2", 43),
                ("laguna@1", 36),
                ("laguna@2", 54),
                ("qwen35moe@1", 41),
                ("qwen35moe@2", 41),
            ],
            54,
        ),
        per_slot_host_bytes: table(
            &[("qwen35", 163 * MIB), ("gemma3", 89 * MIB), ("llama", 4 * MIB)],
            163 * MIB,
        ),
        checkpoint_headroom_bytes: table(&[("gemma4", 1614 * MIB), ("qwen35", 150 * MIB)], 1614 * MIB),
        no_flash_attn_score_centibytes: flat(400),
        mtp_draft_compute_base_mib: table(&[("qwen35", 98), ("qwen35moe", 44)], 98),
        mtp_draft_compute_mib_per_1k: flat(500),
        draft_model_compute_mib: table(&[("draft-mtp", 620), ("", 0)], 640),
        draft_model_compute_mib_per_1k: table(&[("draft-mtp", 1), ("", 0)], 2),
        mtp_unaccounted_mib_per_device: 40,
        mmproj_graph_bytes: 248 * MIB,
    }
}

fn set(s: &mut GgufSummary, suffix: &str, value: u32) {
    let key = format!("{}.{}", s.architecture, suffix);
    s.metadata.insert(key, GgufValue::U32(value));
}

fn put_tensor(s: &mut GgufSummary, name: &str, bytes: u64) {
    s.tensors.insert(
        name.to_string(),
        GgufTensor {
            name: name.to_string(),
            dtype: GgufType::F16,
            shape: vec![bytes / 2],
            byte_size: bytes,
            shard_idx: 0,
            offset: 0,
        },
    );
    s.total_tensor_bytes += bytes;
}

fn bare(path: &str, arch: &str, blocks: u32) -> GgufSummary {
    GgufSummary {
        path: path.to_string(),
        total_tensor_bytes: 0,
        tensors: TextMap::new(),
        metadata: TextMap::new(),
        block_count: Some(blocks),
        architecture: arch.to_string(),
        shards: vec![path.to_string()],
    }
}

fn target_summary(arch: &str, nextn: u32, kv_heads: u32) -> GgufSummary {
    let mut s = bare("/fake", arch, 65);
    set(&mut s, "nextn_predict_layers", nextn);
    set(&mut s, "attention.head_count_kv", kv_heads);
    set(&mut s, "attention.key_length", 256);
    set(&mut s, "attention.value_length", 256);
    s
}

fn draft_summary(token_embd_mib: u64, gpu_weight_mib: u64) -> GgufSummary {
    let mut s = bare("/fake-draft", "gemma4-assistant", 4);
    put_tensor(&mut s, "token_embd.weight", token_embd_mib * 1024 * 1024);
    put_tensor(&mut s, "blk.0.attn_q.weight", gpu_weight_mib * 1024 * 1024);
    s
}

fn inputs<'a>(context: u32, speculation: Speculation<'a>) -> EstimatorInputs<'a> {
    EstimatorInputs {
        context,
        cache_type_k: Some(GgufType::Q8_0),
        cache_type_v: Some(GgufType::Q8_0),
        speculation,
        ..EstimatorInputs::empty("/fake")
    }
}

fn separate(spec_type: &str) -> Speculation<'_> {
    Speculation::SeparateDraft {
        path: "/fake-draft",
        spec_type,
    }
}

fn overhead(s: &GgufSummary, draft: Option<&GgufSummary>, i: &EstimatorInputs) -> u64 {
    mtp_overhead_bytes(s, draft, i, &tuning())
}

#[test]
fn zero_when_mtp_disabled() {
    let s = target_summary("qwen35", 1, 4);
    assert_eq!(overhead(&s, None, &inputs(262144, Speculation::Off)), 0);
}

#[test]
fn zero_when_no_mtp_head() {
    let s = target_summary("qwen35", 0, 4);
    assert_eq!(
        overhead(&s, None, &inputs(262144, Speculation::EmbeddedMtp)),
        0
    );
}

#[test]
fn embedded_head_reproduces_the_runtimes_own_figure() {
    // (arch, kv heads, n_embd, context, slots, reported MiB, cache MiB)
    let cells = [
        ("qwen35", 4u32, 5120u32, 360448u32, 2u32, 1652u64, 1408u64),
        ("qwen35moe", 2, 2048, 524288, 2, 1320, 1024),
    ];
    for (arch, kv_heads, n_embd, context, slots, reported, cache) in cells {
        let mut s = target_summary(arch, 1, kv_heads);
        set(&mut s, "embedding_length", n_embd);
        let mut i = inputs(context, Speculation::EmbeddedMtp);
        i.parallel = Some(slots);
        i.visible_devices = 2;
        let mib = overhead(&s, None, &i) / (1024 * 1024);

        let modelled_cache = u64::from(kv_heads) * 512 * 2 * u64::from(context) / (1024 * 1024);
        assert_eq!(modelled_cache, cache, "{arch} draft cache");

        let share = reported - cache;
        let books = cache + 2 * share;
        let expected = books + 2 * tuning().mtp_unaccounted_mib_per_device;
        assert!(
            mib >= books,
            "{arch}: {mib} MiB must cover the cache plus both cards' \
             {share} MiB share"
        );
        assert!(
            mib <= expected + 96,
            "{arch}: {mib} MiB over-reserves against {expected} MiB \
             ({books} on the runtime's books plus the measured remainder)"
        );
    }
}

#[test]
fn uses_f16_draft_cache_not_main_cache_type() {
    let s = target_summary("qwen35", 1, 4);
    let mib = overhead(&s, None, &inputs(262144, Speculation::EmbeddedMtp)) / (1024 * 1024);
    assert!(mib >= 1024, "the draft cache must be priced at f16: {mib}");
}

#[test]
fn overhead_does_not_scale_with_slots() {
    let s = target_summary("qwen35", 1, 4);
    let at = |slots: u32| {
        let mut i = inputs(262144, Speculation::EmbeddedMtp);
        i.parallel = Some(slots);
        i.kv_unified = Some(true);
        overhead(&s, None, &i)
    };
    assert_eq!(at(1), at(2));
    assert_eq!(at(1), at(4));
}

#[test]
fn separate_draft_counts_gpu_weights_plus_compute_not_kv() {
    let target = target_summary("gemma4", 0, 4);
    let draft = draft_summary(144, 108);
    let spec_type = "draft-mtp";
    let at = |context: u32| {
        overhead(&target, Some(&draft), &inputs(context, separate(spec_type))) / (1024 * 1024)
    };
    let base = tuning().draft_model_compute_mib.lookup(spec_type);
    let slope = tuning().draft_model_compute_mib_per_1k.lookup(spec_type);
    let expected = |context: u64| 108 + base + slope * context / 1024;
    assert_eq!(at(204800), expected(204800));
    assert_eq!(
        mtp_weight_bytes(Some(&draft), &inputs(204800, separate(spec_type))),
        108 * 1024 * 1024
    );
    let growth = at(409600) - at(204800);
    assert_eq!(growth, slope * 200);
    assert!(growth < 108 + base, "grew like a KV cache");
}

#[test]
fn separate_draft_does_not_scale_with_slots() {
    let target = target_summary("gemma4", 0, 4);
    let draft = draft_summary(144, 108);
    let at = |slots: u32| {
        let mut i = inputs(32768, separate("draft-mtp"));
        i.parallel = Some(slots);
        overhead(&target, Some(&draft), &i)
    };
    assert_eq!(at(1), at(4));
}

#[test]
fn separate_draft_uses_known_rate_and_defaults_unknown_rate() {
    let target = target_summary("gemma4", 0, 4);
    let draft = draft_summary(144, 108);
    let at = |spec_type: &str, context| {
        overhead(&target, Some(&draft), &inputs(context, separate(spec_type))) / (1024 * 1024)
    };
    let t = tuning();
    assert_eq!(at("draft-mtp", 0), 108 + 620);
    assert_eq!(
        at("unlisted-mechanism", 0),
        108 + t.draft_model_compute_mib.fallback
    );
    assert_eq!(at("", 204800), 108);
    assert_eq!(
        at("unlisted-mechanism", 204800),
        108 + t.draft_model_compute_mib.fallback + t.draft_model_compute_mib_per_1k.fallback * 200
    );
}

#[test]
fn separate_draft_missing_summary_does_not_use_embedded_head() {
    let target = target_summary("qwen35", 1, 4);
    let i = inputs(
        262144,
        Speculation::SeparateDraft {
            path: "/missing-draft",
            spec_type: "draft-mtp",
        },
    );
    assert_eq!(overhead(&target, None, &i), 0);
    assert_eq!(mtp_weight_bytes(None, &i), 0);
}

#[test]
fn speculation_mode_controls_mtp_overhead_and_weights() {
    let target = target_summary("qwen35", 1, 4);
    let draft = draft_summary(144, 108);
    let none = inputs(262144, Speculation::Off);
    let embedded = inputs(262144, Speculation::EmbeddedMtp);

    assert_eq!(overhead(&target, Some(&draft), &none), 0);
    assert_eq!(mtp_weight_bytes(Some(&draft), &none), 0);

    let expected_embedded = overhead(&target, None, &embedded);
    assert!(expected_embedded > 0);
    assert_eq!(
        overhead(&target, Some(&draft), &embedded),
        expected_embedded
    );
    assert_eq!(mtp_weight_bytes(Some(&draft), &embedded), 0);
}

#[test]
fn separate_draft_ignored_when_mtp_disabled() {
    let target = target_summary("gemma4", 0, 4);
    let draft = draft_summary(144, 108);
    assert_eq!(
        overhead(&target, Some(&draft), &inputs(204800, Speculation::Off)),
        0
    );
}

#[test]
fn a_draft_is_known_by_its_path() {
    assert_eq!(separate("draft-mtp").draft_model(), Some("/fake-draft"));
    assert_eq!(Speculation::EmbeddedMtp.draft_model(), None);
    assert!(separate("draft-mtp").is_mtp());
    assert!(Speculation::EmbeddedMtp.is_mtp());
    assert!(!Speculation::Off.is_mtp());
    assert!(Fork::Ik { dsa: true }.is_ik() && Fork::Ik { dsa: true }.dsa());
    assert!(!Fork::Ik { dsa: false }.dsa() && !Fork::Mainline.is_ik());
}

// The whole estimate.

const GRAPH: GraphSize = GraphSize {
    per_device_mib: 400,
    head_extra_mib: 100,
};

fn moe_model() -> GgufSummary {
    let mut s = bare("/fake", "qwen35moe", 3);
    set(&mut s, "block_count", 3);
    set(&mut s, "nextn_predict_layers", 1);
    set(&mut s, "attention.head_count_kv", 2);
    set(&mut s, "attention.key_length", 256);
    set(&mut s, "attention.value_length", 256);
    for layer in 0..3 {
        put_tensor(&mut s, &format!("blk.{layer}.attn_q.weight"), MIB);
        put_tensor(&mut s, &format!("blk.{layer}.ffn_up_exps.weight"), 4 * MIB);
    }
    put_tensor(&mut s, "output.weight", 2 * MIB);
    s
}

fn quiet<'a>() -> EstimatorInputs<'a> {
    EstimatorInputs {
        context: 8192,
        ubatch: Some(512),
        flash_attn: Some(true),
        parallel: Some(2),
        ..EstimatorInputs::empty("/fake")
    }
}

#[test]
fn an_estimate_carries_every_term() {
    let s = moe_model();
    let mut i = quiet();
    i.mmproj = Some("/projector");
    i.visible_devices = 2;
    i.split_mode = SplitMode::Tensor;
    i.speculation = Speculation::EmbeddedMtp;
    let mut projector = bare("/projector", "clip", 0);
    put_tensor(&mut projector, "v.blk.0.weight", 7 * MIB);
    let (e, fault) =
        estimate_with_summary(&s, None, Some(&projector), GRAPH, 5 * MIB, &i, &tuning(), None).unwrap();
    assert!(fault.is_none());
    assert_eq!(e.architecture, "qwen35moe");
    assert_eq!(e.context, 8192);
    assert_eq!(e.compute_buffer_mb, 500);
    assert_eq!(e.output_buffer_bytes, 100 * MIB);
    assert_eq!(e.mmproj_graph_bytes, 248 * MIB);
    assert_eq!(e.tensor_split_replicated_bytes, 5 * MIB);
    assert_eq!(e.host_cache_bytes, 8192 * MIB);
    assert_eq!(e.host_slot_bytes, 163 * MIB);
    assert_eq!(e.mtp_weight_bytes, 0);
    // One head of two KV heads, 256 wide each way, at f16; and on both cards
    // its graph and what the driver holds besides.
    assert_eq!(e.mtp_bytes, 2 * 512 * 2 * 8192 + 2 * (44 + 4 + 40) * MIB);
    assert_eq!(e.weights_bytes, (3 * 5 + 2 + 7) * MIB);
}

#[test]
fn an_override_moves_bytes_out_of_the_estimate() {
    let s = moe_model();
    let rules = vec!["_exps=CPU".to_string()];
    let mut i = quiet();
    i.override_tensor = &rules;
    let (e, fault) = estimate_with_summary(&s, None, None, GRAPH, 0, &i, &tuning(), None).unwrap();
    assert!(fault.is_none());
    assert_eq!(
        e.override_tensor_bytes.get(DeviceSlot::Cpu),
        Some(12 * MIB)
    );
    assert_eq!(e.weights_bytes, 5 * MIB);
    assert_eq!(e.tensor_split_replicated_bytes, 0);
}

#[test]
fn a_rule_that_does_not_parse_leaves_the_estimate_alone() {
    let s = moe_model();
    let rules = vec!["_exps=ELSEWHERE".to_string()];
    let mut i = quiet();
    i.override_tensor = &rules;
    let (e, fault) = estimate_with_summary(&s, None, None, GRAPH, 0, &i, &tuning(), None).unwrap();
    assert!(fault.unwrap().0.contains("ELSEWHERE"));
    assert_eq!(e.override_tensor_bytes.len(), 0);
    assert_eq!(e.weights_bytes, 17 * MIB);
}

#[test]
fn an_estimate_of_an_unknown_architecture_is_refused() {
    let s = bare("/fake", "novel-arch", 1);
    match estimate_with_summary(&s, None, None, GRAPH, 0, &quiet(), &tuning(), None) {
        Err(EstimatorError::UnknownArchitecture { architecture }) => {
            assert_eq!(architecture, "novel-arch")
        }
        other => panic!("expected a refusal; got {other:?}"),
    }
}

#[test]
fn the_fork_drops_the_draft_head_block() {
    let s = moe_model();
    let mut i = quiet();
    let (kept, _) = estimate_with_summary(&s, None, None, GRAPH, 0, &i, &tuning(), None).unwrap();
    i.fork = Fork::Ik { dsa: false };
    let (dropped, _) = estimate_with_summary(&s, None, None, GRAPH, 0, &i, &tuning(), None).unwrap();
    assert_eq!(kept.mtp_head_expert_layers, 0);
    assert_eq!(dropped.mtp_head_expert_layers, 1);
    assert_eq!(kept.weights_bytes - dropped.weights_bytes, 5 * MIB);
}

#[test]
fn whatever_can_be_counted_is_estimated() {
    let s = moe_model();
    let mut i = quiet();
    assert!(is_countable(&s, None, &i, &tuning(), &None));
    let (e, fault) = estimate_if_countable(&s, None, None, GRAPH, 0, &i, &tuning(), None)
        .unwrap()
        .unwrap();
    assert!(fault.is_none());
    let (same, _) = estimate_with_summary(&s, None, None, GRAPH, 0, &i, &tuning(), None).unwrap();
    assert_eq!(e.weights_bytes, same.weights_bytes);
    assert_eq!(e.host_overhead_bytes, same.host_overhead_bytes);

    // Unusual sizes are no reason to refuse: none of these overflows a word.
    i.parallel = Some(65);
    let (busy, _) = estimate_if_countable(&s, None, None, GRAPH, 0, &i, &tuning(), None)
        .unwrap()
        .unwrap();
    assert_eq!(busy.host_slot_bytes, 64 * 163 * MIB);
    i.parallel = Some(100_000);
    i.context = u32::MAX;
    i.ubatch = Some(1 << 20);
    i.visible_devices = 1000;
    let mut deep = moe_model();
    deep.block_count = Some(5000);
    assert!(estimate_if_countable(&deep, None, None, GRAPH, 0, &i, &tuning(), None).is_some());

    let unknown = bare("/fake", "novel-arch", 1);
    assert!(estimate_if_countable(&unknown, None, None, GRAPH, 0, &i, &tuning(), None)
        .unwrap()
        .is_err());
}

#[test]
fn what_no_word_holds_is_not_estimated() {
    let s = moe_model();
    let none = |s: &GgufSummary, draft: Option<&GgufSummary>, i: &EstimatorInputs<'_>, t: &Tuning| {
        !is_countable(s, draft, i, t, &None)
            && estimate_if_countable(s, draft, None, GRAPH, 0, i, t, None).is_none()
    };

    // The weights: the last byte that still counts, and one more.
    let mut heavy = moe_model();
    put_tensor(&mut heavy, "blk.0.a", u64::MAX - 17 * MIB);
    assert!(is_countable(&heavy, None, &quiet(), &tuning(), &None));
    heavy.total_tensor_bytes = 0;
    put_tensor(&mut heavy, "blk.0.b", 1);
    assert!(none(&heavy, None, &quiet(), &tuning()));

    // The mask of a batch as long as the context.
    let mut wide = quiet();
    wide.parallel = None;
    wide.context = u32::MAX;
    wide.ubatch = Some(u32::MAX);
    assert!(none(&s, None, &wide, &tuning()));

    // A rate, where the term it prices is charged.
    let mut odd = tuning();
    odd.quantised_cache_rates = flat(u64::MAX);
    assert!(is_countable(&s, None, &quiet(), &odd, &None));
    let mut quantised = quiet();
    quantised.cache_type_k = Some(GgufType::Q8_0);
    assert!(none(&s, None, &quantised, &odd));

    // A separate draft, where one is run.
    let mut giant = draft_summary(0, 1);
    giant.total_tensor_bytes = u64::MAX;
    assert!(is_countable(&s, Some(&giant), &quiet(), &tuning(), &None));
    let mut drafting = quiet();
    drafting.speculation = separate("draft-mtp");
    assert!(none(&s, Some(&giant), &drafting, &tuning()));

    // The recurrent state; nothing times anything is nothing.
    let mut stateful = moe_model();
    set(&mut stateful, "full_attention_interval", 2);
    set(&mut stateful, "ssm.conv_kernel", 4);
    set(&mut stateful, "ssm.inner_size", u32::MAX);
    set(&mut stateful, "ssm.state_size", u32::MAX);
    assert!(none(&stateful, None, &quiet(), &tuning()));
    set(&mut stateful, "full_attention_interval", 1);
    assert!(is_countable(&stateful, None, &quiet(), &tuning(), &None));
}

/// An estimate as the mamba family makes it: not by block.
fn coarse(arch: &str, weights_bytes: u64) -> Estimate {
    Estimate {
        weights_bytes,
        kv_per_token: 0,
        compute_buffer_mb: 321,
        output_buffer_bytes: 0,
        mtp_head_expert_layers: 0,
        tensor_split_replicated_bytes: 0,
        mtp_bytes: 0,
        mtp_weight_bytes: 0,
        mmproj_graph_bytes: 0,
        host_overhead_bytes: 0,
        host_cache_bytes: 0,
        host_slot_bytes: 0,
        host_checkpoint_bytes: 0,
        per_layer_bytes: None,
        attention_layers: None,
        non_layer: NonLayer {
            output_head_bytes: 0,
            token_embd_bytes: 0,
            other_bytes: 0,
            tied_head_bytes: 0,
        },
        override_tensor_bytes: DeviceBytes::new(),
        expert_layers: Vec::new(),
        expert_tensors: None,
        context: 8192,
        architecture: arch.to_string(),
    }
}

fn mamba_model() -> GgufSummary {
    let mut s = bare("/fake", "mamba", 2);
    put_tensor(&mut s, "blk.0.ssm_in.weight", 3 * MIB);
    put_tensor(&mut s, "blk.1.ssm_in.weight", 4 * MIB);
    s
}

#[test]
fn a_mamba_model_takes_its_family_estimate() {
    let s = mamba_model();
    let given = coarse("mamba", 7 * MIB);
    let e = dispatch(&s, &quiet(), GRAPH, &tuning(), Some(coarse("mamba", 7 * MIB))).unwrap();
    assert_eq!(format!("{e:?}"), format!("{given:?}"));

    let (e, fault) = estimate_if_countable(
        &s,
        None,
        None,
        GRAPH,
        5 * MIB,
        &quiet(),
        &tuning(),
        Some(given),
    )
    .unwrap()
    .unwrap();
    assert!(fault.is_none());
    assert!(e.per_layer_bytes.is_none());
    assert_eq!(e.architecture, "mamba");
    assert_eq!(e.weights_bytes, 7 * MIB);
    assert_eq!(e.compute_buffer_mb, 321);
    // The terms of every family are added to it.
    assert_eq!(e.output_buffer_bytes, 100 * MIB);
    assert_eq!(e.host_cache_bytes, 8192 * MIB);
    assert_eq!(e.host_slot_bytes, 163 * MIB);
    assert!(e.host_overhead_bytes > 0);
    assert_eq!(e.tensor_split_replicated_bytes, 5 * MIB);
}

#[test]
fn the_first_family_that_covers_a_model_estimates_it() {
    let by = |arch: &str| {
        let s = bare("/fake", arch, 2);
        let e = dispatch(&s, &quiet(), GRAPH, &tuning(), Some(coarse(arch, 9 * MIB))).unwrap();
        e.weights_bytes == 9 * MIB && e.per_layer_bytes.is_none()
    };
    // llama and moe stand before mamba, hybrid behind it.
    assert!(!by("llama"));
    assert!(!by("qwen35moe"));
    assert!(by("mamba"));
    assert!(by("jamba"));
    let hybrid = bare("/fake", "jamba", 2);
    assert!(dispatch(&hybrid, &quiet(), GRAPH, &tuning(), None)
        .unwrap()
        .per_layer_bytes
        .is_some());
    let mamba = bare("/fake", "mamba", 2);
    assert!(dispatch(&mamba, &quiet(), GRAPH, &tuning(), None).is_err());
}

#[test]
fn a_coarse_estimate_stays_coarse() {
    let s = mamba_model();
    let rules = vec!["blk\\.1=CPU".to_string()];
    let mut i = quiet();
    i.fork = Fork::Ik { dsa: false };
    i.override_tensor = &rules;
    let mut projector = bare("/projector", "clip", 0);
    put_tensor(&mut projector, "v.blk.0.weight", 2 * MIB);
    let (e, fault) = estimate_with_summary(
        &s,
        None,
        Some(&projector),
        GRAPH,
        0,
        &i,
        &tuning(),
        Some(coarse("mamba", 7 * MIB)),
    )
    .unwrap();
    assert!(fault.is_none());
    assert!(e.per_layer_bytes.is_none());
    assert_eq!(e.mtp_head_expert_layers, 0);
    assert_eq!(e.override_tensor_bytes.get(DeviceSlot::Cpu), Some(4 * MIB));
    // The pinned block leaves the weights, and the projector joins them.
    assert_eq!(e.weights_bytes, (7 - 4 + 2) * MIB);
    assert_eq!(e.non_layer.other_bytes, 2 * MIB);
    assert_eq!(e.mmproj_graph_bytes, 248 * MIB);

    // A rule that does not parse, or a projector that could not be read, is
    // no reason to refuse.
    let faulty = vec!["=CPU=".to_string(), "x=ELSEWHERE".to_string()];
    i.override_tensor = &faulty;
    i.mmproj = Some("/projector");
    let (e, fault) = estimate_with_summary(
        &s,
        None,
        None,
        GRAPH,
        0,
        &i,
        &tuning(),
        Some(coarse("mamba", 7 * MIB)),
    )
    .unwrap();
    assert!(fault.is_some());
    assert_eq!(e.weights_bytes, 7 * MIB);
}

#[test]
fn a_mamba_estimate_must_be_countable_too() {
    let s = mamba_model();
    let mut given = coarse("mamba", 7 * MIB);
    given.non_layer.other_bytes = 1;
    given.per_layer_bytes = Some(vec![u64::MAX - 2, 1]);
    let mut kept = Some(given);
    assert!(is_countable(&s, None, &quiet(), &tuning(), &kept));
    kept.as_mut().unwrap().non_layer.token_embd_bytes = 1;
    assert!(!is_countable(&s, None, &quiet(), &tuning(), &kept));
    assert!(estimate_if_countable(&s, None, None, GRAPH, 0, &quiet(), &tuning(), kept).is_none());

    // It is not asked of a model that an earlier family covers.
    let mut given = coarse("qwen35moe", 0);
    given.per_layer_bytes = Some(vec![u64::MAX, 1]);
    assert!(is_countable(&moe_model(), None, &quiet(), &tuning(), &Some(given)));
}

#[test]
fn a_projector_adds_only_itself() {
    let s = moe_model();
    let mut seeing = quiet();
    seeing.mmproj = Some("/projector");
    let mut projector = bare("/projector", "clip", 0);
    put_tensor(&mut projector, "v.blk.0.weight", 7 * MIB);
    let make = |i: &EstimatorInputs<'_>, p: Option<&GgufSummary>| {
        estimate_with_summary(&s, None, p, GRAPH, 0, i, &tuning(), None).unwrap().0
    };
    let plain = make(&quiet(), None);
    let mut with = make(&seeing, Some(&projector));
    assert_eq!(plain.mmproj_graph_bytes, 0);
    assert_eq!(with.mmproj_graph_bytes, 248 * MIB);
    assert_eq!(with.weights_bytes, plain.weights_bytes + 7 * MIB);
    assert_eq!(with.non_layer.other_bytes, plain.non_layer.other_bytes + 7 * MIB);
    with.mmproj_graph_bytes = 0;
    with.weights_bytes -= 7 * MIB;
    with.non_layer.other_bytes -= 7 * MIB;
    assert_eq!(format!("{with:?}"), format!("{plain:?}"));
    // One that cannot be read.
    assert_eq!(format!("{:?}", make(&seeing, None)), format!("{plain:?}"));
    // What it adds stays in range.
    projector.total_tensor_bytes = u64::MAX;
    assert_eq!(make(&seeing, Some(&projector)).weights_bytes, u64::MAX);
}
