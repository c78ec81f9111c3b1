//! Rules that pin tensors to devices.

use ananke::estimate::device_bytes::DeviceBytes;
use ananke::estimate::override_tensor::{
    apply, apply_targets, check_rule, first_matched, parse_and_apply, parse_rules,
};
use ananke::estimate::types::{DeviceSlot, Estimate, ExpertKind, ExpertTensor, NonLayer};
use ananke::gguf::{GgufSummary, GgufTensor, GgufType};
use ananke::text_map::TextMap;

fn tensor(name: &str, bytes: u64) -> GgufTensor {
    GgufTensor {
        name: name.to_string(),
        dtype: GgufType::F16,
        shape: vec![bytes / 2],
        byte_size: bytes,
        shard_idx: 0,
        offset: 0,
    }
}

fn coarse(weights: u64) -> Estimate {
    Estimate {
        weights_bytes: weights,
        kv_per_token: 0,
        compute_buffer_mb: 400,
        output_buffer_bytes: 0,
        mtp_head_expert_layers: 0,
        tensor_split_replicated_bytes: 0,
        mtp_bytes: 0,
        mtp_weight_bytes: 0,
        mmproj_graph_bytes: 0,
        host_overhead_bytes: 0,
        host_cache_bytes: 0,
        host_slot_bytes: 0,
        host_checkpoint_bytes: 0,
        per_layer_bytes: None,
        attention_layers: None,
        non_layer: NonLayer {
            output_head_bytes: 0,
            token_embd_bytes: 0,
            tied_head_bytes: 0,
            other_bytes: 0,
        },
        override_tensor_bytes: DeviceBytes::new(),
        expert_layers: Vec::new(),
        expert_tensors: None,
        context: 4096,
        architecture: "qwen3moe".to_string(),
    }
}

fn base_estimate(per_layer: Vec<u64>) -> Estimate {
    let mut e = coarse(per_layer.iter().sum::<u64>());
    e.per_layer_bytes = Some(per_layer);
    e
}

fn summary_with(tensors: Vec<GgufTensor>) -> GgufSummary {
    let mut map = TextMap::new();
    let mut total = 0;
    for t in tensors {
        total += t.byte_size;
        map.insert(t.name.clone(), t);
    }
    GgufSummary {
        path: "/fake".to_string(),
        total_tensor_bytes: total,
        tensors: map,
        metadata: TextMap::new(),
        block_count: Some(2),
        architecture: "qwen3moe".to_string(),
        shards: vec!["/fake".to_string()],
    }
}

#[test]
fn parses_single_rule() {
    let rules = parse_rules(&[".ffn_(up|down)_exps.=CPU".to_string()]).unwrap();
    assert_eq!(rules.len(), 1);
    assert_eq!(rules[0].target(), DeviceSlot::Cpu);
}

#[test]
fn rejects_unknown_device() {
    let err = parse_rules(&["foo=BLAH".to_string()]).unwrap_err();
    assert!(err.0.contains("BLAH"));
}

#[test]
fn rejects_bad_regex() {
    let err = parse_rules(&["(unclosed=CPU".to_string()]).unwrap_err();
    assert!(err.0.contains("regex"));
}

#[test]
fn rejects_a_rule_without_a_device() {
    assert!(parse_rules(&["foo".to_string()]).is_err());
    assert!(parse_rules(&["foo=GPU".to_string()]).is_err());
    assert!(parse_rules(&["foo=GPUx".to_string()]).is_err());
    assert!(parse_rules(&["foo=GPU99999999999".to_string()]).is_err());
}

#[test]
fn parses_gpu_index() {
    let rules = parse_rules(&["output=GPU0".to_string(), "foo=GPU1".to_string()]).unwrap();
    assert_eq!(rules[0].target(), DeviceSlot::Gpu(0));
    assert_eq!(rules[1].target(), DeviceSlot::Gpu(1));
}

#[test]
fn a_rule_matches_anywhere_in_a_name_as_its_pattern_says() {
    let rules = parse_rules(&["ffn_(up|down)_exps=cpu".to_string(), "^output=gpu2".to_string()])
        .unwrap();
    assert!(rules[0].matches("blk.0.ffn_up_exps.weight"));
    assert!(rules[0].matches("blk.0.ffn_down_exps.weight"));
    assert!(!rules[0].matches("blk.0.ffn_gate_exps.weight"));
    assert!(rules[1].matches("output.weight"));
    assert!(!rules[1].matches("blk.0.attn_output.weight"));
    assert_eq!(rules[1].target(), DeviceSlot::Gpu(2));
}

#[test]
fn moves_expert_tensors_to_cpu() {
    let summary = summary_with(vec![
        tensor("blk.0.attn_q.weight", 1024 * 1024),
        tensor("blk.0.ffn_up_exps.weight", 10 * 1024 * 1024),
        tensor("blk.1.attn_q.weight", 1024 * 1024),
        tensor("blk.1.ffn_down_exps.weight", 10 * 1024 * 1024),
    ]);
    let mut est = base_estimate(vec![11 * 1024 * 1024, 11 * 1024 * 1024]);
    let rules = parse_rules(&[".ffn_(up|down)_exps.=CPU".to_string()]).unwrap();

    apply(&mut est, &summary, &rules);

    let per_layer = est.per_layer_bytes.unwrap();
    assert_eq!(per_layer, vec![1024 * 1024, 1024 * 1024]);
    assert_eq!(
        est.override_tensor_bytes.get(DeviceSlot::Cpu),
        Some(20 * 1024 * 1024)
    );
    assert_eq!(est.weights_bytes, 2 * 1024 * 1024);
}

#[test]
fn preserves_the_coarse_weights_when_there_is_no_per_layer_breakdown() {
    let summary = summary_with(vec![
        tensor("blk.0.attn_q.weight", 1024 * 1024),
        tensor("blk.0.ffn_up_exps.weight", 10 * 1024 * 1024),
        tensor("blk.0.ffn_down_exps.weight", 10 * 1024 * 1024),
    ]);
    let mut est = coarse(summary.total_tensor_bytes);

    let rules = parse_rules(&[".ffn_(up|down)_exps.=CPU".to_string()]).unwrap();
    apply(&mut est, &summary, &rules);

    assert_eq!(
        est.override_tensor_bytes.get(DeviceSlot::Cpu),
        Some(20 * 1024 * 1024)
    );
    assert_eq!(est.weights_bytes, 1024 * 1024);
}

#[test]
fn first_match_wins() {
    let summary = summary_with(vec![tensor("blk.0.ffn_up_exps.weight", 10 * 1024 * 1024)]);
    let mut est = base_estimate(vec![10 * 1024 * 1024, 0]);
    let rules = parse_rules(&[
        "ffn_up=GPU1".to_string(),
        ".ffn_(up|down)_exps.=CPU".to_string(),
    ])
    .unwrap();

    apply(&mut est, &summary, &rules);

    assert_eq!(
        est.override_tensor_bytes.get(DeviceSlot::Gpu(1)),
        Some(10 * 1024 * 1024)
    );
    assert!(est.override_tensor_bytes.get(DeviceSlot::Cpu).is_none());
}

#[test]
fn a_pinned_expert_is_no_longer_offloadable() {
    let summary = summary_with(vec![
        tensor("blk.0.ffn_up_exps.weight", 10),
        tensor("blk.1.ffn_up_exps.weight", 20),
    ]);
    let mut est = base_estimate(vec![10, 20]);
    est.expert_tensors = Some(vec![
        ExpertTensor {
            layer: 0,
            kind: ExpertKind::Up,
            bytes: 10,
        },
        ExpertTensor {
            layer: 1,
            kind: ExpertKind::Up,
            bytes: 20,
        },
    ]);
    let fault = parse_and_apply(
        &mut est,
        &summary,
        &["blk\\.1\\.ffn_up_exps=CPU".to_string()],
    );
    assert!(fault.is_none());
    let left: Vec<u32> = est
        .expert_tensors
        .unwrap()
        .iter()
        .map(|t| t.layer)
        .collect();
    assert_eq!(left, vec![0]);
    assert_eq!(est.weights_bytes, 10);
}

#[test]
fn the_bytes_pinned_to_devices_add_up() {
    let summary = summary_with(vec![
        tensor("blk.0.attn_q.weight", 3),
        tensor("blk.0.ffn_up_exps.weight", 10),
        tensor("blk.1.ffn_up_exps.weight", 20),
        tensor("output.weight", 5),
    ]);
    let mut est = base_estimate(vec![13, 20]);
    est.non_layer.output_head_bytes = 5;
    est.weights_bytes += 5;
    let before = est.weights_bytes;
    let rules = parse_rules(&[
        "blk.0.ffn=GPU1".to_string(),
        "_exps=CPU".to_string(),
        "^output=GPU0".to_string(),
    ])
    .unwrap();
    apply(&mut est, &summary, &rules);
    assert_eq!(est.override_tensor_bytes.get(DeviceSlot::Gpu(1)), Some(10));
    assert_eq!(est.override_tensor_bytes.get(DeviceSlot::Cpu), Some(20));
    assert_eq!(est.override_tensor_bytes.get(DeviceSlot::Gpu(0)), Some(5));
    assert_eq!(est.weights_bytes + est.override_tensor_bytes.total(), before);
    // In order of their devices.
    let counts: Vec<(DeviceSlot, u64)> = (0..est.override_tensor_bytes.len())
        .map(|i| est.override_tensor_bytes.entry_at(i))
        .collect();
    assert_eq!(
        counts,
        vec![(DeviceSlot::Cpu, 20), (DeviceSlot::Gpu(0), 5), (DeviceSlot::Gpu(1), 10)]
    );
}

#[test]
fn a_pinned_embedding_stack_leaves_the_embeddings() {
    let summary = summary_with(vec![tensor("per_layer_token_embd.weight", 4)]);
    let mut est = base_estimate(Vec::new());
    est.weights_bytes = 7;
    est.non_layer.token_embd_bytes = 6;
    est.non_layer.other_bytes = 1;
    let rules = parse_rules(&["per_layer_token_embd=CPU".to_string()]).unwrap();

    apply(&mut est, &summary, &rules);

    assert_eq!(est.override_tensor_bytes.get(DeviceSlot::Cpu), Some(4));
    assert_eq!(est.non_layer.token_embd_bytes, 2);
    assert_eq!(est.non_layer.other_bytes, 1);
    assert_eq!(est.weights_bytes, 3);
}

#[test]
fn no_rules_change_nothing() {
    let summary = summary_with(vec![tensor("blk.0.ffn_up_exps.weight", 10)]);
    let mut est = base_estimate(vec![10, 7]);
    assert!(parse_and_apply(&mut est, &summary, &[]).is_none());
    assert_eq!(est.weights_bytes, 17);
    assert_eq!(est.per_layer_bytes, Some(vec![10, 7]));
}

#[test]
fn a_rule_is_refused_for_its_pattern_before_its_device() {
    assert_eq!(
        check_rule("a=b=CPU", None).unwrap(),
        DeviceSlot::Cpu,
        "the last sign parts pattern from device"
    );
    assert_eq!(check_rule("a= gpu7 ", None).unwrap(), DeviceSlot::Gpu(7));
    assert_eq!(check_rule("a=GPU+7", None).unwrap(), DeviceSlot::Gpu(7));
    assert_eq!(
        check_rule("no sign", None).unwrap_err().0,
        "missing '=' in rule `no sign`"
    );
    assert_eq!(
        check_rule("(=BLAH", Some("unclosed".to_string())).unwrap_err().0,
        "regex `(`: unclosed"
    );
    assert_eq!(
        check_rule("a= BLAH", None).unwrap_err().0,
        "unknown device ` BLAH` in rule `a= BLAH`"
    );
}

#[test]
fn the_first_rule_that_matched_names_the_device() {
    let rules = parse_rules(&["a=GPU0".to_string(), "b=GPU1".to_string(), "c=CPU".to_string()])
        .unwrap();
    assert_eq!(
        first_matched(&rules, &[false, true, true]),
        Some(DeviceSlot::Gpu(1))
    );
    assert_eq!(first_matched(&rules, &[false, false, true]), Some(DeviceSlot::Cpu));
    assert_eq!(first_matched(&rules, &[false, false, false]), None);
}

#[test]
fn tensors_are_sent_where_they_are_named() {
    let summary = summary_with(vec![
        tensor("blk.0.attn_q.weight", 3),
        tensor("blk.1.ffn_up_exps.weight", 20),
        tensor("output.weight", 5),
        tensor("output_norm.weight", 2),
        tensor("token_embd.weight", 8),
    ]);
    let mut est = base_estimate(vec![3, 20]);
    est.non_layer = NonLayer {
        output_head_bytes: 5,
        token_embd_bytes: 8,
        tied_head_bytes: 0,
        other_bytes: 2,
    };
    let mut targets = TextMap::new();
    targets.insert("output.weight".to_string(), DeviceSlot::Gpu(1));
    targets.insert("token_embd.weight".to_string(), DeviceSlot::Gpu(1));
    targets.insert("output_norm.weight".to_string(), DeviceSlot::Cpu);
    targets.insert("blk.1.ffn_up_exps.weight".to_string(), DeviceSlot::Cpu);
    targets.insert("no such tensor".to_string(), DeviceSlot::Gpu(9));
    apply_targets(&mut est, &summary, &targets);
    assert_eq!(est.per_layer_bytes, Some(vec![3, 0]));
    assert_eq!(est.non_layer.output_head_bytes, 0);
    assert_eq!(est.non_layer.token_embd_bytes, 0);
    assert_eq!(est.non_layer.other_bytes, 0);
    assert_eq!(est.weights_bytes, 3);
    assert_eq!(est.override_tensor_bytes.get(DeviceSlot::Gpu(1)), Some(13));
    assert_eq!(est.override_tensor_bytes.get(DeviceSlot::Cpu), Some(22));
    assert_eq!(est.override_tensor_bytes.get(DeviceSlot::Gpu(9)), None);
}
