//! What is kept across restarts of the daemon.

use ananke::db::container::{
    check_owner, ensure_owner_uuid, launch_intents_for_service, list_launch_intents, new_owner,
    owner_uuid, recorded_owner, validate_owner_uuid, ATTACHED, BLOCKED, INSTALLATION_VERSION,
};
use ananke::db::devices::{prune_device_samples, query_device_samples, used_bytes};
use ananke::db::models::{
    column_list, count_of, ContainerLaunchIntent, DeviceSample, RequestMetric, ServiceRestart,
    LAUNCH_INTENT_COLUMNS, RUNNING_SERVICE_COLUMNS, SERVICE_COLUMNS, SERVICE_LOG_COLUMNS,
    SERVICE_RESTART_COLUMNS,
};
use ananke::db::order::ascending_order;
use ananke::db::restarts::{
    error_rate_since, query_service_restarts, spec_acceptance_since, RestartBook,
    SERVICE_RESTART_CAP,
};
use ananke::text_map::TextMap;

#[test]
fn owner_identity_created_once() {
    assert!(owner_uuid(None).unwrap().is_none());

    let first = ensure_owner_uuid(None).unwrap();
    assert!(first.minted);
    // Minting a second owner would make every container this
    // installation already labelled look foreign to it.
    for _ in 0..3 {
        let again = ensure_owner_uuid(Some(first.uuid.clone())).unwrap();
        assert_eq!(again.uuid, first.uuid);
        assert!(!again.minted);
    }
    assert_eq!(
        owner_uuid(Some(first.uuid.clone())).unwrap().as_deref(),
        Some(&*first.uuid)
    );
    // Another installation gets another owner.
    assert_ne!(ensure_owner_uuid(None).unwrap().uuid, first.uuid);
    assert_eq!(first.uuid.len(), 36);
}

#[test]
fn corrupt_owner_identity_is_an_error_not_a_new_owner() {
    // Both paths must refuse: minting a replacement would orphan every
    // container already labelled with the real owner.
    let stored = Some("not-a-uuid".to_string());
    assert!(owner_uuid(stored.clone()).is_err());
    assert!(ensure_owner_uuid(stored).is_err());
    assert_eq!(
        validate_owner_uuid("not-a-uuid").unwrap_err().text(),
        "<installation_metadata>: stored owner_uuid `not-a-uuid` is not a valid UUID"
    );
    assert!(validate_owner_uuid("67e55044-10b1-426f-9247-bb680e5fe0c8").is_ok());
    assert!(check_owner("anything", true).is_ok());
    assert_eq!(
        check_owner("anything", false).unwrap_err().text(),
        "<installation_metadata>: stored owner_uuid `anything` is not a valid UUID"
    );
    assert_eq!(INSTALLATION_VERSION, 1);
}

#[test]
fn an_owner_is_recorded_or_new() {
    let kept = recorded_owner("u".to_string(), true).unwrap();
    assert!(kept.uuid == "u" && !kept.minted);
    assert_eq!(
        recorded_owner("u".to_string(), false).unwrap_err().text(),
        "<installation_metadata>: stored owner_uuid `u` is not a valid UUID"
    );
    let made = new_owner("v".to_string());
    assert!(made.uuid == "v" && made.minted);
}

#[test]
fn intents_record_what_became_of_them() {
    let mut intent = ContainerLaunchIntent {
        intent_id: 1,
        service_id: 2,
        run_id: 3,
        owner_uuid: "o".to_string(),
        workload_kind: "w".to_string(),
        runtime: "docker".to_string(),
        runtime_executable: "docker".to_string(),
        container_name: "c".to_string(),
        labels_json: "{}".to_string(),
        spec_json: "{}".to_string(),
        container_id: None,
        state: "pending".to_string(),
        created_at: 4,
    };
    intent.attach("abc");
    assert_eq!(intent.container_id.as_deref(), Some("abc"));
    assert_eq!(intent.state, ATTACHED);
    intent.block();
    assert_eq!(intent.state, BLOCKED);
    assert_eq!(intent.container_id.as_deref(), Some("abc"));
    assert_eq!(intent.run_id, 3);
}

fn sample(sample_id: i64, device: &str, at: i64, total: i64, free: i64) -> DeviceSample {
    DeviceSample {
        sample_id,
        device: device.to_string(),
        timestamp_ms: at,
        total_bytes: total,
        free_bytes: free,
        used_bytes: used_bytes(total, free),
    }
}

#[test]
fn device_samples_insert_and_query() {
    let rows = vec![
        sample(1, "gpu:0", 1000, 24_000_000_000, 20_000_000_000),
        sample(2, "gpu:0", 2000, 24_000_000_000, 18_000_000_000),
        sample(3, "cpu", 1000, 64_000_000_000, 32_000_000_000),
    ];

    // Query all devices.
    let all = query_device_samples(&rows, None, 0, 10_000);
    assert_eq!(all.len(), 3);

    // Query only gpu:0.
    let gpu0 = query_device_samples(&rows, Some("gpu:0"), 0, 10_000);
    assert_eq!(gpu0.len(), 2);
    assert_eq!(gpu0[0].device, "gpu:0");
    assert_eq!(gpu0[0].used_bytes, 4_000_000_000);

    // Time range filter.
    let recent = query_device_samples(&rows, None, 1500, 10_000);
    assert_eq!(recent.len(), 1);
    assert_eq!(recent[0].device, "gpu:0");
}

#[test]
fn samples_come_in_order_of_time() {
    let rows = vec![
        sample(1, "a", 30, 1, 0),
        sample(2, "a", 10, 1, 0),
        sample(3, "a", 30, 1, 0),
        sample(4, "a", 20, 1, 0),
    ];
    let ids: Vec<i64> = query_device_samples(&rows, None, 10, 30)
        .iter()
        .map(|s| s.sample_id)
        .collect();
    assert_eq!(ids, vec![2, 4, 1, 3]);
    assert!(query_device_samples(&rows, Some("b"), 0, 100).is_empty());
}

#[test]
fn an_order_is_stable() {
    assert_eq!(
        ascending_order(&[(2, 0), (1, 5), (2, -1), (1, 5)]),
        vec![1, 3, 2, 0]
    );
    assert!(ascending_order(&[]).is_empty());
}

fn metric(run_id: i64, timestamp_ms: i64, status_code: i64) -> RequestMetric {
    RequestMetric {
        metric_id: 0,
        prompt_eval_tokens: None,
        service_id: 7,
        run_id: Some(run_id),
        timestamp_ms,
        endpoint: "/v1/chat/completions".into(),
        model: "demo".into(),
        prompt_tokens: None,
        completion_tokens: None,
        duration_ms: None,
        ttft_ms: None,
        prompt_ms: None,
        predicted_ms: None,
        draft_tokens: None,
        draft_tokens_accepted: None,
        status_code,
    }
}

#[test]
fn error_rate_since_scopes_to_run_and_window() {
    let rows = vec![
        // Current run 2: 3 x 500 + 1 x 404 + 1 x 200 inside the window.
        metric(2, 100_000, 500),
        metric(2, 101_000, 500),
        metric(2, 102_000, 500),
        metric(2, 103_000, 404),
        metric(2, 104_000, 200),
        // A previous run's errors must not count.
        metric(1, 100_500, 500),
        metric(1, 100_600, 500),
        // An in-window 500 from run 2 but before the `since` cutoff.
        metric(2, 50_000, 500),
    ];

    // Server-only (>=500) from 90s: 3 errors of 5 total in-window rows.
    assert_eq!(error_rate_since(&rows, 7, 2, 90_000, 500), (5, 3));

    // Client-and-server (>=400): the 404 now counts too → 4 errors.
    assert_eq!(error_rate_since(&rows, 7, 2, 90_000, 400), (5, 4));

    // No rows in window → zero total, zero errors.
    assert_eq!(error_rate_since(&rows, 7, 2, 200_000, 500), (0, 0));

    // Another service's requests never count, nor those of no run.
    assert_eq!(error_rate_since(&rows, 8, 2, 0, 500), (0, 0));
    let mut stray = metric(2, 100_000, 500);
    stray.run_id = None;
    assert_eq!(error_rate_since(&[stray], 7, 2, 0, 500), (0, 0));
}

fn restart(restart_id: i64, trigger: &str, at_ms: i64) -> ServiceRestart {
    ServiceRestart {
        restart_id,
        service_id: 7,
        run_id: Some(1),
        at_ms,
        trigger: trigger.to_string(),
        detail: "d".into(),
    }
}

#[test]
fn restart_counts_are_monotonic_across_history_eviction() {
    let mut book = RestartBook {
        history: vec![],
        counts: TextMap::new(),
    };
    book.record(restart(1, "spec_collapse", 1_000));
    // Enough periodic firings to evict every row of the older trigger.
    for i in 0..SERVICE_RESTART_CAP as i64 {
        let recorded = book.record(restart(2 + i, "periodic", 2_000 + i));
        assert_eq!(recorded.count, i + 1);
        let gone: Vec<i64> = if i + 1 == SERVICE_RESTART_CAP as i64 {
            vec![1]
        } else {
            vec![]
        };
        assert_eq!(recorded.evicted, gone);
    }

    // The history has forgotten the spec_collapse firing entirely...
    let recent = book.recent_service_restarts(7, SERVICE_RESTART_CAP);
    assert_eq!(recent.len(), SERVICE_RESTART_CAP as usize);
    assert!(recent.iter().all(|r| r.trigger == "periodic"));

    // ...but the counter still reports it, and does not go backwards.
    let counts: std::collections::HashMap<String, u64> = book
        .count_service_restarts_by_trigger()
        .into_iter()
        .collect();
    assert_eq!(counts.get("spec_collapse"), Some(&1));
    assert_eq!(counts.get("periodic"), Some(&(SERVICE_RESTART_CAP as u64)));
}

#[test]
fn recent_restarts_are_newest_first() {
    let mut book = RestartBook {
        history: vec![],
        counts: TextMap::new(),
    };
    book.record(restart(1, "a", 30));
    book.record(restart(2, "a", 10));
    book.record(restart(3, "a", 30));
    let ids = |limit: u32| -> Vec<i64> {
        book.recent_service_restarts(7, limit)
            .iter()
            .map(|r| r.restart_id)
            .collect()
    };
    assert_eq!(ids(10), vec![3, 1, 2]);
    assert_eq!(ids(1), vec![3]);
    assert_eq!(ids(0), Vec::<i64>::new());
    assert!(book.recent_service_restarts(8, 10).is_empty());
}

#[test]
fn restarts_of_a_window_are_oldest_first() {
    let mut other = restart(4, "a", 15);
    other.service_id = 8;
    let rows = vec![
        ("s".to_string(), restart(1, "a", 30)),
        ("s".to_string(), restart(2, "a", 10)),
        ("s".to_string(), restart(3, "a", 20)),
        ("t".to_string(), other),
    ];
    let ids = |service: Option<i64>, since: i64, until: i64| -> Vec<i64> {
        query_service_restarts(&rows, service, since, until)
            .iter()
            .map(|r| r.1.restart_id)
            .collect()
    };
    assert_eq!(ids(None, 10, 30), vec![2, 4, 3, 1]);
    assert_eq!(ids(Some(7), 11, 30), vec![3, 1]);
    assert_eq!(query_service_restarts(&rows, Some(8), 0, 100)[0].0, "t");
}

fn drafting(
    run_id: i64,
    timestamp_ms: i64,
    draft: Option<i64>,
    accepted: Option<i64>,
) -> RequestMetric {
    RequestMetric {
        draft_tokens: draft,
        draft_tokens_accepted: accepted,
        ..metric(run_id, timestamp_ms, 200)
    }
}

#[test]
fn spec_acceptance_since_scopes_and_counts_drafting_rows() {
    let mut rows = vec![
        // Current run 2, in-window: every drafting request rejected
        // wholesale, plus a non-drafting row that must not count.
        drafting(2, 100_000, Some(59), Some(0)),
        drafting(2, 101_000, Some(11), Some(0)),
        drafting(2, 102_000, None, None),
        // A previous run's healthy acceptance must not leak into run 2.
        drafting(1, 100_500, Some(100), Some(80)),
        // A healthy row before the `since` cutoff: outside the window, but
        // still counted in the run's lifetime acceptance.
        drafting(2, 50_000, Some(20), Some(18)),
    ];

    let a = spec_acceptance_since(&rows, 7, 2, 90_000).unwrap();
    assert_eq!(
        (
            a.window_drafting,
            a.window_drafted,
            a.window_accepted,
            a.run_accepted
        ),
        (2, 70, 0, 18)
    );

    // One accepted token inside the window shows up in both sums.
    rows.push(drafting(2, 103_000, Some(14), Some(12)));
    let a = spec_acceptance_since(&rows, 7, 2, 90_000).unwrap();
    assert_eq!(
        (
            a.window_drafting,
            a.window_drafted,
            a.window_accepted,
            a.run_accepted
        ),
        (3, 84, 12, 30)
    );

    // Empty window → zeros; the run total stays.
    let a = spec_acceptance_since(&rows, 7, 2, 200_000).unwrap();
    assert_eq!(
        (
            a.window_drafting,
            a.window_drafted,
            a.window_accepted,
            a.run_accepted
        ),
        (0, 0, 0, 30)
    );
}

#[test]
fn spec_acceptance_windows_on_completion_time() {
    let rows = vec![RequestMetric {
        // Started at 50s, ran for 5 minutes: completion at 350s.
        timestamp_ms: 50_000,
        duration_ms: Some(300_000),
        draft_tokens: Some(59),
        draft_tokens_accepted: Some(0),
        ..metric(1, 0, 200)
    }];

    // A start-keyed window from 300s would miss the row; the
    // completion-keyed window counts it.
    let a = spec_acceptance_since(&rows, 7, 1, 300_000).unwrap();
    assert_eq!(a.window_drafting, 1);

    // A window opening after the completion excludes it.
    let a = spec_acceptance_since(&rows, 7, 1, 400_000).unwrap();
    assert_eq!(a.window_drafting, 0);
}

#[test]
fn a_sum_that_cannot_be_kept_is_not_answered() {
    let rows = vec![
        drafting(1, 0, Some(i64::MAX), Some(0)),
        drafting(1, 0, Some(1), Some(0)),
    ];
    assert!(spec_acceptance_since(&rows, 7, 1, 0).is_none());
    assert!(spec_acceptance_since(&rows[..1], 7, 1, 0).is_some());
    let negative = vec![drafting(1, 0, Some(5), Some(-2))];
    assert_eq!(
        spec_acceptance_since(&negative, 7, 1, 0)
            .unwrap()
            .run_accepted,
        0
    );
}

#[test]
fn columns_are_listed_in_order() {
    assert_eq!(
        column_list(&SERVICE_COLUMNS, ""),
        "service_id, name, created_at, deleted_at"
    );
    assert_eq!(
        column_list(&SERVICE_RESTART_COLUMNS, ""),
        "restart_id, service_id, run_id, at_ms, trigger_name, detail"
    );
    assert_eq!(
        column_list(&SERVICE_RESTART_COLUMNS, "r."),
        "r.restart_id, r.service_id, r.run_id, r.at_ms, r.trigger_name, r.detail"
    );
    assert_eq!(
        column_list(&RUNNING_SERVICE_COLUMNS, ""),
        "service_id, run_id, pid, spawned_at, command_line, allocation, state, workload_kind, runtime, container_name, container_id, runtime_executable"
    );
    assert_eq!(
        column_list(&LAUNCH_INTENT_COLUMNS, ""),
        "intent_id, service_id, run_id, owner_uuid, workload_kind, runtime, runtime_executable, container_name, labels_json, spec_json, container_id, state, created_at"
    );
    assert_eq!(
        column_list(&SERVICE_LOG_COLUMNS, ""),
        "service_id, run_id, timestamp_ms, seq, stream, line"
    );
}

#[test]
fn counts_are_never_fewer_than_zero() {
    assert_eq!(count_of(None), 0);
    assert_eq!(count_of(Some(-4)), 0);
    assert_eq!(count_of(Some(4)), 4);
}

#[test]
fn device_samples_prune_old() {
    let mut samples = vec![sample(1, "gpu:0", 100, 1000, 500), sample(2, "gpu:0", 2000, 1000, 500)];
    let deleted = prune_device_samples(&mut samples, 1000);
    assert_eq!(deleted.len(), 1);
    assert_eq!(deleted, vec![1]);

    let remaining = query_device_samples(&samples, None, 0, 10_000);
    assert_eq!(remaining.len(), 1);
    assert_eq!(remaining[0].timestamp_ms, 2000);
}

#[test]
fn pruning_costs_no_later_window_a_sample() {
    let mut samples = vec![
        sample(1, "gpu:0", 999, 9, 4),
        sample(2, "cpu", 1000, 9, 4),
        sample(3, "gpu:0", 1500, 9, 4),
    ];
    let before = query_device_samples(&samples, None, 1000, 2000);
    assert_eq!(prune_device_samples(&mut samples, 1000), vec![1]);
    assert_eq!(query_device_samples(&samples, None, 1000, 2000), before);
    assert_eq!(before.len(), 2);
    assert!(prune_device_samples(&mut samples, 1000).is_empty());
}

fn intent(intent_id: i64, service_id: i64) -> ContainerLaunchIntent {
    ContainerLaunchIntent {
        intent_id,
        service_id,
        run_id: 1,
        owner_uuid: "o".to_string(),
        workload_kind: "container".to_string(),
        runtime: "docker".to_string(),
        runtime_executable: "docker".to_string(),
        container_name: format!("ananke-{service_id}-{intent_id}"),
        labels_json: "{}".to_string(),
        spec_json: "{}".to_string(),
        container_id: Some("c".to_string()),
        state: ATTACHED.to_string(),
        created_at: 0,
    }
}

#[test]
fn intents_are_listed_in_order_of_their_numbers() {
    let rows = vec![intent(5, 1), intent(2, 7), intent(9, 1), intent(1, 7)];
    let ids = |list: Vec<ContainerLaunchIntent>| -> Vec<i64> {
        list.iter().map(|i| i.intent_id).collect()
    };
    assert_eq!(ids(list_launch_intents(&rows, "o")), vec![1, 2, 5, 9]);
    assert_eq!(ids(launch_intents_for_service(&rows, 1)), vec![5, 9]);
    assert_eq!(ids(launch_intents_for_service(&rows, 7)), vec![1, 2]);
    assert!(launch_intents_for_service(&rows, 3).is_empty());
    assert_eq!(list_launch_intents(&rows, "o")[2], rows[0]);
}

#[test]
fn intents_of_another_owner_are_not_listed() {
    let mut rows = vec![intent(5, 1), intent(2, 7), intent(9, 1)];
    rows[0].owner_uuid = "other".to_string();
    let ids = |list: Vec<ContainerLaunchIntent>| -> Vec<i64> {
        list.iter().map(|i| i.intent_id).collect()
    };
    assert_eq!(ids(list_launch_intents(&rows, "o")), vec![2, 9]);
    assert_eq!(ids(list_launch_intents(&rows, "other")), vec![5]);
    assert!(list_launch_intents(&rows, "nobody").is_empty());
    // What blocks a service does not depend on who launched it.
    assert_eq!(ids(launch_intents_for_service(&rows, 1)), vec![5, 9]);
}
