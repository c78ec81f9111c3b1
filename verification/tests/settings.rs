//! Defaults, reference tables, vocabularies and metadata.

use ananke::api::openai::models::Modality;
use ananke::config::auto_restart::{
    AutoRestartSettings, ErrorStatusClass, PeriodicMode, DEFAULT_AUTO_RESTART_PERIODIC_MODE,
};
use ananke::config::docs::{
    all_sections, bt, bt_dur, code_values, container, fmt_duration_ms,
    DEFAULT_AUTO_RESTART_MAX_ERROR_RATE, DEFAULT_OPENAI_MAX_BODY_BYTES,
    DEFAULT_OPENAI_MAX_BODY_MB, DEFAULT_PRIVATE_PORT_END, DEFAULT_PRIVATE_PORT_START,
};
use ananke::config::effective::{
    preflight_error, preflight_reads, CommandConfig, DaemonSettings, EffectiveConfig,
    LlamaCppConfig, ServiceConfig, Template, TemplateConfig,
};
use ananke::config::error::ExpectedError;
use ananke::config::flags::{cache_type, numa, quoted_list, split_mode};
use ananke::config::runtime::Runtime;
use ananke::config::units::{GIB, MIB, MIB_I64};
use ananke::config::value::{
    build_ananke_metadata, toml_value_to_json, Float64, JsonValue, TomlValue,
};
use ananke::estimate::device_bytes::DeviceBytes;
use ananke::estimate::types::SplitMode;
use ananke::text_map::TextMap;

#[test]
fn test_fmt_duration_ms() {
    assert_eq!(fmt_duration_ms(0), "0s");
    assert_eq!(fmt_duration_ms(5_000), "5s");
    assert_eq!(fmt_duration_ms(30_000), "30s");
    assert_eq!(fmt_duration_ms(60_000), "1m");
    assert_eq!(fmt_duration_ms(600_000), "10m");
    assert_eq!(fmt_duration_ms(1_800_000), "30m");
    assert_eq!(fmt_duration_ms(3_600_000), "1h");
    assert_eq!(fmt_duration_ms(7_200_000), "2h");
    // Non-clean values fall back to raw ms.
    assert_eq!(fmt_duration_ms(5_500), "5500ms");
    assert_eq!(fmt_duration_ms(90_000), "90000ms");
}

#[test]
fn test_all_sections_covered() {
    let sections = all_sections();
    assert!(!sections.is_empty(), "all_sections() must not be empty");

    let mut ids = std::collections::HashSet::new();
    for s in &sections {
        assert!(!s.id.is_empty(), "section id must not be empty");
        assert!(!s.title.is_empty(), "section title must not be empty");
        assert!(ids.insert(s.id), "duplicate section id: {}", s.id);
        assert!(!s.fields.is_empty(), "section {} has no fields", s.id);
        for f in &s.fields {
            assert!(!f.name.is_empty(), "field name empty in {}", s.id);
            assert!(!f.ty.is_empty(), "field {} type empty in {}", f.name, s.id);
            assert!(
                !f.default.is_empty(),
                "field {} default empty in {}",
                f.name,
                s.id
            );
            assert!(
                !f.description.is_empty(),
                "field {} description empty in {}",
                f.name,
                s.id
            );
        }
    }

    // Spot-check: idle_timeout default references the constant correctly.
    let defaults = sections
        .iter()
        .find(|s| s.id == "defaults")
        .expect("defaults section must exist");
    let idle = defaults
        .fields
        .iter()
        .find(|f| f.name == "idle_timeout")
        .expect("idle_timeout field must exist");
    assert_eq!(idle.default, "`10m`");
}

#[test]
fn test_private_port_defaults() {
    assert_eq!(DEFAULT_PRIVATE_PORT_START, 40_000);
    assert_eq!(DEFAULT_PRIVATE_PORT_END, 59_999);
}

fn shown(section: &str, field: &str) -> (String, String) {
    let sections = all_sections();
    let s = sections.iter().find(|s| s.id == section).unwrap();
    let f = s.fields.iter().find(|f| f.name == field).unwrap();
    (f.default.clone(), f.description.clone())
}

#[test]
fn tables_render_every_form_of_default_and_description() {
    assert_eq!(shown("daemon", "management_listen").0, "`127.0.0.1:7071`");
    assert_eq!(shown("daemon", "private_port_start").0, "`40000`");
    assert_eq!(
        shown("service_common", "priority").0,
        "`50` (or `[defaults]` value)"
    );
    assert_eq!(
        shown("service_common", "idle_timeout").0,
        "`10m` (or `[defaults]` value)"
    );
    assert_eq!(
        shown("service_auto_restart_error_rate", "max_error_rate").0,
        "`0.5`"
    );
    assert_eq!(
        shown("service_devices", "split").1,
        "Multi-GPU split mode for llama.cpp services: `\"layer\"`, `\"row\"`, `\"tensor\"`. Maps to llama.cpp's `--split-mode`. See [Multi-GPU split modes](#multi-gpu-split-modes) for constraints."
    );
    assert_eq!(
        shown("llama_cpp", "numa").1,
        "NUMA thread-and-memory placement strategy (`--numa`): `\"distribute\"`, `\"isolate\"`, `\"numactl\"`. Unset leaves llama.cpp's default."
    );
    let ids: Vec<&str> = all_sections().iter().map(|s| s.id).collect();
    assert_eq!(
        ids,
        vec![
            "daemon",
            "openai_api",
            "defaults",
            "devices",
            "service_common",
            "service_devices",
            "service_health",
            "service_allocation",
            "service_filters",
            "service_tracking",
            "service_auto_restart",
            "service_auto_restart_error_rate",
            "service_auto_restart_periodic",
            "service_auto_restart_ttft_stall",
            "service_auto_restart_generation_stall",
            "service_auto_restart_spec_collapse",
            "llama_cpp",
            "llama_cpp_estimation",
            "llama_cpp_sampling",
            "command",
            "openai_proxy",
        ]
    );
}

#[test]
fn the_container_reference_lists_its_words() {
    let sections = container::sections();
    assert_eq!(sections.len(), 3);
    assert_eq!(sections[0].fields.len(), 14);
    assert_eq!(
        sections[0].fields[0].description,
        "Container runtime to drive. One of `\"docker\"`, `\"podman\"`."
    );
    assert_eq!(
        sections[1].fields[3].description,
        "SELinux relabel policy, one of `\"z\"`, `\"Z\"` (`z` is shared, `Z` is private). Omit on systems without SELinux."
    );
    assert_eq!(
        sections[2].fields[3].description,
        "One of `\"tcp\"`, `\"udp\"`."
    );
}

#[test]
fn values_are_shown_as_code() {
    assert_eq!(bt("x"), "`x`");
    assert_eq!(bt_dur(30_000), "`30s`");
    assert_eq!(code_values(&[]), "");
    assert_eq!(code_values(&["a"]), "`\"a\"`");
    assert_eq!(quoted_list(&split_mode::ALL), "\"layer\", \"row\", \"tensor\"");
    assert_eq!(quoted_list(&numa::ALL), "\"distribute\", \"isolate\", \"numactl\"");
}

#[test]
fn only_f16_and_f32_caches_are_unquantised() {
    assert!(!cache_type::is_quantised("f16"));
    assert!(!cache_type::is_quantised("F32"));
    for t in cache_type::ALL {
        assert_eq!(cache_type::is_quantised(t), t != "f16" && t != "f32", "{t}");
    }
    assert!(cache_type::is_quantised("bf16"));
    assert!(cache_type::is_quantised(""));
}

#[test]
fn units_agree() {
    assert_eq!(MIB, 1024 * 1024);
    assert_eq!(GIB, 1024 * MIB);
    assert_eq!(MIB_I64, MIB as i64);
    assert_eq!(
        DEFAULT_OPENAI_MAX_BODY_BYTES as u64,
        DEFAULT_OPENAI_MAX_BODY_MB * MIB
    );
    assert_eq!(f64::from_bits(DEFAULT_AUTO_RESTART_MAX_ERROR_RATE), 0.5);
}

#[test]
fn fork_wire_spelling_is_pinned() {
    for variant in [Runtime::Mainline, Runtime::Ik] {
        // Completeness: a new variant is a compile error here until it is
        // listed above and given a name.
        match variant {
            Runtime::Mainline | Runtime::Ik => {}
        }
    }
    assert_eq!(Runtime::Mainline.name(), "mainline");
    assert_eq!(Runtime::Ik.name(), "ik");
    assert_eq!(Runtime::default(), Runtime::Mainline);
}

#[test]
fn watchdogs_are_on_by_default_and_can_all_be_off() {
    let on = AutoRestartSettings::default();
    assert!(on.any_enabled());
    assert!(on.periodic.is_none());
    let rate = on.error_rate.unwrap();
    assert_eq!(rate.window_ms, 120_000);
    assert_eq!(f64::from_bits(rate.max_error_rate.bits), 0.5);
    assert_eq!(rate.min_requests, 20);
    assert_eq!(on.ttft_stall.unwrap().timeout_ms, 300_000);
    assert_eq!(on.generation_stall.unwrap().poll_interval_ms, 30_000);
    assert_eq!(on.spec_collapse.unwrap().min_draft_tokens, 200);

    let off = AutoRestartSettings::disabled();
    assert!(!off.any_enabled());
    assert_eq!(off.min_uptime_ms, 300_000);
    assert_eq!(off.max_restarts, 3);
    assert_eq!(off.flap_window_ms, 1_800_000);
    assert_eq!(DEFAULT_AUTO_RESTART_PERIODIC_MODE, PeriodicMode::OnRequest);
}

#[test]
fn the_least_status_is_the_only_bound_a_query_needs() {
    for class in [ErrorStatusClass::ServerOnly, ErrorStatusClass::ClientAndServer] {
        for status in 100..600u16 {
            assert_eq!(class.is_error(status), status >= class.min_status_code());
        }
    }
    assert!(!ErrorStatusClass::ServerOnly.is_error(600));
    assert!(ErrorStatusClass::ClientAndServer.is_error(600));
    assert!(!ErrorStatusClass::ServerOnly.is_error(404));
}

fn service(name: &str, template_config: TemplateConfig) -> ServiceConfig {
    ServiceConfig {
        name: name.to_string(),
        port: 1,
        private_port: 2,
        priority: 50,
        placement_override: DeviceBytes::new(),
        gpu_allow: vec![],
        split_mode: SplitMode::Layer,
        tensor_split_weights: None,
        gpu_headroom_mb: 0,
        idle_timeout_ms: 0,
        drain_timeout_ms: 0,
        extended_stream_drain_ms: 0,
        max_request_duration_ms: 0,
        auto_restart: AutoRestartSettings::disabled(),
        openai_compat: true,
        description: None,
        modality: Modality::default(),
        start_queue_depth: 10,
        extra_args: vec![],
        env: TextMap::new(),
        env_inherit: true,
        metadata: vec![],
        container: None,
        template_config,
    }
}

fn llama(model: &str, mmproj: Option<&str>) -> TemplateConfig {
    TemplateConfig::LlamaCpp(Box::new(LlamaCppConfig {
        model: model.to_string(),
        mmproj: mmproj.map(str::to_string),
        context: None,
        n_gpu_layers: None,
        flash_attn: None,
        cache_type_k: None,
        cache_type_v: None,
        mmap: None,
        mlock: None,
        parallel: None,
        spec_type: None,
        spec_draft_n_max: None,
        draft_model: None,
        kv_unified: None,
        cache_idle_slots: None,
        cache_ram_mb: None,
        metrics: None,
        slots: None,
        batch_size: None,
        ubatch_size: None,
        threads: None,
        threads_batch: None,
        jinja: None,
        chat_template_file: None,
        override_tensor: vec![],
        binary: "llama-server".to_string(),
        launcher: None,
    }))
}

fn command() -> TemplateConfig {
    TemplateConfig::Command(CommandConfig {
        command: vec!["run".to_string()],
        workdir: None,
        shutdown_command: None,
        private_port_override: None,
        openai_proxy: None,
    })
}

#[test]
fn a_service_has_the_settings_of_its_template() {
    let lc = service("l", llama("/m.gguf", None));
    assert_eq!(lc.template(), Template::LlamaCpp);
    assert_eq!(lc.llama_cpp().unwrap().model, "/m.gguf");
    assert!(lc.command().is_none());
    let cmd = service("c", command());
    assert_eq!(cmd.template(), Template::Command);
    assert_eq!(cmd.command().unwrap().command, vec!["run".to_string()]);
    assert!(cmd.llama_cpp().is_none());
    let daemon = DaemonSettings::default();
    assert_eq!(daemon.shutdown_timeout_ms, 5_000);
    assert_eq!(daemon.openai_max_body_bytes, 64 * 1024 * 1024);
    assert_eq!(daemon.management_listen, "");
}

#[test]
fn every_model_file_is_read_before_the_daemon_starts() {
    let cfg = EffectiveConfig {
        daemon: DaemonSettings::default(),
        services: vec![
            service("a", llama("/a.gguf", Some("/a.mmproj"))),
            service("b", command()),
            service("c", llama("/c.gguf", None)),
        ],
    };
    let reads = preflight_reads(&cfg);
    let seen: Vec<(&str, &str, bool)> = reads
        .iter()
        .map(|r| (r.service, r.path, r.projector))
        .collect();
    assert_eq!(
        seen,
        vec![
            ("a", "/a.gguf", false),
            ("a", "/a.mmproj", true),
            ("c", "/c.gguf", false)
        ]
    );
    assert_eq!(
        preflight_error(&reads[0], "bad magic").text(),
        "<preflight>: service a: bad magic"
    );
    assert_eq!(
        preflight_error(&reads[1], "bad magic").text(),
        "<preflight>: service a mmproj: bad magic"
    );
}

#[test]
fn errors_say_where_and_why() {
    assert_eq!(
        ExpectedError::config_file_missing("/c.toml").text(),
        "config file not found: /c.toml"
    );
    assert_eq!(
        ExpectedError::config_unparseable("/c.toml", "bad".to_string()).text(),
        "/c.toml: bad"
    );
    assert_eq!(
        ExpectedError::database_open_failed("/d.db", "locked".to_string()).text(),
        "/d.db: database could not be opened: locked"
    );
}

#[test]
fn metadata_becomes_json_key_by_key() {
    let mut table = TextMap::new();
    table.insert(
        "tags".to_string(),
        TomlValue::Array(vec![TomlValue::String("x".to_string())]),
    );
    table.insert("on".to_string(), TomlValue::Boolean(true));
    table.insert("n".to_string(), TomlValue::Integer(-3));
    table.insert("when".to_string(), TomlValue::Datetime("1979-05-27".to_string()));
    let out = build_ananke_metadata(Some(&table)).unwrap();
    let keys: Vec<&str> = out.iter().map(|(k, _)| k.as_str()).collect();
    assert_eq!(keys, vec!["n", "on", "tags", "when"]);
    assert!(matches!(out[0].1, JsonValue::Integer(-3)));
    assert!(matches!(out[1].1, JsonValue::Bool(true)));
    assert!(matches!(&out[2].1, JsonValue::Array(v) if v.len() == 1));
    assert!(matches!(&out[3].1, JsonValue::String(s) if s == "1979-05-27"));
    assert!(build_ananke_metadata(None).unwrap().is_empty());
}

#[test]
fn a_float_that_is_no_number_has_no_json() {
    let half = TomlValue::Float(Float64 {
        bits: 0.5f64.to_bits(),
    });
    assert!(matches!(
        toml_value_to_json(&half),
        Ok(JsonValue::Float(f)) if f64::from_bits(f.bits) == 0.5
    ));
    for bad in [f64::NAN, f64::INFINITY, f64::NEG_INFINITY] {
        let v = TomlValue::Table(vec![(
            "k".to_string(),
            TomlValue::Float(Float64 {
                bits: bad.to_bits(),
            }),
        )]);
        assert_eq!(toml_value_to_json(&v).unwrap_err(), "non-finite float");
    }
}

#[test]
fn a_text_map_keeps_its_keys_in_order() {
    let mut m = TextMap::new();
    assert!(m.insert("b".to_string(), 1).is_none());
    assert!(m.insert("a".to_string(), 2).is_none());
    assert_eq!(m.insert("b".to_string(), 3), Some(1));
    assert_eq!(m.len(), 2);
    assert_eq!(m.key_at(0), "a");
    assert_eq!(m.get("b"), Some(&3));
    assert!(!m.contains_key("c"));
    let copy = m.clone();
    assert_eq!(copy.into_values(), vec![2, 3]);
}
