//! Parsed configs: inheritance, renames and containers.

use ananke::config::container::{
    ContainerConfig, ContainerRuntime, RawContainerConfig, RawContainerMount, RawPortPublication,
};
use ananke::config::error::ExpectedError;
use ananke::config::load::resolve_services;
use ananke::config::merge::migrations::{resolve_migrations, Migration};
use ananke::config::merge::resolve::resolve_inheritance;
use ananke::config::raw::{
    RawCommandService, RawConfig, RawLlamaCppService, RawService, RawServiceCommon,
};
use ananke::config::service::service_container;
use ananke::text_map::TextMap;

fn text(t: &toml::Table, key: &str) -> Option<String> {
    t.get(key).map(|v| v.as_str().unwrap().to_string())
}

fn number(t: &toml::Table, key: &str) -> Option<i64> {
    t.get(key).map(|v| v.as_integer().unwrap())
}

fn list(t: &toml::Table, key: &str) -> Option<Vec<String>> {
    t.get(key).map(|v| {
        v.as_array()
            .unwrap()
            .iter()
            .map(|x| x.as_str().unwrap().to_string())
            .collect()
    })
}

fn map(t: &toml::Table, key: &str) -> Option<TextMap<String>> {
    t.get(key).map(|v| {
        let mut m = TextMap::new();
        for (k, x) in v.as_table().unwrap() {
            m.insert(k.clone(), x.as_str().unwrap().to_string());
        }
        m
    })
}

fn container(t: &toml::Table) -> Option<RawContainerConfig> {
    let c = t.get("container")?.as_table().unwrap();
    Some(RawContainerConfig {
        runtime: text(c, "runtime"),
        runtime_executable: text(c, "runtime_executable"),
        image: text(c, "image"),
        entrypoint: text(c, "entrypoint"),
        workdir: text(c, "workdir"),
        network: text(c, "network"),
        container_port: number(c, "container_port").map(|n| n as u16),
        ipc: text(c, "ipc"),
        gpu_device: text(c, "gpu_device"),
        mounts: c.get("mounts").map(|v| {
            v.as_array()
                .unwrap()
                .iter()
                .map(|m| {
                    let m = m.as_table().unwrap();
                    RawContainerMount {
                        source: text(m, "source").unwrap(),
                        target: text(m, "target").unwrap(),
                        read_only: m.get("read_only").map_or(false, |b| b.as_bool().unwrap()),
                        selinux: text(m, "selinux"),
                    }
                })
                .collect()
        }),
        extra_publications: c.get("extra_publications").map(|v| {
            v.as_array()
                .unwrap()
                .iter()
                .map(|p| {
                    let p = p.as_table().unwrap();
                    RawPortPublication {
                        host_ip: text(p, "host_ip")
                            .unwrap_or_else(ananke::config::container::default_host_ip),
                        host_port: number(p, "host_port").unwrap() as u16,
                        container_port: number(p, "container_port").unwrap() as u16,
                        protocol: text(p, "protocol")
                            .unwrap_or_else(ananke::config::container::default_protocol),
                    }
                })
                .collect()
        }),
        env: map(c, "env"),
        env_passthrough: list(c, "env_passthrough"),
        labels: map(c, "labels"),
    })
}

fn service(t: &toml::Table) -> RawService {
    let common = RawServiceCommon {
        name: text(t, "name"),
        extends: text(t, "extends"),
        migrate_from: text(t, "migrate_from"),
        port: number(t, "port").map(|n| n as u16),
        description: text(t, "description"),
        extra_args: list(t, "extra_args"),
        extra_args_append: list(t, "extra_args_append"),
        env: map(t, "env"),
        start_queue_depth: number(t, "start_queue_depth").map(|n| n as usize),
        ..RawServiceCommon::default()
    };
    match t.get("template").unwrap().as_str().unwrap() {
        "llama-cpp" => RawService::LlamaCpp(Box::new(RawLlamaCppService {
            common,
            model: text(t, "model"),
            context: number(t, "context").map(|n| n as u32),
            launcher: list(t, "launcher"),
            container: container(t),
            ..RawLlamaCppService::default()
        })),
        "command" => RawService::Command(Box::new(RawCommandService {
            common,
            command: list(t, "command"),
            shutdown_command: list(t, "shutdown_command"),
            container: container(t),
            ..RawCommandService::default()
        })),
        other => panic!("unknown template {other}"),
    }
}

fn parse(source: &str) -> RawConfig {
    let table: toml::Table = toml::from_str(source).unwrap();
    RawConfig {
        services: table
            .get("service")
            .map(|v| {
                v.as_array()
                    .unwrap()
                    .iter()
                    .map(|s| service(s.as_table().unwrap()))
                    .collect()
            })
            .unwrap_or_default(),
    }
}

fn merged(source: &str) -> RawConfig {
    let mut cfg = parse(source);
    resolve_inheritance(&mut cfg).unwrap();
    cfg
}

fn find_llama<'a>(cfg: &'a RawConfig, name: &str) -> &'a RawLlamaCppService {
    for s in &cfg.services {
        if let RawService::LlamaCpp(lc) = s {
            if lc.common.name.as_deref() == Some(name) {
                return lc;
            }
        }
    }
    panic!("no llama.cpp service {name}")
}

fn refusal(r: Result<(), ExpectedError>) -> String {
    r.unwrap_err().text()
}

#[test]
fn transitive_extends() {
    let cfg = merged(
        r#"
[[service]]
name = "a"
template = "llama-cpp"
model = "/m/a.gguf"
port = 11000
context = 4096

[[service]]
name = "b"
template = "llama-cpp"
extends = "a"
port = 11001

[[service]]
name = "c"
template = "llama-cpp"
extends = "b"
port = 11002
context = 32768
"#,
    );
    let c = find_llama(&cfg, "c");
    assert_eq!(c.context, Some(32768));
    assert_eq!(c.model.as_deref(), Some("/m/a.gguf"));
}

#[test]
fn cycle_is_error() {
    let mut cfg = parse(
        r#"
[[service]]
name = "a"
template = "llama-cpp"
model = "/m/a.gguf"
port = 11000
extends = "b"

[[service]]
name = "b"
template = "llama-cpp"
model = "/m/a.gguf"
port = 11001
extends = "a"
"#,
    );
    let err = refusal(resolve_inheritance(&mut cfg));
    assert!(err.contains("cycle"));
    assert_eq!(err, "<config>: extends cycle involving service a");
    assert!(cfg.services.is_empty());
}

#[test]
fn missing_extends_target_is_error() {
    let mut cfg = parse(
        r#"
[[service]]
name = "a"
template = "llama-cpp"
model = "/m/a.gguf"
port = 11000
extends = "does-not-exist"
"#,
    );
    let err = refusal(resolve_inheritance(&mut cfg));
    assert!(err.contains("does-not-exist"));
    assert_eq!(
        err,
        "<config>: service a extends does-not-exist which does not exist"
    );
}

#[test]
fn cross_template_extends_is_error() {
    let mut cfg = parse(
        r#"
[[service]]
name = "base"
template = "command"
port = 11000
command = ["/bin/true"]

[[service]]
name = "child"
template = "llama-cpp"
extends = "base"
port = 11001
model = "/m/a.gguf"
"#,
    );
    let msg = refusal(resolve_inheritance(&mut cfg));
    assert!(
        msg.contains("template") && msg.contains("cross-template"),
        "unexpected error: {msg}"
    );
    assert_eq!(
        msg,
        "<config>: service child: template `llama-cpp` does not match parent's template `command`; cross-template extends is not allowed"
    );
}

#[test]
fn names_are_required_and_unique() {
    let mut nameless = parse("[[service]]\ntemplate = \"llama-cpp\"\nport = 1\n");
    assert_eq!(
        refusal(resolve_inheritance(&mut nameless)),
        "<config>: service block missing name"
    );
    let mut twice = parse(
        "[[service]]\nname = \"a\"\ntemplate = \"command\"\n[[service]]\nname = \"a\"\ntemplate = \"command\"\n",
    );
    assert_eq!(
        refusal(resolve_inheritance(&mut twice)),
        "<config>: duplicate service name: a"
    );
}

#[test]
fn the_first_faulty_chain_by_name_is_reported() {
    let mut cfg = parse(
        r#"
[[service]]
name = "z"
template = "command"
extends = "nowhere"

[[service]]
name = "b"
template = "command"
extends = "gone"

[[service]]
name = "a"
template = "command"
"#,
    );
    assert_eq!(
        refusal(resolve_inheritance(&mut cfg)),
        "<config>: service b extends gone which does not exist"
    );
}

#[test]
fn appended_arguments_follow_inherited_ones() {
    let cfg = merged(
        r#"
[[service]]
name = "base"
template = "command"
command = ["serve"]
extra_args = ["--one"]
description = "shared"
start_queue_depth = 3

[[service]]
name = "child"
template = "command"
extends = "base"
extra_args_append = ["--two", "--three"]
"#,
    );
    // Services come out in order of their names.
    assert_eq!(cfg.services[0].common().name.as_deref(), Some("base"));
    let child = cfg.services[1].common();
    assert_eq!(child.name.as_deref(), Some("child"));
    assert_eq!(
        child.extra_args,
        Some(vec![
            "--one".to_string(),
            "--two".to_string(),
            "--three".to_string()
        ])
    );
    assert_eq!(child.extra_args_append, None);
    assert_eq!(child.description.as_deref(), Some("shared"));
    assert_eq!(child.extends.as_deref(), Some("base"));
    assert_eq!(cfg.services[1].start_queue_depth(), 3);
    assert_eq!(cfg.services[1].template_label(), "command");
}

#[test]
fn former_names_are_never_inherited() {
    let mut cfg = merged(
        r#"
[[service]]
name = "base"
template = "command"
migrate_from = "old"

[[service]]
name = "child"
template = "command"
extends = "base"
"#,
    );
    assert_eq!(cfg.services[1].common().migrate_from, None);
    let found = resolve_migrations(&mut cfg).unwrap();
    assert_eq!(
        found,
        vec![Migration {
            old_name: "old".to_string(),
            new_name: "base".to_string()
        }]
    );
    assert_eq!(cfg.services[0].common().migrate_from, None);
}

#[test]
fn migrate_from_chain_resolved_in_order() {
    let mut cfg = parse(
        r#"
[[service]]
name = "c"
template = "llama-cpp"
model = "/m/x.gguf"
port = 12002
migrate_from = "b"

[[service]]
name = "b"
template = "llama-cpp"
model = "/m/x.gguf"
port = 12001
migrate_from = "a"
"#,
    );
    resolve_inheritance(&mut cfg).unwrap();
    let migrations = resolve_migrations(&mut cfg).unwrap();
    let b_idx = migrations.iter().position(|m| m.new_name == "b").unwrap();
    let c_idx = migrations.iter().position(|m| m.new_name == "c").unwrap();
    assert!(b_idx < c_idx);
    assert_eq!(migrations[b_idx].old_name, "a");
    assert_eq!(migrations[c_idx].old_name, "b");
}

#[test]
fn a_source_that_sorts_behind_its_dependent_comes_first() {
    let mut cfg = parse(
        r#"
[[service]]
name = "a"
template = "command"
migrate_from = "z"

[[service]]
name = "z"
template = "command"
migrate_from = "y"
"#,
    );
    let found = resolve_services(&mut cfg).unwrap();
    let names: Vec<(&str, &str)> = found
        .iter()
        .map(|m| (m.old_name.as_str(), m.new_name.as_str()))
        .collect();
    assert_eq!(names, vec![("y", "z"), ("z", "a")]);
    assert!(cfg.services.iter().all(|s| s.common().migrate_from.is_none()));
}

#[test]
fn migrate_from_missing_source_is_warning_not_error() {
    let mut cfg = parse(
        r#"
[[service]]
name = "b"
template = "llama-cpp"
model = "/m/x.gguf"
port = 12001
migrate_from = "does-not-exist"
"#,
    );
    resolve_inheritance(&mut cfg).unwrap();
    let migrations = resolve_migrations(&mut cfg).unwrap();
    assert_eq!(migrations.len(), 1);
    assert_eq!(migrations[0].old_name, "does-not-exist");
}

#[test]
fn rename_cycles_and_nameless_services_are_refused() {
    let mut cfg = parse(
        r#"
[[service]]
name = "a"
template = "command"
migrate_from = "b"

[[service]]
name = "b"
template = "command"
migrate_from = "a"
"#,
    );
    assert_eq!(
        resolve_migrations(&mut cfg).unwrap_err().text(),
        "<config>: migrate_from cycle involving a"
    );
    // A refusal leaves the config as it was.
    assert_eq!(cfg.services[0].common().migrate_from.as_deref(), Some("b"));

    // The refusal names a service on the cycle, not one that leads into it.
    let mut entered = parse(
        r#"
[[service]]
name = "a"
template = "command"
migrate_from = "c"

[[service]]
name = "b"
template = "command"
migrate_from = "d"

[[service]]
name = "c"
template = "command"
migrate_from = "b"

[[service]]
name = "d"
template = "command"
migrate_from = "c"
"#,
    );
    assert_eq!(
        resolve_migrations(&mut entered).unwrap_err().text(),
        "<config>: migrate_from cycle involving c"
    );
    let mut own = parse(
        "[[service]]\nname = \"a\"\ntemplate = \"command\"\nmigrate_from = \"a\"\n",
    );
    assert_eq!(
        resolve_migrations(&mut own).unwrap_err().text(),
        "<config>: migrate_from cycle involving a"
    );

    let mut nameless = parse("[[service]]\ntemplate = \"command\"\n");
    assert_eq!(
        resolve_migrations(&mut nameless).unwrap_err().text(),
        "<config>: service without a name during migrate_from resolution"
    );
    let mut refused = parse("[[service]]\ntemplate = \"command\"\n");
    assert_eq!(
        resolve_services(&mut refused).unwrap_err().text(),
        "<config>: service block missing name"
    );
}

#[test]
fn parses_container_block_on_command_service() {
    let cfg = parse(
        r#"
[[service]]
name = "test"
template = "command"
port = 8500
command = ["run"]
allocation.mode = "static"
allocation.reserve_gb = 1

[service.container]
runtime = "docker"
image = "test:latest"
network = "bridge"
container_port = 8000
ipc = "host"
"#,
    );
    let RawService::Command(cmd) = &cfg.services[0] else {
        panic!("expected Command");
    };
    assert!(cmd.container.is_some());
    let ct = cmd.container.as_ref().unwrap();
    assert_eq!(ct.runtime.as_deref(), Some("docker"));
    assert_eq!(ct.image.as_deref(), Some("test:latest"));
    assert_eq!(ct.network.as_deref(), Some("bridge"));
    assert_eq!(ct.container_port, Some(8000));
    assert_eq!(ct.ipc.as_deref(), Some("host"));
}

#[test]
fn parses_container_block_on_llama_cpp_service() {
    let cfg = parse(
        r#"
[[service]]
name = "test"
template = "llama-cpp"
model = "/m/x.gguf"
port = 11435

[service.container]
runtime = "podman"
image = "ghcr.io/ggml-org/llama.cpp:server-cuda"
network = "host"
"#,
    );
    let RawService::LlamaCpp(lc) = &cfg.services[0] else {
        panic!("expected LlamaCpp");
    };
    assert!(lc.container.is_some());
    let ct = lc.container.as_ref().unwrap();
    assert_eq!(ct.runtime.as_deref(), Some("podman"));
    assert_eq!(
        ct.image.as_deref(),
        Some("ghcr.io/ggml-org/llama.cpp:server-cuda")
    );
    assert_eq!(ct.network.as_deref(), Some("host"));
}

#[test]
fn parses_mounts() {
    let cfg = parse(
        r#"
[[service]]
name = "test"
template = "command"
port = 8500
command = ["run"]
allocation.mode = "static"
allocation.reserve_gb = 1

[service.container]
image = "test:latest"
mounts = [
  { source = "/host/path", target = "/container/path", read_only = true },
  { source = "/cache", target = "/root/.cache", selinux = "z" },
]

"#,
    );
    let RawService::Command(cmd) = &cfg.services[0] else {
        panic!("expected Command");
    };
    let ct = cmd.container.as_ref().unwrap();
    assert_eq!(ct.mounts.as_ref().map(|m| m.len()), Some(2));
    let mounts = ct.mounts.as_ref().unwrap();
    assert_eq!(mounts[0].source, "/host/path");
    assert!(mounts[0].read_only);
    assert_eq!(mounts[1].selinux.as_deref(), Some("z"));
}

#[test]
fn parses_extra_publications() {
    let cfg = parse(
        r#"
[[service]]
name = "test"
template = "command"
port = 8500
command = ["run"]
allocation.mode = "static"
allocation.reserve_gb = 1

[service.container]
image = "test:latest"
network = "bridge"
container_port = 8000
extra_publications = [
  { host_port = 9000, container_port = 9000 },
  { host_port = 9001, container_port = 9001, protocol = "udp" },
]
"#,
    );
    let RawService::Command(cmd) = &cfg.services[0] else {
        panic!("expected Command");
    };
    let ct = cmd.container.as_ref().unwrap();
    assert_eq!(ct.extra_publications.as_ref().map(|p| p.len()), Some(2));
    let pubs = ct.extra_publications.as_ref().unwrap();
    assert_eq!(pubs[0].host_ip, "127.0.0.1");
    assert_eq!(pubs[0].protocol.as_str(), "tcp");
    assert_eq!(pubs[1].protocol.as_str(), "udp");
}

/// The container of each service, or the first complaint.
fn validate(cfg: &RawConfig) -> Result<Vec<Option<ContainerConfig>>, ExpectedError> {
    cfg.services.iter().map(service_container).collect()
}

#[test]
fn container_config_accepts_both_templates_and_runtimes() {
    // Docker on command template.
    let cfg = merged(
        r#"
[[service]]
name = "cmd-docker"
template = "command"
port = 8500
command = ["run", "--host", "${listen_host}", "--port", "${listen_port}"]
allocation.mode = "static"
allocation.reserve_gb = 1

[service.container]
runtime = "docker"
image = "test:latest"
network = "bridge"
container_port = 8000
"#,
    );
    let ec = validate(&cfg).unwrap();
    assert!(ec[0].is_some());
    let ct = ec[0].as_ref().unwrap();
    assert!(matches!(ct.runtime, ContainerRuntime::Docker));

    // Podman on llama-cpp template.
    let cfg = merged(
        r#"
[[service]]
name = "lc-podman"
template = "llama-cpp"
model = "/m/x.gguf"
port = 11435

[service.container]
runtime = "podman"
image = "ghcr.io/ggml-org/llama.cpp:server-cuda"
network = "host"
"#,
    );
    let ec = validate(&cfg).unwrap();
    assert!(ec[0].is_some());
    let ct = ec[0].as_ref().unwrap();
    assert!(matches!(ct.runtime, ContainerRuntime::Podman));
}

#[test]
fn container_rejects_missing_image() {
    let cfg = merged(
        r#"
[[service]]
name = "bad"
template = "command"
port = 8500
command = ["run"]
allocation.mode = "static"
allocation.reserve_gb = 1

[service.container]
"#,
    );
    let err = validate(&cfg).unwrap_err();
    assert!(err.text().contains("container.image"));
}

#[test]
fn container_rejects_invalid_runtime() {
    let cfg = merged(
        r#"
[[service]]
name = "bad"
template = "command"
port = 8500
command = ["run"]
allocation.mode = "static"
allocation.reserve_gb = 1

[service.container]
runtime = "containerd"
image = "test:latest"
"#,
    );
    let err = validate(&cfg).unwrap_err();
    assert!(err.text().contains("container.runtime"));
}

#[test]
fn container_rejects_reserved_label() {
    let cfg = merged(
        r#"
[[service]]
name = "bad"
template = "command"
port = 8500
command = ["run"]
allocation.mode = "static"
allocation.reserve_gb = 1

[service.container]
image = "test:latest"
network = "host"
labels = { "io.ananke.managed" = "false" }
"#,
    );
    let err = validate(&cfg).unwrap_err();
    assert!(err.text().contains("reserved"));
}

#[test]
fn container_rejects_bad_cdi_template() {
    // Missing {id} — use host network so we skip the container_port requirement.
    let cfg = merged(
        r#"
[[service]]
name = "bad"
template = "command"
port = 8500
command = ["run"]
allocation.mode = "static"
allocation.reserve_gb = 1

[service.container]
image = "test:latest"
network = "host"
gpu_device = "nvidia.com/gpu"
"#,
    );
    let err = validate(&cfg).unwrap_err();
    assert!(err.text().contains("${id}"));
}

#[test]
fn bridge_requires_container_port() {
    let cfg = merged(
        r#"
[[service]]
name = "bad"
template = "command"
port = 8500
command = ["run"]
allocation.mode = "static"
allocation.reserve_gb = 1

[service.container]
image = "test:latest"
network = "bridge"
"#,
    );
    let err = validate(&cfg).unwrap_err();
    assert!(err.text().contains("container_port"));
}

#[test]
fn container_rejects_network_publish_conflict() {
    let cfg = merged(
        r#"
[[service]]
name = "bad"
template = "command"
port = 8500
command = ["run"]
allocation.mode = "static"
allocation.reserve_gb = 1

[service.container]
image = "test:latest"
network = "host"
extra_publications = [
  { host_port = 9000, container_port = 9000 },
]
"#,
    );
    let err = validate(&cfg).unwrap_err();
    assert!(err.text().contains("extra_publications"));
}

#[test]
fn container_rejects_relative_mount_source() {
    let cfg = merged(
        r#"
[[service]]
name = "bad"
template = "command"
port = 8500
command = ["run"]
allocation.mode = "static"
allocation.reserve_gb = 1

[service.container]
image = "test:latest"
network = "host"
mounts = [
  { source = "relative/path", target = "/container/path" },
]
"#,
    );
    let err = validate(&cfg).unwrap_err();
    assert!(err.text().contains("absolute path"));
}

#[test]
fn container_rejects_launcher_and_shutdown_command() {
    let llama = merged(
        r#"
[[service]]
name = "lc"
template = "llama-cpp"
model = "/m/x.gguf"
port = 11435
launcher = ["/wrap.sh", "${model}", "${args}"]

[service.container]
image = "llama:latest"
network = "host"
"#,
    );
    let err = validate(&llama).unwrap_err();
    assert!(
        err.text().contains("launcher and [service.container] are mutually exclusive")
    );

    let command = merged(
        r#"
[[service]]
name = "cmd"
template = "command"
port = 8500
command = ["run"]
shutdown_command = ["/wrap.sh", "--stop"]
allocation.mode = "static"
allocation.reserve_gb = 1

[service.container]
image = "test:latest"
network = "host"
"#,
    );
    let err = validate(&command).unwrap_err();
    assert!(
        err.text().contains("shutdown_command is not allowed with [service.container]")
    );
}

#[test]
fn bridge_command_without_listen_placeholders_is_rejected() {
    // Neither placeholder: the interface complaint comes first.
    let cfg = merged(
        r#"
[[service]]
name = "opaque"
template = "command"
port = 8500
command = ["serve", "--host", "0.0.0.0", "--port", "8000"]
allocation.mode = "static"
allocation.reserve_gb = 1

[service.container]
image = "test:latest"
network = "bridge"
container_port = 8000
"#,
    );
    let err = validate(&cfg).unwrap_err();
    assert!(err.text().contains("must consume `${listen_host}`"));

    // Interface consumed, port hardcoded.
    let cfg = merged(
        r#"
[[service]]
name = "half"
template = "command"
port = 8500
command = ["serve", "--host", "${listen_host}", "--port", "8000"]
allocation.mode = "static"
allocation.reserve_gb = 1

[service.container]
image = "test:latest"
network = "bridge"
container_port = 8000
"#,
    );
    let err = validate(&cfg).unwrap_err();
    assert!(err.text().contains("must consume `${listen_port}`"));
}

#[test]
fn bridge_command_listen_placeholders_in_env_are_accepted() {
    // The endpoint may reach the workload through the environment rather
    // than argv; `{port}` remains a legal spelling of `{listen_port}`.
    let cfg = merged(
        r#"
[[service]]
name = "via-env"
template = "command"
port = 8500
command = ["serve"]
env = { BIND_HOST = "${listen_host}", BIND_PORT = "${port}" }
allocation.mode = "static"
allocation.reserve_gb = 1

[service.container]
image = "test:latest"
network = "bridge"
container_port = 8000
"#,
    );
    let ec = validate(&cfg).unwrap();
    assert!(ec[0].is_some());

    // The container's own env block counts too.
    let cfg = merged(
        r#"
[[service]]
name = "via-container-env"
template = "command"
port = 8501
command = ["serve"]
allocation.mode = "static"
allocation.reserve_gb = 1

[service.container]
image = "test:latest"
network = "bridge"
container_port = 8000
env = { BIND_HOST = "${listen_host}", BIND_PORT = "${listen_port}" }
"#,
    );
    assert!(validate(&cfg).unwrap()[0].is_some());
}

#[test]
fn host_network_command_needs_no_listen_placeholders() {
    // Host networking has no publication to bridge, so an opaque command
    // that binds the private port itself stays legal.
    let cfg = merged(
        r#"
[[service]]
name = "host-opaque"
template = "command"
port = 8500
command = ["serve", "--port", "${port}"]
allocation.mode = "static"
allocation.reserve_gb = 1

[service.container]
image = "test:latest"
network = "host"
"#,
    );
    assert!(validate(&cfg).unwrap()[0].is_some());
}

#[test]
fn native_service_has_no_container() {
    let cfg = merged(
        r#"
[[service]]
name = "native"
template = "command"
port = 8500
command = ["/bin/true"]
allocation.mode = "static"
allocation.reserve_gb = 1
"#,
    );
    let ec = validate(&cfg).unwrap();
    assert!(ec[0].is_none());
}

#[test]
fn every_container_rule_has_its_own_message() {
    let cases = [
        ("image = \"\"", "container.image must not be empty"),
        (
            "image = \"i\"\nnetwork = \"overlay\"",
            "container.network `overlay` is invalid (expected `bridge` or `host`)",
        ),
        (
            "image = \"i\"\nipc = \"none\"",
            "container.ipc `none` is invalid (expected `private` or `host`)",
        ),
        (
            "image = \"i\"\nnetwork = \"host\"\ncontainer_port = 8000",
            "container.container_port is not allowed with host networking",
        ),
        (
            "image = \"i\"\nnetwork = \"host\"\nmounts = [{ source = \"/a\", target = \"b\" }]",
            "container.mounts[0].target must be an absolute path (got `b`)",
        ),
        (
            "image = \"i\"\nnetwork = \"host\"\nmounts = [{ source = \"/a\", target = \"/b\", selinux = \"x\" }]",
            "container.mounts[0].selinux `x` is invalid (expected `z` or `Z`)",
        ),
        (
            "image = \"i\"\nnetwork = \"host\"\nmounts = [{ source = \"/a\", target = \"/b\" }, { source = \"/c\", target = \"/b\" }]",
            "container.mounts has duplicate target `/b` (first at index 0, duplicate at 1)",
        ),
        (
            "image = \"i\"\ncontainer_port = 80\nextra_publications = [{ host_port = 1, container_port = 2, protocol = \"sctp\" }]",
            "container.extra_publications[0].protocol `sctp` is invalid (expected `tcp` or `udp`)",
        ),
        (
            "image = \"i\"\ncontainer_port = 80\nextra_publications = [{ host_port = 1, container_port = 2, host_ip = \" \" }]",
            "container.extra_publications[0].host_ip is empty, which publishes on every interface",
        ),
        (
            "image = \"i\"\nnetwork = \"host\"\ngpu_device = \"${id}/${id}\"",
            "container.gpu_device must contain exactly one `${id}` placeholder (got 2 in `${id}/${id}`)",
        ),
        (
            "image = \"i\"\nnetwork = \"host\"\nenv_passthrough = [\"A\", \"B=1\"]",
            "container.env_passthrough[1] must be a variable name, not `NAME=value`",
        ),
        (
            "image = \"i\"\nnetwork = \"host\"\nenv_passthrough = [\" \"]",
            "container.env_passthrough[0] is empty",
        ),
    ];
    for (block, message) in cases {
        let cfg = merged(&format!(
            "[[service]]\nname = \"s\"\ntemplate = \"llama-cpp\"\n[service.container]\n{block}\n"
        ));
        let err = validate(&cfg).unwrap_err().text();
        assert!(
            err.starts_with(&format!("<config>: service s: {message}")),
            "{block}: {err}"
        );
    }
}

#[test]
fn an_accepted_container_carries_what_was_written() {
    let cfg = merged(
        r#"
[[service]]
name = "s"
template = "llama-cpp"

[service.container]
runtime = "podman"
image = "i:1"
network = "host"
ipc = "host"
gpu_device = "nvidia.com/gpu=${id}"
mounts = [{ source = "/a", target = "/b", read_only = true }]
env = { K = "v" }
env_passthrough = ["TOKEN"]
labels = { team = "x" }
"#,
    );
    let ct = validate(&cfg).unwrap().remove(0).unwrap();
    assert_eq!(ct.runtime, ContainerRuntime::Podman);
    assert_eq!(ct.image, "i:1");
    assert_eq!(ct.gpu_device.as_deref(), Some("nvidia.com/gpu=${id}"));
    assert_eq!(ct.mounts.len(), 1);
    assert!(ct.mounts[0].read_only);
    assert_eq!(ct.env.get("K").map(String::as_str), Some("v"));
    assert_eq!(ct.env_passthrough, vec!["TOKEN".to_string()]);
    assert_eq!(ct.labels.get("team").map(String::as_str), Some("x"));
}
