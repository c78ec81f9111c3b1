//! The tables of the daemon, the OpenAI API, the shared defaults and the
//! devices.

use crate::config::docs::{
    section, DEFAULT_IDLE_TIMEOUT_MS, DEFAULT_MAX_REQUEST_DURATION_MS,
    DEFAULT_OPENAI_MAX_BODY_MB, DEFAULT_PRIVATE_PORT_END, DEFAULT_PRIVATE_PORT_START,
    DEFAULT_SERVICE_PRIORITY, DEFAULT_START_QUEUE_DEPTH, MANAGEMENT_LISTEN, OPENAI_LISTEN, Row,
    SectionDoc, Shown, Words,
};
use vstd::prelude::*;

verus! {

/// The fields under "Daemon Settings".
pub const DAEMON: [Row; 8] = [
    (
        "management_listen",
        "string",
        (Shown::Quoted, MANAGEMENT_LISTEN, 0),
        ("Bind address for the management API. Non-loopback requires `allow_external_management = true`", Words::Nothing, ""),
    ),
    (
        "allow_external_management",
        "bool",
        (Shown::Plain, "`false`", 0),
        ("Must be `true` when `management_listen` is non-loopback", Words::Nothing, ""),
    ),
    (
        "allow_external_services",
        "bool",
        (Shown::Plain, "`false`", 0),
        ("Bind per-service reverse proxies on `0.0.0.0` instead of `127.0.0.1`. Controls only the per-service proxies, not the OpenAI multiplexer (which honours `openai_api.listen`)", Words::Nothing, ""),
    ),
    (
        "data_dir",
        "path",
        (Shown::Plain, "`$XDG_DATA_HOME/ananke` (or `~/.local/share/ananke`)", 0),
        ("Directory for the SQLite database and runtime state", Words::Nothing, ""),
    ),
    (
        "shutdown_timeout",
        "duration string",
        (Shown::Plain, "`120s`", 0),
        ("Max time to wait for services to drain on daemon shutdown", Words::Nothing, ""),
    ),
    (
        "private_port_start",
        "u16",
        (Shown::Number, "", DEFAULT_PRIVATE_PORT_START as u64),
        ("Inclusive lower bound of the loopback port range handed to llama-server children for their private listener", Words::Nothing, ""),
    ),
    (
        "private_port_end",
        "u16",
        (Shown::Number, "", DEFAULT_PRIVATE_PORT_END as u64),
        ("Inclusive upper bound of the private-listener port range. Override when another process occupies the default window", Words::Nothing, ""),
    ),
    (
        "llama_server",
        "path",
        (Shown::Plain, "`llama-server` (from `$PATH`)", 0),
        ("Default llama-server executable for every llama-cpp service. Overridable per-service", Words::Nothing, ""),
    ),
];

/// The fields under "OpenAI API Settings".
pub const OPENAI_API: [Row; 5] = [
    (
        "listen",
        "string",
        (Shown::Quoted, OPENAI_LISTEN, 0),
        ("Bind address for the OpenAI-compatible API", Words::Nothing, ""),
    ),
    (
        "enabled",
        "bool",
        (Shown::Plain, "`true`", 0),
        ("Set to `false` to disable the OpenAI API entirely", Words::Nothing, ""),
    ),
    (
        "max_request_duration",
        "duration string",
        (Shown::Duration, "", DEFAULT_MAX_REQUEST_DURATION_MS),
        ("Max wall-clock duration per proxied request", Words::Nothing, ""),
    ),
    (
        "allow_cors",
        "bool",
        (Shown::Plain, "`true`", 0),
        ("Allow cross-origin requests from browsers. Set to `false` to block browser-based access", Words::Nothing, ""),
    ),
    (
        "max_body_mb",
        "u64",
        (Shown::Number, "", DEFAULT_OPENAI_MAX_BODY_MB),
        ("Max request body size in MiB. Raise for large or many images (vision payloads are base64-encoded)", Words::Nothing, ""),
    ),
];

/// The fields under "Global Defaults".
pub const DEFAULTS: [Row; 3] = [
    (
        "idle_timeout",
        "duration string",
        (Shown::Duration, "", DEFAULT_IDLE_TIMEOUT_MS),
        ("Default idle timeout for on-demand services", Words::Nothing, ""),
    ),
    (
        "priority",
        "u8",
        (Shown::Number, "", DEFAULT_SERVICE_PRIORITY as u64),
        ("Default eviction priority (higher wins eviction contests)", Words::Nothing, ""),
    ),
    (
        "start_queue_depth",
        "u32",
        (Shown::Number, "", DEFAULT_START_QUEUE_DEPTH as u64),
        ("Default concurrency cap on pending start requests waiting for the same supervisor before they are rejected with `QueueFull`", Words::Nothing, ""),
    ),
];

/// The fields under "Device Configuration".
pub const DEVICES: [Row; 5] = [
    (
        "gpu_ids",
        "array of u32",
        (Shown::Plain, "all visible GPUs", 0),
        ("Only probe these GPUs", Words::Nothing, ""),
    ),
    (
        "default_gpu_reserved_mb",
        "u64",
        (Shown::Plain, "`0`", 0),
        ("VRAM (MiB) kept free on every GPU that lacks a `gpu_reserved_mb` entry", Words::Nothing, ""),
    ),
    (
        "gpu_reserved_mb",
        "map string → u64",
        (Shown::Plain, "empty", 0),
        ("Per-GPU VRAM reserve (MiB), keyed by GPU id string", Words::Nothing, ""),
    ),
    (
        "cpu.enabled",
        "bool",
        (Shown::Plain, "`true`", 0),
        ("Allow CPU placement for services", Words::Nothing, ""),
    ),
    (
        "cpu.reserved_gb",
        "u64",
        (Shown::Plain, "`0`", 0),
        ("Host RAM (GiB) the daemon keeps free. Bounds how much expert weight a hybrid MoE service may offload to the CPU; a placement that would exceed it is rejected", Words::Nothing, ""),
    ),
];

/// Whether `r` holds these sections.
pub open spec fn is_listed(r: Seq<SectionDoc>) -> bool {
    &&& r.len() == 4
    &&& crate::config::docs::shows_section(r[0], "daemon"@, "Daemon Settings"@, DAEMON@)
    &&& crate::config::docs::shows_section(r[1], "openai_api"@, "OpenAI API Settings"@, OPENAI_API@)
    &&& crate::config::docs::shows_section(r[2], "defaults"@, "Global Defaults"@, DEFAULTS@)
    &&& crate::config::docs::shows_section(r[3], "devices"@, "Device Configuration"@, DEVICES@)
}

/// The daemon, OpenAI API, defaults and devices sections.
pub fn sections() -> (r: Vec<SectionDoc>)
    ensures
        is_listed(r@),
{
    let mut r: Vec<SectionDoc> = Vec::new();
    r.push(section("daemon", "Daemon Settings", &DAEMON));
    r.push(section("openai_api", "OpenAI API Settings", &OPENAI_API));
    r.push(section("defaults", "Global Defaults", &DEFAULTS));
    r.push(section("devices", "Device Configuration", &DEVICES));
    r
}

proof fn lemma_daemon_filled()
    ensures
        DAEMON@.len() > 0,
        crate::config::docs::all_filled(DAEMON@),
{
    reveal_strlit("management_listen");
    reveal_strlit("string");
    reveal_strlit("allow_external_management");
    reveal_strlit("bool");
    reveal_strlit("`false`");
    reveal_strlit("allow_external_services");
    reveal_strlit("data_dir");
    reveal_strlit("path");
    reveal_strlit("`$XDG_DATA_HOME/ananke` (or `~/.local/share/ananke`)");
    reveal_strlit("shutdown_timeout");
    reveal_strlit("duration string");
    reveal_strlit("`120s`");
    reveal_strlit("private_port_start");
    reveal_strlit("u16");
    reveal_strlit("private_port_end");
    reveal_strlit("llama_server");
    reveal_strlit("`llama-server` (from `$PATH`)");
}

proof fn lemma_openai_api_filled()
    ensures
        OPENAI_API@.len() > 0,
        crate::config::docs::all_filled(OPENAI_API@),
{
    reveal_strlit("listen");
    reveal_strlit("string");
    reveal_strlit("enabled");
    reveal_strlit("bool");
    reveal_strlit("`true`");
    reveal_strlit("max_request_duration");
    reveal_strlit("duration string");
    reveal_strlit("allow_cors");
    reveal_strlit("max_body_mb");
    reveal_strlit("u64");
}

proof fn lemma_defaults_filled()
    ensures
        DEFAULTS@.len() > 0,
        crate::config::docs::all_filled(DEFAULTS@),
{
    reveal_strlit("idle_timeout");
    reveal_strlit("duration string");
    reveal_strlit("priority");
    reveal_strlit("u8");
    reveal_strlit("start_queue_depth");
    reveal_strlit("u32");
}

proof fn lemma_devices_filled()
    ensures
        DEVICES@.len() > 0,
        crate::config::docs::all_filled(DEVICES@),
{
    reveal_strlit("gpu_ids");
    reveal_strlit("array of u32");
    reveal_strlit("all visible GPUs");
    reveal_strlit("default_gpu_reserved_mb");
    reveal_strlit("u64");
    reveal_strlit("`0`");
    reveal_strlit("gpu_reserved_mb");
    reveal_strlit("map string → u64");
    reveal_strlit("empty");
    reveal_strlit("cpu.enabled");
    reveal_strlit("bool");
    reveal_strlit("`true`");
    reveal_strlit("cpu.reserved_gb");
}

/// These sections are complete.
pub proof fn lemma_complete(r: Seq<SectionDoc>)
    requires
        is_listed(r),
    ensures
        forall|i: int| 0 <= i < r.len() ==> crate::config::docs::is_complete(#[trigger] r[i]),
{
    reveal_strlit("daemon");
    reveal_strlit("Daemon Settings");
    lemma_daemon_filled();
    crate::config::docs::lemma_section_complete(r[0], "daemon"@, "Daemon Settings"@, DAEMON@);
    reveal_strlit("openai_api");
    reveal_strlit("OpenAI API Settings");
    lemma_openai_api_filled();
    crate::config::docs::lemma_section_complete(r[1], "openai_api"@, "OpenAI API Settings"@, OPENAI_API@);
    reveal_strlit("defaults");
    reveal_strlit("Global Defaults");
    lemma_defaults_filled();
    crate::config::docs::lemma_section_complete(r[2], "defaults"@, "Global Defaults"@, DEFAULTS@);
    reveal_strlit("devices");
    reveal_strlit("Device Configuration");
    lemma_devices_filled();
    crate::config::docs::lemma_section_complete(r[3], "devices"@, "Device Configuration"@, DEVICES@);
}

} // verus!
