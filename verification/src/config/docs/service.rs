//! The tables that every service has, whatever its template.

use crate::config::docs::{
    section, DEFAULT_DRAIN_TIMEOUT_MS, DEFAULT_EXTENDED_STREAM_DRAIN_MS,
    DEFAULT_HEALTH_PROBE_INTERVAL_MS, DEFAULT_HEALTH_TIMEOUT_MS, DEFAULT_IDLE_TIMEOUT_MS,
    DEFAULT_MAX_REQUEST_DURATION_MS, DEFAULT_MIN_BORROWER_RUNTIME_MS, DEFAULT_SERVICE_PRIORITY,
    DEFAULT_START_QUEUE_DEPTH, Row, SectionDoc, Shown, Words,
};
use vstd::prelude::*;

verus! {

/// The fields under "Common Fields".
pub const SERVICE_COMMON: [Row; 18] = [
    (
        "name",
        "string",
        (Shown::Plain, "*required*", 0),
        ("Unique service identifier", Words::Nothing, ""),
    ),
    (
        "template",
        "string",
        (Shown::Plain, "*required*", 0),
        ("`\"llama-cpp\"` or `\"command\"`", Words::Nothing, ""),
    ),
    (
        "port",
        "u16",
        (Shown::Plain, "*required*", 0),
        ("Public-facing port for the service's reverse proxy", Words::Nothing, ""),
    ),
    (
        "lifecycle",
        "string",
        (Shown::Plain, "`\"on_demand\"`", 0),
        ("`\"on_demand\"` or `\"persistent\"` (see [Lifecycle](#lifecycle))", Words::Nothing, ""),
    ),
    (
        "priority",
        "u8",
        (Shown::SharedNumber, "", DEFAULT_SERVICE_PRIORITY as u64),
        ("Eviction priority; higher wins eviction contests", Words::Nothing, ""),
    ),
    (
        "idle_timeout",
        "duration string",
        (Shown::SharedDuration, "", DEFAULT_IDLE_TIMEOUT_MS),
        ("Idle timeout for on-demand services", Words::Nothing, ""),
    ),
    (
        "description",
        "string",
        (Shown::Plain, "none", 0),
        ("Human-readable description exposed through `/v1/models` and `/api/services`", Words::Nothing, ""),
    ),
    (
        "modality",
        "string",
        (Shown::Plain, "`\"chat\"`", 0),
        ("`\"chat\"` or `\"embedding\"` (see [Embedding Services](#embedding-services)). On `llama-cpp` services, `\"embedding\"` also passes `--embeddings` to llama-server. Any other string is a hard config error", Words::Nothing, ""),
    ),
    (
        "extra_args",
        "array of string",
        (Shown::Plain, "none", 0),
        ("Extra argv appended to the service's launch command", Words::Nothing, ""),
    ),
    (
        "extra_args_append",
        "array of string",
        (Shown::Plain, "none", 0),
        ("Extra argv appended to the inherited list (use with `extends`; concatenated with parent's list)", Words::Nothing, ""),
    ),
    (
        "env",
        "map string → string",
        (Shown::Plain, "none", 0),
        ("Environment variables set on the spawned process. Accepts `{port}`, `{gpu_ids}`, `{reserve_mb}`, `{model}`, `{name}` placeholders", Words::Nothing, ""),
    ),
    (
        "env_inherit",
        "bool",
        (Shown::Plain, "`true`", 0),
        ("Whether the child process inherits the daemon's environment (`$PATH`, `$HOME`, locale, …). Per-service `env` entries override individual inherited keys. Set `false` to start with a clean environment containing only the variables in `env` plus `CUDA_VISIBLE_DEVICES`", Words::Nothing, ""),
    ),
    (
        "drain_timeout",
        "duration string",
        (Shown::Duration, "", DEFAULT_DRAIN_TIMEOUT_MS),
        ("Drain timeout before the supervisor escalates to SIGKILL", Words::Nothing, ""),
    ),
    (
        "extended_stream_drain",
        "duration string",
        (Shown::Duration, "", DEFAULT_EXTENDED_STREAM_DRAIN_MS),
        ("Extra grace granted to in-flight streaming requests during drain", Words::Nothing, ""),
    ),
    (
        "max_request_duration",
        "duration string",
        (Shown::Duration, "", DEFAULT_MAX_REQUEST_DURATION_MS),
        ("Cap on wall-clock duration of a single proxied request", Words::Nothing, ""),
    ),
    (
        "start_queue_depth",
        "u32",
        (Shown::SharedNumber, "", DEFAULT_START_QUEUE_DEPTH as u64),
        ("Concurrency cap on pending start requests before `QueueFull` rejection", Words::Nothing, ""),
    ),
    (
        "extends",
        "string",
        (Shown::Plain, "none", 0),
        ("Name of a parent service to inherit from. See [Service Inheritance](#service-inheritance)", Words::Nothing, ""),
    ),
    (
        "migrate_from",
        "string",
        (Shown::Plain, "none", 0),
        ("Old service name to preserve database history from. See [Service Migration](#service-migration)", Words::Nothing, ""),
    ),
];

/// The fields under "Placement".
pub const SERVICE_DEVICES: [Row; 6] = [
    (
        "placement",
        "string",
        (Shown::Plain, "`\"gpu-only\"`", 0),
        ("Placement policy (see below)", Words::Nothing, ""),
    ),
    (
        "gpu_allow",
        "array of u32",
        (Shown::Plain, "all `[devices]` GPUs", 0),
        ("Restrict the service to these GPU ids", Words::Nothing, ""),
    ),
    (
        "gpu_headroom_mb",
        "u64",
        (Shown::Plain, "`0`", 0),
        ("Extra per-GPU VRAM (MiB) to keep free when placing *this* service, added on top of the global `[devices]` reserve. Lets a single model be packed more conservatively without bypassing the estimator", Words::Nothing, ""),
    ),
    (
        "placement_override",
        "map string → u64",
        (Shown::Plain, "none", 0),
        ("Hand-pin VRAM (MiB) per device slot. Keys: `\"cpu\"` or `\"gpu:N\"`. Overrides the estimator's per-slot distribution. Must be non-empty if present; zero values and `cpu` keys under `gpu-only` are rejected", Words::Nothing, ""),
    ),
    (
        "split",
        "string",
        (Shown::Plain, "`\"layer\"`", 0),
        ("Multi-GPU split mode for llama.cpp services: ", Words::SplitModes, ". Maps to llama.cpp's `--split-mode`. See [Multi-GPU split modes](#multi-gpu-split-modes) for constraints"),
    ),
    (
        "tensor_split_weights",
        "array of f32",
        (Shown::Plain, "none", 0),
        ("Optional per-GPU weights for the `--tensor-split` ratio in sharded (`row`/`tensor`) modes. One positive weight per allowed GPU, in ascending GPU-id order. Unset gives an equal `1,1,...` split. Use this for heterogeneous GPUs (e.g. weight by relative memory bandwidth). Weights are meaningful to four decimal places; additional precision is rounded when converting to the integer `--tensor-split` ratio. See [Multi-GPU split modes](#multi-gpu-split-modes)", Words::Nothing, ""),
    ),
];

/// The fields under "Health Checks".
pub const SERVICE_HEALTH: [Row; 3] = [
    (
        "http",
        "string",
        (Shown::Plain, "`/v1/models`", 0),
        ("HTTP path to probe for readiness. Set to `\"\"` (empty string) to disable the health check entirely - the service transitions to Running immediately after spawn, with no readiness probe", Words::Nothing, ""),
    ),
    (
        "timeout",
        "duration string",
        (Shown::Duration, "", DEFAULT_HEALTH_TIMEOUT_MS),
        ("Per-probe timeout before a health check fails", Words::Nothing, ""),
    ),
    (
        "probe_interval",
        "duration string",
        (Shown::Duration, "", DEFAULT_HEALTH_PROBE_INTERVAL_MS),
        ("Cadence between health probes", Words::Nothing, ""),
    ),
];

/// The fields under "Resource Allocation".
pub const SERVICE_ALLOCATION: [Row; 5] = [
    (
        "mode",
        "string",
        (Shown::Plain, "*required* (command only)", 0),
        ("`\"static\"` or `\"dynamic\"`. Required on every `command` service. Optional on a `llama-cpp` one, where it replaces the estimator entirely — the only way to place a model whose architecture ananke does not recognise", Words::Nothing, ""),
    ),
    (
        "reserve_gb",
        "f32",
        (Shown::Plain, "none", 0),
        ("`static` only. Memory to reserve, in GiB — host RAM for a cpu-only service, VRAM otherwise. Required for `static`. Accepted as `vram_gb` for pre-rename configs", Words::Nothing, ""),
    ),
    (
        "min_reserve_gb",
        "f32",
        (Shown::Plain, "none", 0),
        ("`dynamic` only. Minimum reservation in GiB. Required for `dynamic`. Accepted as `min_vram_gb` for pre-rename configs", Words::Nothing, ""),
    ),
    (
        "max_reserve_gb",
        "f32",
        (Shown::Plain, "none", 0),
        ("`dynamic` only. Maximum reservation in GiB. Required for `dynamic`; must be > `min_reserve_gb`. Accepted as `max_vram_gb` for pre-rename configs", Words::Nothing, ""),
    ),
    (
        "min_borrower_runtime",
        "duration string",
        (Shown::Duration, "", DEFAULT_MIN_BORROWER_RUNTIME_MS),
        ("`dynamic` only. Balloon resolver grace period: minimum runtime a borrower must accumulate before it may be fast-killed", Words::Nothing, ""),
    ),
];

/// The fields under "Request Filters".
pub const SERVICE_FILTERS: [Row; 2] = [
    (
        "strip_params",
        "array of string",
        (Shown::Plain, "none", 0),
        ("JSON keys to remove from the request body before forwarding", Words::Nothing, ""),
    ),
    (
        "set_params",
        "map string → toml value",
        (Shown::Plain, "none", 0),
        ("JSON key/value pairs to set on the request body before forwarding", Words::Nothing, ""),
    ),
];

/// The fields under "Tracking".
pub const SERVICE_TRACKING: [Row; 1] = [
    (
        "cgroup_parent",
        "string",
        (Shown::Plain, "none", 0),
        ("Cgroup v2 path under which the service's actual workload pids live. Used by services whose workload runs in a container and is therefore reparented out of the daemon's process tree, so descendant-pid attribution can't reach it. Pids whose `/proc/<pid>/cgroup` path equals this value or sits inside its subtree are summed into the service's observed peak. Must be an absolute cgroup path (no trailing slash)", Words::Nothing, ""),
    ),
];

/// Whether `r` holds these sections.
pub open spec fn is_listed(r: Seq<SectionDoc>) -> bool {
    &&& r.len() == 6
    &&& crate::config::docs::shows_section(r[0], "service_common"@, "Common Fields"@, SERVICE_COMMON@)
    &&& crate::config::docs::shows_section(r[1], "service_devices"@, "Placement"@, SERVICE_DEVICES@)
    &&& crate::config::docs::shows_section(r[2], "service_health"@, "Health Checks"@, SERVICE_HEALTH@)
    &&& crate::config::docs::shows_section(r[3], "service_allocation"@, "Resource Allocation"@, SERVICE_ALLOCATION@)
    &&& crate::config::docs::shows_section(r[4], "service_filters"@, "Request Filters"@, SERVICE_FILTERS@)
    &&& crate::config::docs::shows_section(r[5], "service_tracking"@, "Tracking"@, SERVICE_TRACKING@)
}

/// The sections shared by every service template.
pub fn sections() -> (r: Vec<SectionDoc>)
    ensures
        is_listed(r@),
{
    let mut r: Vec<SectionDoc> = Vec::new();
    r.push(section("service_common", "Common Fields", &SERVICE_COMMON));
    r.push(section("service_devices", "Placement", &SERVICE_DEVICES));
    r.push(section("service_health", "Health Checks", &SERVICE_HEALTH));
    r.push(section("service_allocation", "Resource Allocation", &SERVICE_ALLOCATION));
    r.push(section("service_filters", "Request Filters", &SERVICE_FILTERS));
    r.push(section("service_tracking", "Tracking", &SERVICE_TRACKING));
    r
}

proof fn lemma_service_common_filled()
    ensures
        SERVICE_COMMON@.len() > 0,
        crate::config::docs::all_filled(SERVICE_COMMON@),
{
    reveal_strlit("name");
    reveal_strlit("string");
    reveal_strlit("*required*");
    reveal_strlit("template");
    reveal_strlit("port");
    reveal_strlit("u16");
    reveal_strlit("lifecycle");
    reveal_strlit("`\"on_demand\"`");
    reveal_strlit("priority");
    reveal_strlit("u8");
    reveal_strlit("idle_timeout");
    reveal_strlit("duration string");
    reveal_strlit("description");
    reveal_strlit("none");
    reveal_strlit("modality");
    reveal_strlit("`\"chat\"`");
    reveal_strlit("extra_args");
    reveal_strlit("array of string");
    reveal_strlit("extra_args_append");
    reveal_strlit("env");
    reveal_strlit("map string → string");
    reveal_strlit("env_inherit");
    reveal_strlit("bool");
    reveal_strlit("`true`");
    reveal_strlit("drain_timeout");
    reveal_strlit("extended_stream_drain");
    reveal_strlit("max_request_duration");
    reveal_strlit("start_queue_depth");
    reveal_strlit("u32");
    reveal_strlit("extends");
    reveal_strlit("migrate_from");
}

proof fn lemma_service_devices_filled()
    ensures
        SERVICE_DEVICES@.len() > 0,
        crate::config::docs::all_filled(SERVICE_DEVICES@),
{
    reveal_strlit("placement");
    reveal_strlit("string");
    reveal_strlit("`\"gpu-only\"`");
    reveal_strlit("gpu_allow");
    reveal_strlit("array of u32");
    reveal_strlit("all `[devices]` GPUs");
    reveal_strlit("gpu_headroom_mb");
    reveal_strlit("u64");
    reveal_strlit("`0`");
    reveal_strlit("placement_override");
    reveal_strlit("map string → u64");
    reveal_strlit("none");
    reveal_strlit("split");
    reveal_strlit("`\"layer\"`");
    reveal_strlit("tensor_split_weights");
    reveal_strlit("array of f32");
}

proof fn lemma_service_health_filled()
    ensures
        SERVICE_HEALTH@.len() > 0,
        crate::config::docs::all_filled(SERVICE_HEALTH@),
{
    reveal_strlit("http");
    reveal_strlit("string");
    reveal_strlit("`/v1/models`");
    reveal_strlit("timeout");
    reveal_strlit("duration string");
    reveal_strlit("probe_interval");
}

proof fn lemma_service_allocation_filled()
    ensures
        SERVICE_ALLOCATION@.len() > 0,
        crate::config::docs::all_filled(SERVICE_ALLOCATION@),
{
    reveal_strlit("mode");
    reveal_strlit("string");
    reveal_strlit("*required* (command only)");
    reveal_strlit("reserve_gb");
    reveal_strlit("f32");
    reveal_strlit("none");
    reveal_strlit("min_reserve_gb");
    reveal_strlit("max_reserve_gb");
    reveal_strlit("min_borrower_runtime");
    reveal_strlit("duration string");
}

proof fn lemma_service_filters_filled()
    ensures
        SERVICE_FILTERS@.len() > 0,
        crate::config::docs::all_filled(SERVICE_FILTERS@),
{
    reveal_strlit("strip_params");
    reveal_strlit("array of string");
    reveal_strlit("none");
    reveal_strlit("set_params");
    reveal_strlit("map string → toml value");
}

proof fn lemma_service_tracking_filled()
    ensures
        SERVICE_TRACKING@.len() > 0,
        crate::config::docs::all_filled(SERVICE_TRACKING@),
{
    reveal_strlit("cgroup_parent");
    reveal_strlit("string");
    reveal_strlit("none");
}

/// These sections are complete.
pub proof fn lemma_complete(r: Seq<SectionDoc>)
    requires
        is_listed(r),
    ensures
        forall|i: int| 0 <= i < r.len() ==> crate::config::docs::is_complete(#[trigger] r[i]),
{
    reveal_strlit("service_common");
    reveal_strlit("Common Fields");
    lemma_service_common_filled();
    crate::config::docs::lemma_section_complete(r[0], "service_common"@, "Common Fields"@, SERVICE_COMMON@);
    reveal_strlit("service_devices");
    reveal_strlit("Placement");
    lemma_service_devices_filled();
    crate::config::docs::lemma_section_complete(r[1], "service_devices"@, "Placement"@, SERVICE_DEVICES@);
    reveal_strlit("service_health");
    reveal_strlit("Health Checks");
    lemma_service_health_filled();
    crate::config::docs::lemma_section_complete(r[2], "service_health"@, "Health Checks"@, SERVICE_HEALTH@);
    reveal_strlit("service_allocation");
    reveal_strlit("Resource Allocation");
    lemma_service_allocation_filled();
    crate::config::docs::lemma_section_complete(r[3], "service_allocation"@, "Resource Allocation"@, SERVICE_ALLOCATION@);
    reveal_strlit("service_filters");
    reveal_strlit("Request Filters");
    lemma_service_filters_filled();
    crate::config::docs::lemma_section_complete(r[4], "service_filters"@, "Request Filters"@, SERVICE_FILTERS@);
    reveal_strlit("service_tracking");
    reveal_strlit("Tracking");
    lemma_service_tracking_filled();
    crate::config::docs::lemma_section_complete(r[5], "service_tracking"@, "Tracking"@, SERVICE_TRACKING@);
}

} // verus!
