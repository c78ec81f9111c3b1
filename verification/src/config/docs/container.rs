//! The tables of a containerised service.

use crate::config::docs::{section, Row, SectionDoc, Shown, Words};
use vstd::prelude::*;

verus! {

/// The fields under "Container workloads".
pub const CONTAINER: [Row; 14] = [
    (
        "runtime",
        "string",
        (Shown::Plain, "`docker`", 0),
        ("Container runtime to drive. One of ", Words::Runtimes, ""),
    ),
    (
        "runtime_executable",
        "path",
        (Shown::Plain, "the runtime name", 0),
        ("Absolute path to the runtime binary. Set this when the binary isn't on the daemon's `$PATH` (e.g. a Nix store path). The value is recorded in the launch intent, so a container stays reconcilable across a runtime change", Words::Nothing, ""),
    ),
    (
        "image",
        "string",
        (Shown::Plain, "*required*", 0),
        ("Image reference to run, e.g. `vllm/vllm-openai:v0.26.0`. Must already be in the runtime's local store: ananke neither pulls nor builds, and a missing image fails the start with the runtime's own error", Words::Nothing, ""),
    ),
    (
        "entrypoint",
        "string",
        (Shown::Plain, "the image's own", 0),
        ("Replaces the image ENTRYPOINT. Unset, the image's own applies — including for `llama-cpp` services, whose `llama_server` is a host-side path and is not used inside the container", Words::Nothing, ""),
    ),
    (
        "workdir",
        "path",
        (Shown::Plain, "the image's own", 0),
        ("Working directory inside the container", Words::Nothing, ""),
    ),
    (
        "network",
        "string",
        (Shown::Plain, "`bridge`", 0),
        ("Network mode, one of ", Words::Networks, ". See [Networking](#networking) for what each resolves the service endpoint to"),
    ),
    (
        "container_port",
        "u16",
        (Shown::Plain, "*required in bridge mode*", 0),
        ("Port the workload binds inside the container. ananke publishes `127.0.0.1:<private_port>:<container_port>`. Rejected as meaningless under host networking", Words::Nothing, ""),
    ),
    (
        "ipc",
        "string",
        (Shown::Plain, "`private`", 0),
        ("IPC namespace, one of ", Words::IpcModes, ". `host` shares the host `/dev/shm`, which vLLM and other multi-worker runtimes need"),
    ),
    (
        "gpu_device",
        "string",
        (Shown::Plain, "none", 0),
        ("CDI device template expanded once per GPU ananke's placement picked, e.g. `nvidia.com/gpu={id}`. Must contain `{id}` exactly once. Unset means no GPU is injected — there is no `/dev/nvidia*` fallback", Words::Nothing, ""),
    ),
    (
        "env",
        "table",
        (Shown::Plain, "none", 0),
        ("Explicit environment for the container, merged over the service's own `env`. Container services never inherit the daemon's environment: `env_inherit` governs host processes only", Words::Nothing, ""),
    ),
    (
        "env_passthrough",
        "array of string",
        (Shown::Plain, "none", 0),
        ("Names of host environment variables forwarded into the container by name, e.g. `[\"HF_TOKEN\"]`. Values are read from the daemon's environment at launch and never rendered into the API, previews, or logs", Words::Nothing, ""),
    ),
    (
        "labels",
        "table",
        (Shown::Plain, "none", 0),
        ("User labels applied to the container. The whole `io.ananke.*` namespace is reserved for ananke's ownership labels and rejected here", Words::Nothing, ""),
    ),
    (
        "mounts",
        "array of table",
        (Shown::Plain, "none", 0),
        ("Bind mounts (see [Mounts](#mounts))", Words::Nothing, ""),
    ),
    (
        "extra_publications",
        "array of table",
        (Shown::Plain, "none", 0),
        ("Port publications beyond the service endpoint (see [Extra publications](#extra-publications)). Bridge mode only", Words::Nothing, ""),
    ),
];

/// The fields under "Mounts".
pub const CONTAINER_MOUNTS: [Row; 4] = [
    (
        "source",
        "path",
        (Shown::Plain, "*required*", 0),
        ("Absolute host path. Must exist when the container is created", Words::Nothing, ""),
    ),
    (
        "target",
        "path",
        (Shown::Plain, "*required*", 0),
        ("Absolute container path. Two mounts may not share a target", Words::Nothing, ""),
    ),
    (
        "read_only",
        "bool",
        (Shown::Plain, "`false`", 0),
        ("Mount read-only", Words::Nothing, ""),
    ),
    (
        "selinux",
        "string",
        (Shown::Plain, "none", 0),
        ("SELinux relabel policy, one of ", Words::Relabels, " (`z` is shared, `Z` is private). Omit on systems without SELinux"),
    ),
];

/// The fields under "Extra publications".
pub const CONTAINER_EXTRA_PUBLICATIONS: [Row; 4] = [
    (
        "host_ip",
        "string",
        (Shown::Plain, "`127.0.0.1`", 0),
        ("Host address to bind. The default keeps the port off the network, matching the service endpoint's own publication", Words::Nothing, ""),
    ),
    (
        "host_port",
        "u16",
        (Shown::Plain, "*required*", 0),
        ("Host-side port", Words::Nothing, ""),
    ),
    (
        "container_port",
        "u16",
        (Shown::Plain, "*required*", 0),
        ("Container-side port", Words::Nothing, ""),
    ),
    (
        "protocol",
        "string",
        (Shown::Plain, "`tcp`", 0),
        ("One of ", Words::Protocols, ""),
    ),
];

/// Whether `r` holds these sections.
pub open spec fn is_listed(r: Seq<SectionDoc>) -> bool {
    &&& r.len() == 3
    &&& crate::config::docs::shows_section(r[0], "container"@, "Container workloads"@, CONTAINER@)
    &&& crate::config::docs::shows_section(r[1], "container_mounts"@, "Mounts"@, CONTAINER_MOUNTS@)
    &&& crate::config::docs::shows_section(r[2], "container_extra_publications"@, "Extra publications"@, CONTAINER_EXTRA_PUBLICATIONS@)
}

/// The container field reference, mounts and publications.
pub fn sections() -> (r: Vec<SectionDoc>)
    ensures
        is_listed(r@),
{
    let mut r: Vec<SectionDoc> = Vec::new();
    r.push(section("container", "Container workloads", &CONTAINER));
    r.push(section("container_mounts", "Mounts", &CONTAINER_MOUNTS));
    r.push(section("container_extra_publications", "Extra publications", &CONTAINER_EXTRA_PUBLICATIONS));
    r
}

proof fn lemma_container_filled()
    ensures
        CONTAINER@.len() > 0,
        crate::config::docs::all_filled(CONTAINER@),
{
    reveal_strlit("runtime");
    reveal_strlit("string");
    reveal_strlit("`docker`");
    reveal_strlit("runtime_executable");
    reveal_strlit("path");
    reveal_strlit("the runtime name");
    reveal_strlit("image");
    reveal_strlit("*required*");
    reveal_strlit("entrypoint");
    reveal_strlit("the image's own");
    reveal_strlit("workdir");
    reveal_strlit("network");
    reveal_strlit("`bridge`");
    reveal_strlit("container_port");
    reveal_strlit("u16");
    reveal_strlit("*required in bridge mode*");
    reveal_strlit("ipc");
    reveal_strlit("`private`");
    reveal_strlit("gpu_device");
    reveal_strlit("none");
    reveal_strlit("env");
    reveal_strlit("table");
    reveal_strlit("env_passthrough");
    reveal_strlit("array of string");
    reveal_strlit("labels");
    reveal_strlit("mounts");
    reveal_strlit("array of table");
    reveal_strlit("extra_publications");
}

proof fn lemma_container_mounts_filled()
    ensures
        CONTAINER_MOUNTS@.len() > 0,
        crate::config::docs::all_filled(CONTAINER_MOUNTS@),
{
    reveal_strlit("source");
    reveal_strlit("path");
    reveal_strlit("*required*");
    reveal_strlit("target");
    reveal_strlit("read_only");
    reveal_strlit("bool");
    reveal_strlit("`false`");
    reveal_strlit("selinux");
    reveal_strlit("string");
    reveal_strlit("none");
}

proof fn lemma_container_extra_publications_filled()
    ensures
        CONTAINER_EXTRA_PUBLICATIONS@.len() > 0,
        crate::config::docs::all_filled(CONTAINER_EXTRA_PUBLICATIONS@),
{
    reveal_strlit("host_ip");
    reveal_strlit("string");
    reveal_strlit("`127.0.0.1`");
    reveal_strlit("host_port");
    reveal_strlit("u16");
    reveal_strlit("*required*");
    reveal_strlit("container_port");
    reveal_strlit("protocol");
    reveal_strlit("`tcp`");
}

/// These sections are complete.
pub proof fn lemma_complete(r: Seq<SectionDoc>)
    requires
        is_listed(r),
    ensures
        forall|i: int| 0 <= i < r.len() ==> crate::config::docs::is_complete(#[trigger] r[i]),
{
    reveal_strlit("container");
    reveal_strlit("Container workloads");
    lemma_container_filled();
    crate::config::docs::lemma_section_complete(r[0], "container"@, "Container workloads"@, CONTAINER@);
    reveal_strlit("container_mounts");
    reveal_strlit("Mounts");
    lemma_container_mounts_filled();
    crate::config::docs::lemma_section_complete(r[1], "container_mounts"@, "Mounts"@, CONTAINER_MOUNTS@);
    reveal_strlit("container_extra_publications");
    reveal_strlit("Extra publications");
    lemma_container_extra_publications_filled();
    crate::config::docs::lemma_section_complete(r[2], "container_extra_publications"@, "Extra publications"@, CONTAINER_EXTRA_PUBLICATIONS@);
}

} // verus!
