//! Container settings: runtime, image, networking, mounts, device templates
//! and labels.

use crate::config::error::{fail, ExpectedError};
use crate::text;
use crate::text_map::TextMap;
use vstd::prelude::*;
use vstd::string::*;

verus! {

/// Labels that start with this are the daemon's own.
pub const RESERVED_LABEL_PREFIX: &'static str = "io.ananke.";

/// Placeholder that a device template expands once per selected GPU.
pub const DEVICE_PLACEHOLDER: &'static str = "${id}";

/// The `[service.container]` block as written. A service that has one runs
/// inside a container rather than as a native host process.
#[derive(Debug)]
pub struct RawContainerConfig {
    /// Container runtime: `"docker"` (default) or `"podman"`.
    pub runtime: Option<String>,
    /// Path of the runtime's executable, where it is not on `$PATH`.
    pub runtime_executable: Option<String>,
    /// Image reference; required.
    pub image: Option<String>,
    /// Entrypoint that replaces the image's.
    pub entrypoint: Option<String>,
    /// Working directory inside the container.
    pub workdir: Option<String>,
    /// Network mode: `"bridge"` (default) or `"host"`.
    pub network: Option<String>,
    /// Container-side port; required for bridge networking, meaningless and
    /// refused under host networking.
    pub container_port: Option<u16>,
    /// IPC namespace: `"private"` (default) or `"host"`.
    pub ipc: Option<String>,
    /// CDI device template, with one `${id}` for the GPU's id.
    pub gpu_device: Option<String>,
    /// Bind mounts.
    pub mounts: Option<Vec<RawContainerMount>>,
    /// Ports published beside the service endpoint; bridge mode only.
    pub extra_publications: Option<Vec<RawPortPublication>>,
    /// Variables set inside the container.
    pub env: Option<TextMap<String>>,
    /// Names of variables handed through from the host.
    pub env_passthrough: Option<Vec<String>>,
    /// Labels set on the container.
    pub labels: Option<TextMap<String>>,
}

/// A bind mount as written.
#[derive(Debug)]
pub struct RawContainerMount {
    /// Absolute host path.
    pub source: String,
    /// Absolute container path.
    pub target: String,
    /// Whether the container may not write to it.
    pub read_only: bool,
    /// SELinux relabelling: `"z"` or `"Z"`.
    pub selinux: Option<String>,
}

/// A published port as written.
#[derive(Debug)]
pub struct RawPortPublication {
    /// Host address to bind.
    pub host_ip: String,
    /// Host port.
    pub host_port: u16,
    /// Container port.
    pub container_port: u16,
    /// `"tcp"` or `"udp"`.
    pub protocol: String,
}

/// Which container runtime runs the service.
#[derive(Debug, Clone, Copy, PartialEq, Eq, Structural)]
pub enum ContainerRuntime {
    Docker,
    Podman,
}

/// How the container is attached to the network.
#[derive(Debug, Clone, Copy, PartialEq, Eq, Structural)]
pub enum ContainerNetwork {
    Bridge,
    Host,
}

/// Which IPC namespace the container uses.
#[derive(Debug, Clone, Copy, PartialEq, Eq, Structural)]
pub enum ContainerIpc {
    Private,
    Host,
}

/// A validated bind mount.
#[derive(Debug)]
pub struct ContainerMount {
    pub source: String,
    pub target: String,
    pub read_only: bool,
    pub selinux: Option<String>,
}

/// A validated port publication.
#[derive(Debug)]
pub struct ContainerPortPublication {
    pub host_ip: String,
    pub host_port: u16,
    pub container_port: u16,
    pub protocol: String,
}

/// Validated container settings.
#[derive(Debug)]
pub struct ContainerConfig {
    pub runtime: ContainerRuntime,
    pub runtime_executable: Option<String>,
    pub image: String,
    pub entrypoint: Option<String>,
    pub workdir: Option<String>,
    pub network: ContainerNetwork,
    pub container_port: Option<u16>,
    pub ipc: ContainerIpc,
    pub gpu_device: Option<String>,
    pub mounts: Vec<ContainerMount>,
    pub extra_publications: Vec<ContainerPortPublication>,
    pub env: TextMap<String>,
    pub env_passthrough: Vec<String>,
    pub labels: TextMap<String>,
}

/// A rule that a container block breaks. Positions count from zero.
#[derive(Debug, Clone, Copy)]
pub enum ContainerFault {
    ImageMissing,
    ImageEmpty,
    RuntimeUnknown,
    NetworkUnknown,
    IpcUnknown,
    PortMissing,
    PortOnHost,
    PublicationsOnHost,
    MountSourceRelative(usize),
    MountTargetRelative(usize),
    MountSelinuxUnknown(usize),
    MountTargetRepeated { first: usize, again: usize },
    PublicationProtocolUnknown(usize),
    PublicationAddressBlank(usize),
    DevicePlaceholderMissing,
    DevicePlaceholderRepeated(usize),
    LabelReserved(usize),
    PassthroughAssigns(usize),
    PassthroughBlank(usize),
}

/// Which of two spellings a setting takes, `first` by default; `None` for
/// any other spelling.
pub open spec fn chosen(value: Option<String>, first: Seq<char>, second: Seq<char>) -> Option<
    bool,
> {
    match value {
        None => Some(true),
        Some(v) => if v@ == first {
            Some(true)
        } else if v@ == second {
            Some(false)
        } else {
            None
        },
    }
}

fn choice(value: &Option<String>, first: &str, second: &str) -> (r: Option<bool>)
    ensures
        r == chosen(*value, first@, second@),
{
    match value {
        None => Some(true),
        Some(v) => if text::same(v.as_str(), first) {
            Some(true)
        } else if text::same(v.as_str(), second) {
            Some(false)
        } else {
            None
        },
    }
}

/// The runtime a block selects.
pub open spec fn runtime_of(raw: RawContainerConfig) -> Option<ContainerRuntime> {
    match chosen(raw.runtime, "docker"@, "podman"@) {
        Some(true) => Some(ContainerRuntime::Docker),
        Some(false) => Some(ContainerRuntime::Podman),
        None => None,
    }
}

/// The network mode a block selects.
pub open spec fn network_of(raw: RawContainerConfig) -> Option<ContainerNetwork> {
    match chosen(raw.network, "bridge"@, "host"@) {
        Some(true) => Some(ContainerNetwork::Bridge),
        Some(false) => Some(ContainerNetwork::Host),
        None => None,
    }
}

/// The IPC namespace a block selects.
pub open spec fn ipc_of(raw: RawContainerConfig) -> Option<ContainerIpc> {
    match chosen(raw.ipc, "private"@, "host"@) {
        Some(true) => Some(ContainerIpc::Private),
        Some(false) => Some(ContainerIpc::Host),
        None => None,
    }
}

/// The mounts of a block.
pub open spec fn mounts_of(raw: RawContainerConfig) -> Seq<RawContainerMount> {
    match raw.mounts {
        Some(m) => m@,
        None => Seq::empty(),
    }
}

/// The extra publications of a block.
pub open spec fn publications_of(raw: RawContainerConfig) -> Seq<RawPortPublication> {
    match raw.extra_publications {
        Some(p) => p@,
        None => Seq::empty(),
    }
}

/// The passthrough names of a block.
pub open spec fn passthrough_of(raw: RawContainerConfig) -> Seq<String> {
    match raw.env_passthrough {
        Some(p) => p@,
        None => Seq::empty(),
    }
}

/// The entries of an optional text map.
pub open spec fn pairs_of(map: Option<TextMap<String>>) -> Seq<(Seq<char>, String)> {
    match map {
        Some(m) => m.pairs(),
        None => Seq::empty(),
    }
}

/// Whether a path begins at the root.
pub open spec fn absolute(path: Seq<char>) -> bool {
    path.len() > 0 && path[0] == '/'
}

/// The first fault of the mounts from position `i` on, taken one by one.
pub open spec fn mount_fault(mounts: Seq<RawContainerMount>, i: int) -> Option<ContainerFault>
    decreases mounts.len() - i,
{
    if i >= mounts.len() {
        None
    } else if !absolute(mounts[i].source@) {
        Some(ContainerFault::MountSourceRelative(i as usize))
    } else if !absolute(mounts[i].target@) {
        Some(ContainerFault::MountTargetRelative(i as usize))
    } else if mounts[i].selinux matches Some(s) && s@ != "z"@ && s@ != "Z"@ {
        Some(ContainerFault::MountSelinuxUnknown(i as usize))
    } else {
        mount_fault(mounts, i + 1)
    }
}

/// Position of the first mount from `j` on with the target `target`.
pub open spec fn target_position(mounts: Seq<RawContainerMount>, target: Seq<char>, j: int) -> int
    decreases mounts.len() - j,
{
    if j >= mounts.len() || mounts[j].target@ == target {
        j
    } else {
        target_position(mounts, target, j + 1)
    }
}

/// The first mount from position `i` on whose target an earlier one has.
pub open spec fn repeat_fault(mounts: Seq<RawContainerMount>, i: int) -> Option<ContainerFault>
    decreases mounts.len() - i,
{
    if i >= mounts.len() {
        None
    } else {
        let first = target_position(mounts, mounts[i].target@, 0);
        if first < i {
            Some(ContainerFault::MountTargetRepeated { first: first as usize, again: i as usize })
        } else {
            repeat_fault(mounts, i + 1)
        }
    }
}

/// The first fault of the publications from position `i` on.
pub open spec fn publication_fault(pubs: Seq<RawPortPublication>, i: int) -> Option<ContainerFault>
    decreases pubs.len() - i,
{
    if i >= pubs.len() {
        None
    } else if pubs[i].protocol@ != "tcp"@ && pubs[i].protocol@ != "udp"@ {
        Some(ContainerFault::PublicationProtocolUnknown(i as usize))
    } else if text::is_blank(pubs[i].host_ip@) {
        Some(ContainerFault::PublicationAddressBlank(i as usize))
    } else {
        publication_fault(pubs, i + 1)
    }
}

/// The fault of a device template.
pub open spec fn device_fault(template: Option<String>) -> Option<ContainerFault> {
    match template {
        None => None,
        Some(t) => {
            let n = text::occurrences(t@, DEVICE_PLACEHOLDER@);
            if n == 0 {
                Some(ContainerFault::DevicePlaceholderMissing)
            } else if n > 1 {
                Some(ContainerFault::DevicePlaceholderRepeated(n as usize))
            } else {
                None
            }
        },
    }
}

/// The first reserved label from position `i` on, in key order.
pub open spec fn label_fault(labels: Seq<(Seq<char>, String)>, i: int) -> Option<ContainerFault>
    decreases labels.len() - i,
{
    if i >= labels.len() {
        None
    } else if RESERVED_LABEL_PREFIX@.is_prefix_of(labels[i].0) {
        Some(ContainerFault::LabelReserved(i as usize))
    } else {
        label_fault(labels, i + 1)
    }
}

/// The first fault of the passthrough names from position `i` on.
pub open spec fn passthrough_fault(names: Seq<String>, i: int) -> Option<ContainerFault>
    decreases names.len() - i,
{
    if i >= names.len() {
        None
    } else if names[i]@.contains('=') {
        Some(ContainerFault::PassthroughAssigns(i as usize))
    } else if text::is_blank(names[i]@) {
        Some(ContainerFault::PassthroughBlank(i as usize))
    } else {
        passthrough_fault(names, i + 1)
    }
}

/// The first of two possible faults.
pub open spec fn or_else(a: Option<ContainerFault>, b: Option<ContainerFault>) -> Option<
    ContainerFault,
> {
    if a is Some {
        a
    } else {
        b
    }
}

/// The fault of the settings that stand alone: image, spellings, and the
/// pairing of network mode and ports.
pub open spec fn settings_fault(raw: RawContainerConfig) -> Option<ContainerFault> {
    if raw.image is None {
        Some(ContainerFault::ImageMissing)
    } else if raw.image->0@.len() == 0 {
        Some(ContainerFault::ImageEmpty)
    } else if runtime_of(raw) is None {
        Some(ContainerFault::RuntimeUnknown)
    } else if network_of(raw) is None {
        Some(ContainerFault::NetworkUnknown)
    } else if ipc_of(raw) is None {
        Some(ContainerFault::IpcUnknown)
    } else if network_of(raw) == Some(ContainerNetwork::Bridge) && raw.container_port is None {
        Some(ContainerFault::PortMissing)
    } else if network_of(raw) == Some(ContainerNetwork::Host) && raw.container_port is Some {
        Some(ContainerFault::PortOnHost)
    } else if network_of(raw) == Some(ContainerNetwork::Host) && publications_of(raw).len() > 0 {
        Some(ContainerFault::PublicationsOnHost)
    } else {
        None
    }
}

/// The rule that a block breaks, the first in the order they are checked.
pub open spec fn container_fault(raw: RawContainerConfig) -> Option<ContainerFault> {
    or_else(
        settings_fault(raw),
        or_else(
            mount_fault(mounts_of(raw), 0),
            or_else(
                repeat_fault(mounts_of(raw), 0),
                or_else(
                    publication_fault(publications_of(raw), 0),
                    or_else(
                        device_fault(raw.gpu_device),
                        or_else(
                            label_fault(pairs_of(raw.labels), 0),
                            passthrough_fault(passthrough_of(raw), 0),
                        ),
                    ),
                ),
            ),
        ),
    )
}

/// What the operator reads of a fault.
pub open spec fn fault_text(name: Seq<char>, raw: RawContainerConfig, fault: ContainerFault) -> Seq<
    char,
> {
    let lead = "service "@ + name;
    match fault {
        ContainerFault::ImageMissing => lead
            + ": container.image is required when [service.container] is present"@,
        ContainerFault::ImageEmpty => lead + ": container.image must not be empty"@,
        ContainerFault::RuntimeUnknown => lead + ": container.runtime `"@ + raw.runtime->0@
            + "` is invalid (expected `docker` or `podman`)"@,
        ContainerFault::NetworkUnknown => lead + ": container.network `"@ + raw.network->0@
            + "` is invalid (expected `bridge` or `host`)"@,
        ContainerFault::IpcUnknown => lead + ": container.ipc `"@ + raw.ipc->0@
            + "` is invalid (expected `private` or `host`)"@,
        ContainerFault::PortMissing => lead
            + ": container.container_port is required for bridge networking"@,
        ContainerFault::PortOnHost => lead
            + ": container.container_port is not allowed with host networking"@,
        ContainerFault::PublicationsOnHost => lead
            + ": container.extra_publications is not allowed with host networking"@,
        ContainerFault::MountSourceRelative(i) => lead + ": container.mounts["@ + text::digits(
            i as nat,
        ) + "].source must be an absolute path (got `"@ + mounts_of(raw)[i as int].source@ + "`)"@,
        ContainerFault::MountTargetRelative(i) => lead + ": container.mounts["@ + text::digits(
            i as nat,
        ) + "].target must be an absolute path (got `"@ + mounts_of(raw)[i as int].target@ + "`)"@,
        ContainerFault::MountSelinuxUnknown(i) => lead + ": container.mounts["@ + text::digits(
            i as nat,
        ) + "].selinux `"@ + mounts_of(raw)[i as int].selinux->0@
            + "` is invalid (expected `z` or `Z`)"@,
        ContainerFault::MountTargetRepeated { first, again } => lead
            + ": container.mounts has duplicate target `"@ + mounts_of(raw)[again as int].target@
            + "` (first at index "@ + text::digits(first as nat) + ", duplicate at "@
            + text::digits(again as nat) + ")"@,
        ContainerFault::PublicationProtocolUnknown(i) => lead + ": container.extra_publications["@
            + text::digits(i as nat) + "].protocol `"@ + publications_of(raw)[i as int].protocol@
            + "` is invalid (expected `tcp` or `udp`)"@,
        ContainerFault::PublicationAddressBlank(i) => lead + ": container.extra_publications["@
            + text::digits(i as nat)
            + "].host_ip is empty, which publishes on every interface — state `127.0.0.1` explicitly, or the address you mean"@,
        ContainerFault::DevicePlaceholderMissing => lead
            + ": container.gpu_device must contain `${id}` placeholder (got `"@
            + raw.gpu_device->0@ + "`)"@,
        ContainerFault::DevicePlaceholderRepeated(n) => lead
            + ": container.gpu_device must contain exactly one `${id}` placeholder (got "@
            + text::digits(n as nat) + " in `"@ + raw.gpu_device->0@ + "`)"@,
        ContainerFault::LabelReserved(i) => lead + ": container.labels key `"@ + pairs_of(
            raw.labels,
        )[i as int].0
            + "` is reserved (the `io.ananke.` namespace is managed by ananke)"@,
        ContainerFault::PassthroughAssigns(i) => lead + ": container.env_passthrough["@
            + text::digits(i as nat)
            + "] must be a variable name, not `NAME=value` — the value would be rendered into the launch preview and the API. Put the value in `container.env` if it is not a secret"@,
        ContainerFault::PassthroughBlank(i) => lead + ": container.env_passthrough["@
            + text::digits(i as nat) + "] is empty"@,
    }
}

/// Whether validated mounts are the written ones.
pub open spec fn mounts_agree(out: Seq<ContainerMount>, raw: Seq<RawContainerMount>) -> bool {
    &&& out.len() == raw.len()
    &&& forall|i: int|
        0 <= i < out.len() ==> {
            &&& (#[trigger] out[i]).source@ == raw[i].source@
            &&& out[i].target@ == raw[i].target@
            &&& out[i].read_only == raw[i].read_only
            &&& out[i].selinux == raw[i].selinux
        }
}

/// Whether validated publications are the written ones.
pub open spec fn publications_agree(
    out: Seq<ContainerPortPublication>,
    raw: Seq<RawPortPublication>,
) -> bool {
    &&& out.len() == raw.len()
    &&& forall|i: int|
        0 <= i < out.len() ==> {
            &&& (#[trigger] out[i]).host_ip@ == raw[i].host_ip@
            &&& out[i].host_port == raw[i].host_port
            &&& out[i].container_port == raw[i].container_port
            &&& out[i].protocol@ == raw[i].protocol@
        }
}

/// Whether validated settings carry what the block says, defaults filled in.
pub open spec fn container_agrees(out: ContainerConfig, raw: RawContainerConfig) -> bool {
    &&& Some(out.runtime) == runtime_of(raw)
    &&& out.runtime_executable == raw.runtime_executable
    &&& raw.image is Some && out.image@ == raw.image->0@
    &&& out.entrypoint == raw.entrypoint
    &&& out.workdir == raw.workdir
    &&& Some(out.network) == network_of(raw)
    &&& out.container_port == raw.container_port
    &&& Some(out.ipc) == ipc_of(raw)
    &&& out.gpu_device == raw.gpu_device
    &&& mounts_agree(out.mounts@, mounts_of(raw))
    &&& publications_agree(out.extra_publications@, publications_of(raw))
    &&& out.env.pairs() == pairs_of(raw.env)
    &&& out.env_passthrough@ == passthrough_of(raw)
    &&& out.labels.pairs() == pairs_of(raw.labels)
}

/// Whether a fault points into the block it is a fault of.
pub open spec fn fault_stands(raw: RawContainerConfig, fault: ContainerFault) -> bool {
    match fault {
        ContainerFault::RuntimeUnknown => raw.runtime is Some,
        ContainerFault::NetworkUnknown => raw.network is Some,
        ContainerFault::IpcUnknown => raw.ipc is Some,
        ContainerFault::MountSourceRelative(i) => i < mounts_of(raw).len(),
        ContainerFault::MountTargetRelative(i) => i < mounts_of(raw).len(),
        ContainerFault::MountSelinuxUnknown(i) => i < mounts_of(raw).len()
            && mounts_of(raw)[i as int].selinux is Some,
        ContainerFault::MountTargetRepeated { first, again } => again < mounts_of(raw).len(),
        ContainerFault::PublicationProtocolUnknown(i) => i < publications_of(raw).len(),
        ContainerFault::DevicePlaceholderMissing => raw.gpu_device is Some,
        ContainerFault::DevicePlaceholderRepeated(n) => raw.gpu_device is Some,
        ContainerFault::LabelReserved(i) => i < pairs_of(raw.labels).len(),
        _ => true,
    }
}

fn is_absolute(path: &str) -> (r: bool)
    ensures
        r == absolute(path@),
{
    path.unicode_len() > 0 && path.get_char(0) == '/'
}

fn opt_text(value: &Option<String>) -> (r: &str)
    requires
        value is Some,
    ensures
        r@ == value->0@,
{
    match value {
        Some(v) => v.as_str(),
        None => "",
    }
}

/// The text of a fault that concerns entry `i` of a list.
fn entry_text(name: &str, list: &str, i: usize, rest: &str) -> (r: String)
    ensures
        r@ == "service "@ + name@ + list@ + text::digits(i as nat) + rest@,
{
    "service ".to_owned().concat(name).concat(list).concat(text::decimal(i as u64).as_str()).concat(
        rest,
    )
}

fn describe(name: &str, raw: &RawContainerConfig, fault: ContainerFault) -> (r: String)
    requires
        fault_stands(*raw, fault),
    ensures
        r@ == fault_text(name@, *raw, fault),
{
    let lead: String = "service ".to_owned().concat(name);
    match fault {
        ContainerFault::ImageMissing => lead.concat(
            ": container.image is required when [service.container] is present",
        ),
        ContainerFault::ImageEmpty => lead.concat(": container.image must not be empty"),
        ContainerFault::RuntimeUnknown => lead.concat(": container.runtime `").concat(
            opt_text(&raw.runtime),
        ).concat("` is invalid (expected `docker` or `podman`)"),
        ContainerFault::NetworkUnknown => lead.concat(": container.network `").concat(
            opt_text(&raw.network),
        ).concat("` is invalid (expected `bridge` or `host`)"),
        ContainerFault::IpcUnknown => lead.concat(": container.ipc `").concat(
            opt_text(&raw.ipc),
        ).concat("` is invalid (expected `private` or `host`)"),
        ContainerFault::PortMissing => lead.concat(
            ": container.container_port is required for bridge networking",
        ),
        ContainerFault::PortOnHost => lead.concat(
            ": container.container_port is not allowed with host networking",
        ),
        ContainerFault::PublicationsOnHost => lead.concat(
            ": container.extra_publications is not allowed with host networking",
        ),
        ContainerFault::MountSourceRelative(i) => match &raw.mounts {
            Some(m) => entry_text(
                name,
                ": container.mounts[",
                i,
                "].source must be an absolute path (got `",
            ).concat(m[i].source.as_str()).concat("`)"),
            None => lead,
        },
        ContainerFault::MountTargetRelative(i) => match &raw.mounts {
            Some(m) => entry_text(
                name,
                ": container.mounts[",
                i,
                "].target must be an absolute path (got `",
            ).concat(m[i].target.as_str()).concat("`)"),
            None => lead,
        },
        ContainerFault::MountSelinuxUnknown(i) => match &raw.mounts {
            Some(m) => entry_text(name, ": container.mounts[", i, "].selinux `").concat(
                opt_text(&m[i].selinux),
            ).concat("` is invalid (expected `z` or `Z`)"),
            None => lead,
        },
        ContainerFault::MountTargetRepeated { first, again } => match &raw.mounts {
            Some(m) => lead.concat(": container.mounts has duplicate target `").concat(
                m[again].target.as_str(),
            ).concat("` (first at index ").concat(text::decimal(first as u64).as_str()).concat(
                ", duplicate at ",
            ).concat(text::decimal(again as u64).as_str()).concat(")"),
            None => lead,
        },
        ContainerFault::PublicationProtocolUnknown(i) => match &raw.extra_publications {
            Some(p) => entry_text(name, ": container.extra_publications[", i, "].protocol `").concat(
                p[i].protocol.as_str(),
            ).concat("` is invalid (expected `tcp` or `udp`)"),
            None => lead,
        },
        ContainerFault::PublicationAddressBlank(i) => entry_text(
            name,
            ": container.extra_publications[",
            i,
            "].host_ip is empty, which publishes on every interface — state `127.0.0.1` explicitly, or the address you mean",
        ),
        ContainerFault::DevicePlaceholderMissing => lead.concat(
            ": container.gpu_device must contain `${id}` placeholder (got `",
        ).concat(opt_text(&raw.gpu_device)).concat("`)"),
        ContainerFault::DevicePlaceholderRepeated(n) => lead.concat(
            ": container.gpu_device must contain exactly one `${id}` placeholder (got ",
        ).concat(text::decimal(n as u64).as_str()).concat(" in `").concat(
            opt_text(&raw.gpu_device),
        ).concat("`)"),
        ContainerFault::LabelReserved(i) => match &raw.labels {
            Some(l) => lead.concat(": container.labels key `").concat(l.key_at(i)).concat(
                "` is reserved (the `io.ananke.` namespace is managed by ananke)",
            ),
            None => lead,
        },
        ContainerFault::PassthroughAssigns(i) => entry_text(
            name,
            ": container.env_passthrough[",
            i,
            "] must be a variable name, not `NAME=value` — the value would be rendered into the launch preview and the API. Put the value in `container.env` if it is not a secret",
        ),
        ContainerFault::PassthroughBlank(i) => entry_text(
            name,
            ": container.env_passthrough[",
            i,
            "] is empty",
        ),
    }
}

fn check_mounts(mounts: &Vec<RawContainerMount>) -> (r: Option<ContainerFault>)
    ensures
        r == mount_fault(mounts@, 0),
        r matches Some(ContainerFault::MountSelinuxUnknown(i)) ==> mounts@[i as int].selinux is Some,
        r matches Some(f) ==> match f {
            ContainerFault::MountSourceRelative(i) => i < mounts@.len(),
            ContainerFault::MountTargetRelative(i) => i < mounts@.len(),
            ContainerFault::MountSelinuxUnknown(i) => i < mounts@.len(),
            _ => false,
        },
{
    for i in 0..mounts.len()
        invariant
            mount_fault(mounts@, 0) == mount_fault(mounts@, i as int),
    {
        let mount = &mounts[i];
        if !is_absolute(mount.source.as_str()) {
            return Some(ContainerFault::MountSourceRelative(i));
        }
        if !is_absolute(mount.target.as_str()) {
            return Some(ContainerFault::MountTargetRelative(i));
        }
        if let Some(s) = &mount.selinux {
            if !text::same(s.as_str(), "z") && !text::same(s.as_str(), "Z") {
                return Some(ContainerFault::MountSelinuxUnknown(i));
            }
        }
    }
    None
}

fn position_of_target(mounts: &Vec<RawContainerMount>, target: &str) -> (r: usize)
    ensures
        r == target_position(mounts@, target@, 0),
        r <= mounts@.len(),
        forall|j: int| 0 <= j < mounts@.len() && (#[trigger] mounts@[j]).target@ == target@ ==> r <= j,
{
    let mut j: usize = 0;
    while j < mounts.len() && !text::same(mounts[j].target.as_str(), target)
        invariant
            j <= mounts@.len(),
            target_position(mounts@, target@, 0) == target_position(mounts@, target@, j as int),
            forall|k: int| 0 <= k < j ==> (#[trigger] mounts@[k]).target@ != target@,
        decreases mounts@.len() - j,
    {
        j += 1;
    }
    j
}

fn check_repeats(mounts: &Vec<RawContainerMount>) -> (r: Option<ContainerFault>)
    ensures
        r == repeat_fault(mounts@, 0),
        r matches Some(f) ==> f matches ContainerFault::MountTargetRepeated { first, again } && again
            < mounts@.len(),
{
    for i in 0..mounts.len()
        invariant
            repeat_fault(mounts@, 0) == repeat_fault(mounts@, i as int),
    {
        let first: usize = position_of_target(mounts, mounts[i].target.as_str());
        if first < i {
            return Some(ContainerFault::MountTargetRepeated { first, again: i });
        }
    }
    None
}

fn check_publications(pubs: &Vec<RawPortPublication>) -> (r: Option<ContainerFault>)
    ensures
        r == publication_fault(pubs@, 0),
        r matches Some(f) ==> match f {
            ContainerFault::PublicationProtocolUnknown(i) => i < pubs@.len(),
            ContainerFault::PublicationAddressBlank(i) => true,
            _ => false,
        },
{
    for i in 0..pubs.len()
        invariant
            publication_fault(pubs@, 0) == publication_fault(pubs@, i as int),
    {
        let entry = &pubs[i];
        if !text::same(entry.protocol.as_str(), "tcp") && !text::same(
            entry.protocol.as_str(),
            "udp",
        ) {
            return Some(ContainerFault::PublicationProtocolUnknown(i));
        }
        if text::blank(entry.host_ip.as_str()) {
            return Some(ContainerFault::PublicationAddressBlank(i));
        }
    }
    None
}

fn check_device(template: &Option<String>) -> (r: Option<ContainerFault>)
    ensures
        r == device_fault(*template),
        r matches Some(f) ==> template is Some && match f {
            ContainerFault::DevicePlaceholderMissing => true,
            ContainerFault::DevicePlaceholderRepeated(n) => true,
            _ => false,
        },
{
    match template {
        None => None,
        Some(t) => {
            proof {
                reveal_strlit("${id}");
            }
            let n: usize = text::count(t.as_str(), DEVICE_PLACEHOLDER);
            if n == 0 {
                Some(ContainerFault::DevicePlaceholderMissing)
            } else if n > 1 {
                Some(ContainerFault::DevicePlaceholderRepeated(n))
            } else {
                None
            }
        },
    }
}

fn check_labels(labels: &TextMap<String>) -> (r: Option<ContainerFault>)
    ensures
        r == label_fault(labels.pairs(), 0),
        r matches Some(f) ==> f matches ContainerFault::LabelReserved(i) && i < labels.pairs().len(),
{
    let n: usize = labels.len();
    for i in 0..n
        invariant
            n == labels.pairs().len(),
            label_fault(labels.pairs(), 0) == label_fault(labels.pairs(), i as int),
    {
        if text::starts_with(labels.key_at(i), RESERVED_LABEL_PREFIX) {
            return Some(ContainerFault::LabelReserved(i));
        }
    }
    None
}

fn check_passthrough(names: &Vec<String>) -> (r: Option<ContainerFault>)
    ensures
        r == passthrough_fault(names@, 0),
        r matches Some(f) ==> match f {
            ContainerFault::PassthroughAssigns(i) => true,
            ContainerFault::PassthroughBlank(i) => true,
            _ => false,
        },
{
    for i in 0..names.len()
        invariant
            passthrough_fault(names@, 0) == passthrough_fault(names@, i as int),
    {
        if text::has_char(names[i].as_str(), '=') {
            return Some(ContainerFault::PassthroughAssigns(i));
        }
        if text::blank(names[i].as_str()) {
            return Some(ContainerFault::PassthroughBlank(i));
        }
    }
    None
}

fn carry_mounts(mounts: &Option<Vec<RawContainerMount>>) -> (out: Vec<ContainerMount>)
    ensures
        mounts_agree(
            out@,
            match *mounts {
                Some(m) => m@,
                None => Seq::empty(),
            },
        ),
{
    let mut out: Vec<ContainerMount> = Vec::new();
    if let Some(m) = mounts {
        for i in 0..m.len()
            invariant
                mounts_agree(out@, m@.take(i as int)),
        {
            out.push(
                ContainerMount {
                    source: m[i].source.clone(),
                    target: m[i].target.clone(),
                    read_only: m[i].read_only,
                    selinux: m[i].selinux.clone(),
                },
            );
        }
        assert(m@.take(m@.len() as int) =~= m@);
    }
    out
}

fn carry_publications(pubs: &Option<Vec<RawPortPublication>>) -> (out: Vec<
    ContainerPortPublication,
>)
    ensures
        publications_agree(
            out@,
            match *pubs {
                Some(p) => p@,
                None => Seq::empty(),
            },
        ),
{
    let mut out: Vec<ContainerPortPublication> = Vec::new();
    if let Some(p) = pubs {
        for i in 0..p.len()
            invariant
                publications_agree(out@, p@.take(i as int)),
        {
            out.push(
                ContainerPortPublication {
                    host_ip: p[i].host_ip.clone(),
                    host_port: p[i].host_port,
                    container_port: p[i].container_port,
                    protocol: p[i].protocol.clone(),
                },
            );
        }
        assert(p@.take(p@.len() as int) =~= p@);
    }
    out
}

fn carry_map(map: &Option<TextMap<String>>) -> (r: TextMap<String>)
    ensures
        r.pairs() == pairs_of(*map),
{
    match map {
        Some(m) => {
            let r = m.clone();
            assert(r.pairs() =~= m.pairs());
            r
        },
        None => TextMap::new(),
    }
}

fn carry_names(names: &Option<Vec<String>>) -> (r: Vec<String>)
    ensures
        r@ == (match *names {
            Some(n) => n@,
            None => Seq::empty(),
        }),
{
    match names {
        Some(n) => {
            let r: Vec<String> = n.clone();
            assert(r@ =~= n@);
            r
        },
        None => Vec::new(),
    }
}

/// The rule that a block breaks, if any.
pub fn find_fault(raw: &RawContainerConfig) -> (r: Option<ContainerFault>)
    ensures
        r == container_fault(*raw),
        r matches Some(f) ==> fault_stands(*raw, f),
{
    match &raw.image {
        None => return Some(ContainerFault::ImageMissing),
        Some(image) => if image.unicode_len() == 0 {
            return Some(ContainerFault::ImageEmpty);
        },
    }
    if choice(&raw.runtime, "docker", "podman").is_none() {
        return Some(ContainerFault::RuntimeUnknown);
    }
    let network: Option<bool> = choice(&raw.network, "bridge", "host");
    if network.is_none() {
        return Some(ContainerFault::NetworkUnknown);
    }
    if choice(&raw.ipc, "private", "host").is_none() {
        return Some(ContainerFault::IpcUnknown);
    }
    if network == Some(true) && raw.container_port.is_none() {
        return Some(ContainerFault::PortMissing);
    }
    if network == Some(false) && raw.container_port.is_some() {
        return Some(ContainerFault::PortOnHost);
    }
    if let Some(p) = &raw.extra_publications {
        if network == Some(false) && p.len() > 0 {
            return Some(ContainerFault::PublicationsOnHost);
        }
    }
    if let Some(m) = &raw.mounts {
        let fault = check_mounts(m);
        if fault.is_some() {
            return fault;
        }
        let fault = check_repeats(m);
        if fault.is_some() {
            return fault;
        }
    }
    if let Some(p) = &raw.extra_publications {
        let fault = check_publications(p);
        if fault.is_some() {
            return fault;
        }
    }
    let fault = check_device(&raw.gpu_device);
    if fault.is_some() {
        return fault;
    }
    if let Some(l) = &raw.labels {
        let fault = check_labels(l);
        if fault.is_some() {
            return fault;
        }
    }
    if let Some(p) = &raw.env_passthrough {
        return check_passthrough(p);
    }
    None
}

/// Validates a container block: the settings it stands for, or the first
/// rule it breaks.
pub fn validate_container(name: &str, raw: &RawContainerConfig) -> (r: Result<
    ContainerConfig,
    ExpectedError,
>)
    ensures
        match r {
            Ok(out) => {
                &&& container_fault(*raw) is None
                &&& container_agrees(out, *raw)
                &&& match raw.mounts {
                    Some(written) => {
                        &&& out.mounts@.len() == written@.len()
                        &&& forall|i: int|
                            0 <= i < written@.len() ==> {
                                &&& (#[trigger] out.mounts@[i]).source@ == written@[i].source@
                                &&& out.mounts@[i].target@ == written@[i].target@
                                &&& out.mounts@[i].read_only == written@[i].read_only
                                &&& out.mounts@[i].selinux == written@[i].selinux
                            }
                    },
                    None => out.mounts@.len() == 0,
                }
                &&& match raw.extra_publications {
                    Some(written) => {
                        &&& out.extra_publications@.len() == written@.len()
                        &&& forall|i: int|
                            0 <= i < written@.len() ==> {
                                &&& (#[trigger] out.extra_publications@[i]).host_ip@
                                    == written@[i].host_ip@
                                &&& out.extra_publications@[i].host_port == written@[i].host_port
                                &&& out.extra_publications@[i].container_port
                                    == written@[i].container_port
                                &&& out.extra_publications@[i].protocol@ == written@[i].protocol@
                            }
                    },
                    None => out.extra_publications@.len() == 0,
                }
            },
            Err(e) => container_fault(*raw) matches Some(f) && crate::config::error::rejects(
                e,
                fault_text(name@, *raw, f),
            ),
        },
{
    if let Some(fault) = find_fault(raw) {
        return Err(fail(describe(name, raw, fault)));
    }
    let runtime = if choice(&raw.runtime, "docker", "podman") == Some(true) {
        ContainerRuntime::Docker
    } else {
        ContainerRuntime::Podman
    };
    let network = if choice(&raw.network, "bridge", "host") == Some(true) {
        ContainerNetwork::Bridge
    } else {
        ContainerNetwork::Host
    };
    let ipc = if choice(&raw.ipc, "private", "host") == Some(true) {
        ContainerIpc::Private
    } else {
        ContainerIpc::Host
    };
    Ok(
        ContainerConfig {
            runtime,
            runtime_executable: raw.runtime_executable.clone(),
            image: opt_text(&raw.image).to_owned(),
            entrypoint: raw.entrypoint.clone(),
            workdir: raw.workdir.clone(),
            network,
            container_port: raw.container_port,
            ipc,
            gpu_device: raw.gpu_device.clone(),
            mounts: carry_mounts(&raw.mounts),
            extra_publications: carry_publications(&raw.extra_publications),
            env: carry_map(&raw.env),
            env_passthrough: carry_names(&raw.env_passthrough),
            labels: carry_map(&raw.labels),
        },
    )
}

/// Whether one of `texts` holds `needle`.
pub open spec fn mentioned(texts: Seq<String>, needle: Seq<char>) -> bool {
    exists|i: int| 0 <= i < texts.len() && text::occurs((#[trigger] texts[i])@, needle)
}

/// Whether the value of one of `pairs` holds `needle`.
pub open spec fn mentioned_in_map(pairs: Seq<(Seq<char>, String)>, needle: Seq<char>) -> bool {
    exists|i: int| 0 <= i < pairs.len() && text::occurs((#[trigger] pairs[i]).1@, needle)
}

/// Whether a command, its service's environment or its container's
/// environment holds `needle`.
pub open spec fn consumed(
    command: Seq<String>,
    service_env: Seq<(Seq<char>, String)>,
    container_env: Seq<(Seq<char>, String)>,
    needle: Seq<char>,
) -> bool {
    ||| mentioned(command, needle)
    ||| mentioned_in_map(service_env, needle)
    ||| mentioned_in_map(container_env, needle)
}

fn mentions(texts: &[String], needle: &str) -> (r: bool)
    ensures
        r == mentioned(texts@, needle@),
{
    for i in 0..texts.len()
        invariant
            forall|j: int| 0 <= j < i ==> !text::occurs((#[trigger] texts@[j])@, needle@),
    {
        if text::contains(texts[i].as_str(), needle) {
            assert(text::occurs(texts@[i as int]@, needle@));
            return true;
        }
    }
    false
}

fn map_mentions(map: &TextMap<String>, needle: &str) -> (r: bool)
    ensures
        r == mentioned_in_map(map.pairs(), needle@),
{
    let n: usize = map.len();
    for i in 0..n
        invariant
            n == map.pairs().len(),
            forall|j: int| 0 <= j < i ==> !text::occurs((#[trigger] map.pairs()[j]).1@, needle@),
    {
        if text::contains(map.value_at(i).as_str(), needle) {
            assert(text::occurs(map.pairs()[i as int].1@, needle@));
            return true;
        }
    }
    false
}

fn consumes(
    command: &[String],
    service_env: &TextMap<String>,
    container_env: &TextMap<String>,
    needle: &str,
) -> (r: bool)
    ensures
        r == consumed(command@, service_env.pairs(), container_env.pairs(), needle@),
{
    mentions(command, needle) || map_mentions(service_env, needle) || map_mentions(
        container_env,
        needle,
    )
}

/// The complaint about a bridge-networked command that never binds the
/// interface or the port that are published for it; `None` where it does,
/// or where nothing is published.
pub open spec fn endpoint_complaint(
    name: Seq<char>,
    network: ContainerNetwork,
    command: Seq<String>,
    service_env: Seq<(Seq<char>, String)>,
    container_env: Seq<(Seq<char>, String)>,
) -> Option<Seq<char>> {
    if network == ContainerNetwork::Host {
        None
    } else if !consumed(command, service_env, container_env, "${listen_host}"@) {
        Some(
            "service "@ + name
                + ": bridge-networked container command must consume `${listen_host}` in its command or env, so it binds the interface the published port maps onto (use `network = \"host\"` for a command that binds its own address)"@,
        )
    } else if !consumed(command, service_env, container_env, "${listen_port}"@) && !consumed(
        command,
        service_env,
        container_env,
        "${port}"@,
    ) {
        Some(
            "service "@ + name
                + ": bridge-networked container command must consume `${listen_port}` in its command or env, so it binds the container port `container_port` publishes to"@,
        )
    } else {
        None
    }
}

/// Rejects a bridge-networked command whose argv and environment never
/// consume the resolved endpoint: what it binds on its own the published
/// port does not reach.
pub fn validate_bridge_command_endpoint(
    name: &str,
    container: &ContainerConfig,
    command: &[String],
    service_env: &TextMap<String>,
) -> (r: Result<(), ExpectedError>)
    ensures
        ({
            let complaint = endpoint_complaint(
                name@,
                container.network,
                command@,
                service_env.pairs(),
                container.env.pairs(),
            );
            match r {
                Ok(_) => complaint is None,
                Err(e) => complaint matches Some(m) && crate::config::error::rejects(e, m),
            }
        }),
{
    if container.network == ContainerNetwork::Host {
        return Ok(());
    }
    if !consumes(command, service_env, &container.env, "${listen_host}") {
        return Err(
            fail(
                "service ".to_owned().concat(name).concat(
                    ": bridge-networked container command must consume `${listen_host}` in its command or env, so it binds the interface the published port maps onto (use `network = \"host\"` for a command that binds its own address)",
                ),
            ),
        );
    }
    if !consumes(command, service_env, &container.env, "${listen_port}") && !consumes(
        command,
        service_env,
        &container.env,
        "${port}",
    ) {
        return Err(
            fail(
                "service ".to_owned().concat(name).concat(
                    ": bridge-networked container command must consume `${listen_port}` in its command or env, so it binds the container port `container_port` publishes to",
                ),
            ),
        );
    }
    Ok(())
}

/// Address an extra publication binds by default.
pub fn default_host_ip() -> (r: String)
    ensures
        r@ == "127.0.0.1"@,
{
    "127.0.0.1".to_owned()
}

/// Protocol of an extra publication by default.
pub fn default_protocol() -> (r: String)
    ensures
        r@ == "tcp"@,
{
    "tcp".to_owned()
}

proof fn lemma_mounts_clear(mounts: Seq<RawContainerMount>, i: int)
    requires
        0 <= i,
        mount_fault(mounts, i) is None,
    ensures
        forall|j: int|
            i <= j < mounts.len() ==> absolute((#[trigger] mounts[j]).source@) && absolute(
                mounts[j].target@,
            ),
    decreases mounts.len() - i,
{
    if i < mounts.len() {
        lemma_mounts_clear(mounts, i + 1);
    }
}

proof fn lemma_target_position(mounts: Seq<RawContainerMount>, target: Seq<char>, i: int, j: int)
    requires
        0 <= i <= j < mounts.len(),
        mounts[j].target@ == target,
    ensures
        target_position(mounts, target, i) <= j,
    decreases mounts.len() - i,
{
    if mounts[i].target@ != target {
        lemma_target_position(mounts, target, i + 1, j);
    }
}

proof fn lemma_targets_distinct(mounts: Seq<RawContainerMount>, i: int)
    requires
        0 <= i,
        repeat_fault(mounts, i) is None,
    ensures
        forall|j: int, k: int|
            0 <= j < k < mounts.len() && i <= k ==> (#[trigger] mounts[j]).target@ != (
            #[trigger] mounts[k]).target@,
    decreases mounts.len() - i,
{
    if i < mounts.len() {
        lemma_targets_distinct(mounts, i + 1);
        assert forall|j: int| 0 <= j < i implies (#[trigger] mounts[j]).target@
            != mounts[i].target@ by {
            if mounts[j].target@ == mounts[i].target@ {
                lemma_target_position(mounts, mounts[i].target@, 0, j);
            }
        }
    }
}

proof fn lemma_labels_clear(labels: Seq<(Seq<char>, String)>, i: int)
    requires
        0 <= i,
        label_fault(labels, i) is None,
    ensures
        forall|j: int|
            i <= j < labels.len() ==> !RESERVED_LABEL_PREFIX@.is_prefix_of((#[trigger] labels[j]).0),
    decreases labels.len() - i,
{
    if i < labels.len() {
        lemma_labels_clear(labels, i + 1);
    }
}

proof fn lemma_passthrough_clear(names: Seq<String>, i: int)
    requires
        0 <= i,
        passthrough_fault(names, i) is None,
    ensures
        forall|j: int|
            i <= j < names.len() ==> !(#[trigger] names[j])@.contains('=') && !text::is_blank(
                names[j]@,
            ),
    decreases names.len() - i,
{
    if i < names.len() {
        lemma_passthrough_clear(names, i + 1);
    }
}

/// What holds of every accepted container block: every mount joins two
/// absolute paths and no two share a target, no label lies in the daemon's
/// own namespace, no passthrough entry carries a value, bridge mode has a
/// port, and host mode has none and publishes nothing.
pub proof fn lemma_accepted_container(raw: RawContainerConfig)
    requires
        container_fault(raw) is None,
    ensures
        forall|j: int|
            0 <= j < mounts_of(raw).len() ==> absolute((#[trigger] mounts_of(raw)[j]).source@)
                && absolute(mounts_of(raw)[j].target@),
        forall|j: int, k: int|
            0 <= j < k < mounts_of(raw).len() ==> (#[trigger] mounts_of(raw)[j]).target@ != (
            #[trigger] mounts_of(raw)[k]).target@,
        forall|j: int|
            0 <= j < pairs_of(raw.labels).len() ==> !RESERVED_LABEL_PREFIX@.is_prefix_of(
                (#[trigger] pairs_of(raw.labels)[j]).0,
            ),
        forall|j: int|
            0 <= j < passthrough_of(raw).len() ==> !(#[trigger] passthrough_of(raw)[j])@.contains(
                '=',
            ),
        network_of(raw) == Some(ContainerNetwork::Bridge) ==> raw.container_port is Some,
        network_of(raw) == Some(ContainerNetwork::Host) ==> raw.container_port is None
            && publications_of(raw).len() == 0,
{
    lemma_mounts_clear(mounts_of(raw), 0);
    lemma_targets_distinct(mounts_of(raw), 0);
    lemma_labels_clear(pairs_of(raw.labels), 0);
    lemma_passthrough_clear(passthrough_of(raw), 0);
}

/// An accepted block is carried as it was written: paths, ports, labels and
/// variables as they stand, in their order, and what is left out at its
/// default.
pub proof fn lemma_container_carried(out: ContainerConfig, raw: RawContainerConfig)
    requires
        container_agrees(out, raw),
    ensures
        raw.image matches Some(image) && out.image@ == image@,
        out.runtime_executable == raw.runtime_executable,
        out.entrypoint == raw.entrypoint,
        out.workdir == raw.workdir,
        out.container_port == raw.container_port,
        out.gpu_device == raw.gpu_device,
        raw.mounts matches Some(m) ==> out.mounts@.len() == m@.len() && forall|i: int|
            0 <= i < m@.len() ==> (#[trigger] out.mounts@[i]).source@ == m@[i].source@
                && out.mounts@[i].target@ == m@[i].target@ && out.mounts@[i].read_only
                == m@[i].read_only && out.mounts@[i].selinux == m@[i].selinux,
        raw.mounts is None ==> out.mounts@.len() == 0,
        raw.extra_publications matches Some(p) ==> out.extra_publications@.len() == p@.len()
            && forall|i: int|
            0 <= i < p@.len() ==> (#[trigger] out.extra_publications@[i]).host_ip@ == p@[i].host_ip@
                && out.extra_publications@[i].host_port == p@[i].host_port
                && out.extra_publications@[i].container_port == p@[i].container_port
                && out.extra_publications@[i].protocol@ == p@[i].protocol@,
        raw.extra_publications is None ==> out.extra_publications@.len() == 0,
        raw.env_passthrough matches Some(p) ==> out.env_passthrough@ == p@,
        raw.env_passthrough is None ==> out.env_passthrough@.len() == 0,
        raw.env matches Some(m) ==> out.env.pairs() == m.pairs(),
        raw.env is None ==> out.env.pairs().len() == 0,
        raw.labels matches Some(m) ==> out.labels.pairs() == m.pairs(),
        raw.labels is None ==> out.labels.pairs().len() == 0,
        raw.runtime is None ==> out.runtime == ContainerRuntime::Docker,
        raw.runtime matches Some(s) ==> (out.runtime == ContainerRuntime::Docker && s@ == "docker"@)
            || (out.runtime == ContainerRuntime::Podman && s@ == "podman"@),
        raw.network is None ==> out.network == ContainerNetwork::Bridge,
        raw.network matches Some(s) ==> (out.network == ContainerNetwork::Bridge && s@ == "bridge"@)
            || (out.network == ContainerNetwork::Host && s@ == "host"@),
        raw.ipc is None ==> out.ipc == ContainerIpc::Private,
        raw.ipc matches Some(s) ==> (out.ipc == ContainerIpc::Private && s@ == "private"@) || (
        out.ipc == ContainerIpc::Host && s@ == "host"@),
{
}

proof fn lemma_mounts_faultless(mounts: Seq<RawContainerMount>, i: int)
    requires
        0 <= i,
    ensures
        mount_fault(mounts, i) is None <==> forall|j: int|
            i <= j < mounts.len() ==> {
                &&& (#[trigger] mounts[j]).source@.len() > 0 && mounts[j].source@[0] == '/'
                &&& mounts[j].target@.len() > 0 && mounts[j].target@[0] == '/'
                &&& mounts[j].selinux matches Some(s) ==> s@ == "z"@ || s@ == "Z"@
            },
    decreases mounts.len() - i,
{
    if i < mounts.len() {
        lemma_mounts_faultless(mounts, i + 1);
    }
}

proof fn lemma_target_found(mounts: Seq<RawContainerMount>, target: Seq<char>, j: int)
    requires
        0 <= j <= mounts.len(),
    ensures
        j <= target_position(mounts, target, j) <= mounts.len(),
        target_position(mounts, target, j) < mounts.len() ==> mounts[target_position(
            mounts,
            target,
            j,
        )].target@ == target,
    decreases mounts.len() - j,
{
    if j < mounts.len() && mounts[j].target@ != target {
        lemma_target_found(mounts, target, j + 1);
    }
}

proof fn lemma_targets_faultless(mounts: Seq<RawContainerMount>, i: int)
    requires
        0 <= i,
        forall|j: int, k: int|
            0 <= j < k < mounts.len() ==> (#[trigger] mounts[j]).target@ != (
            #[trigger] mounts[k]).target@,
    ensures
        repeat_fault(mounts, i) is None,
    decreases mounts.len() - i,
{
    if i < mounts.len() {
        let target = mounts[i].target@;
        lemma_target_found(mounts, target, 0);
        lemma_targets_faultless(mounts, i + 1);
    }
}

proof fn lemma_publications_faultless(pubs: Seq<RawPortPublication>, i: int)
    requires
        0 <= i,
    ensures
        publication_fault(pubs, i) is None <==> forall|j: int|
            i <= j < pubs.len() ==> {
                &&& (#[trigger] pubs[j]).protocol@ == "tcp"@ || pubs[j].protocol@ == "udp"@
                &&& !text::is_blank(pubs[j].host_ip@)
            },
    decreases pubs.len() - i,
{
    if i < pubs.len() {
        lemma_publications_faultless(pubs, i + 1);
    }
}

proof fn lemma_labels_faultless(labels: Seq<(Seq<char>, String)>, i: int)
    requires
        0 <= i,
    ensures
        label_fault(labels, i) is None <==> forall|j: int|
            i <= j < labels.len() ==> !"io.ananke."@.is_prefix_of((#[trigger] labels[j]).0),
    decreases labels.len() - i,
{
    if i < labels.len() {
        lemma_labels_faultless(labels, i + 1);
    }
}

proof fn lemma_names_faultless(names: Seq<String>, i: int)
    requires
        0 <= i,
    ensures
        passthrough_fault(names, i) is None <==> forall|j: int|
            i <= j < names.len() ==> !(#[trigger] names[j])@.contains('=') && !text::is_blank(
                names[j]@,
            ),
    decreases names.len() - i,
{
    if i < names.len() {
        lemma_names_faultless(names, i + 1);
    }
}

/// A device template is accepted exactly where the placeholder stands in it,
/// in one place only.
pub proof fn lemma_device_template(template: String)
    ensures
        device_fault(Some(template)) is None <==> exists|i: int|
            0 <= i <= template@.len() - 5 && #[trigger] template@.subrange(i, i + 5) == "${id}"@
                && forall|j: int|
                0 <= j <= template@.len() - 5 && #[trigger] template@.subrange(j, j + 5) == "${id}"@
                    ==> j == i,
{
    let s = template@;
    let p = "${id}"@;
    reveal_strlit("${id}");
    text::lemma_occurrences(s, p);
    assert forall|i: int, j: int|
        0 <= i < j < i + 5 && j <= s.len() - 5 && #[trigger] s.subrange(i, i + 5)
            == p implies #[trigger] s.subrange(j, j + 5) != p by {
        if s.subrange(j, j + 5) == p {
            assert(s.subrange(j, j + 5)[0] == s.subrange(i, i + 5)[j - i]);
            assert(p[0] == '$' && p[1] != '$' && p[2] != '$' && p[3] != '$' && p[4] != '$');
        }
    }
    if device_fault(Some(template)) is None {
        let i = choose|i: int| 0 <= i <= s.len() - 5 && #[trigger] s.subrange(i, i + 5) == p;
        assert forall|j: int|
            0 <= j <= s.len() - 5 && #[trigger] s.subrange(j, j + 5) == p implies j == i by {
            if j < i {
                assert(s.subrange(j, j + 5) == p && s.subrange(i, i + 5) == p);
            } else if i < j {
                assert(s.subrange(i, i + 5) == p && s.subrange(j, j + 5) == p);
            }
        }
    }
}

/// The mounts, publications, labels and variables of a block are accepted
/// exactly where every mount joins two absolute paths, relabels as `z` or
/// `Z` or not at all and shares its target with no other, every publication
/// is `tcp` or `udp` on an address that is named, no label lies in the
/// daemon's own namespace, and every variable that is handed through is a
/// name alone.
pub proof fn lemma_lists_accepted(
    raw: RawContainerConfig,
    mounts: Seq<RawContainerMount>,
    pubs: Seq<RawPortPublication>,
    labels: Seq<(Seq<char>, String)>,
    names: Seq<String>,
)
    requires
        settings_fault(raw) is None,
        raw.gpu_device is None,
        raw.mounts matches Some(m) ==> mounts == m@,
        raw.mounts is None ==> mounts.len() == 0,
        raw.extra_publications matches Some(p) ==> pubs == p@,
        raw.extra_publications is None ==> pubs.len() == 0,
        raw.labels matches Some(l) ==> labels == l.pairs(),
        raw.labels is None ==> labels.len() == 0,
        raw.env_passthrough matches Some(p) ==> names == p@,
        raw.env_passthrough is None ==> names.len() == 0,
    ensures
        container_fault(raw) is None <==> {
            &&& forall|j: int|
                0 <= j < mounts.len() ==> {
                    &&& (#[trigger] mounts[j]).source@.len() > 0 && mounts[j].source@[0] == '/'
                    &&& mounts[j].target@.len() > 0 && mounts[j].target@[0] == '/'
                    &&& mounts[j].selinux matches Some(s) ==> s@ == "z"@ || s@ == "Z"@
                }
            &&& forall|j: int, k: int|
                0 <= j < k < mounts.len() ==> (#[trigger] mounts[j]).target@ != (
                #[trigger] mounts[k]).target@
            &&& forall|j: int|
                0 <= j < pubs.len() ==> {
                    &&& (#[trigger] pubs[j]).protocol@ == "tcp"@ || pubs[j].protocol@ == "udp"@
                    &&& !text::is_blank(pubs[j].host_ip@)
                }
            &&& forall|j: int|
                0 <= j < labels.len() ==> !"io.ananke."@.is_prefix_of((#[trigger] labels[j]).0)
            &&& forall|j: int|
                0 <= j < names.len() ==> !(#[trigger] names[j])@.contains('=') && !text::is_blank(
                    names[j]@,
                )
        },
{
    assert(mounts =~= mounts_of(raw));
    assert(pubs =~= publications_of(raw));
    assert(labels =~= pairs_of(raw.labels));
    assert(names =~= passthrough_of(raw));
    lemma_mounts_faultless(mounts, 0);
    lemma_publications_faultless(pubs, 0);
    lemma_labels_faultless(labels, 0);
    lemma_names_faultless(names, 0);
    if repeat_fault(mounts, 0) is None {
        lemma_targets_distinct(mounts, 0);
    }
    if forall|j: int, k: int|
        0 <= j < k < mounts.len() ==> (#[trigger] mounts[j]).target@ != (
        #[trigger] mounts[k]).target@ {
        lemma_targets_faultless(mounts, 0);
    }
}

/// The settings of a block that stand alone are accepted exactly where it
/// names an image, spells runtime, network and IPC namespace in one of their
/// two ways or not at all, and has a container port on a bridge but neither
/// a port nor publications on the host's network. An unsound device
/// template is refused whatever else the block says.
pub proof fn lemma_settings_accepted(raw: RawContainerConfig)
    ensures
        settings_fault(raw) is None <==> {
            &&& raw.image matches Some(image) && image@.len() > 0
            &&& raw.runtime matches Some(s) ==> s@ == "docker"@ || s@ == "podman"@
            &&& raw.network matches Some(s) ==> s@ == "bridge"@ || s@ == "host"@
            &&& raw.ipc matches Some(s) ==> s@ == "private"@ || s@ == "host"@
            &&& raw.network is None || raw.network->0@ == "bridge"@ ==> raw.container_port is Some
            &&& raw.network is Some && raw.network->0@ == "host"@ ==> raw.container_port is None
                && (raw.extra_publications matches Some(p) ==> p@.len() == 0)
        },
        settings_fault(raw) is Some ==> container_fault(raw) == settings_fault(raw),
        container_fault(raw) is None ==> settings_fault(raw) is None && device_fault(raw.gpu_device)
            is None,
        raw.gpu_device is None ==> device_fault(raw.gpu_device) is None,
{
    reveal_strlit("bridge");
    reveal_strlit("host");
    assert("bridge"@.len() != "host"@.len());
}

/// The first faulty mount is the one that is reported, and for the first
/// rule it breaks: its source, then its target, then its label.
pub proof fn lemma_first_faulty_mount(mounts: Seq<RawContainerMount>, i: int)
    requires
        0 <= i,
        mounts.len() <= usize::MAX,
    ensures
        match mount_fault(mounts, i) {
            Some(ContainerFault::MountSourceRelative(k)) => {
                &&& i <= k < mounts.len()
                &&& mounts[k as int].source@.len() == 0 || mounts[k as int].source@[0] != '/'
                &&& mount_fault(mounts.take(k as int), i) is None
            },
            Some(ContainerFault::MountTargetRelative(k)) => {
                &&& i <= k < mounts.len()
                &&& mounts[k as int].target@.len() == 0 || mounts[k as int].target@[0] != '/'
                &&& mount_fault(mounts.take(k as int), i) is None
            },
            Some(ContainerFault::MountSelinuxUnknown(k)) => {
                &&& i <= k < mounts.len()
                &&& mounts[k as int].selinux matches Some(s) && s@ != "z"@ && s@ != "Z"@
                &&& mount_fault(mounts.take(k as int), i) is None
            },
            Some(_) => false,
            None => true,
        },
    decreases mounts.len() - i,
{
    if i < mounts.len() {
        lemma_first_faulty_mount(mounts, i + 1);
        if let Some(f) = mount_fault(mounts, i) {
            if mount_fault(mounts, i + 1) == Some(f) {
                let k = match f {
                    ContainerFault::MountSourceRelative(k) => k as int,
                    ContainerFault::MountTargetRelative(k) => k as int,
                    ContainerFault::MountSelinuxUnknown(k) => k as int,
                    _ => i,
                };
                if k > i {
                    assert(mounts.take(k)[i] == mounts[i]);
                }
            }
        }
    }
}

proof fn lemma_first_repeat(mounts: Seq<RawContainerMount>, i: int)
    requires
        0 <= i,
        mounts.len() <= usize::MAX,
    ensures
        match repeat_fault(mounts, i) {
            Some(ContainerFault::MountTargetRepeated { first, again }) => {
                &&& i <= again < mounts.len()
                &&& first < again
                &&& mounts[first as int].target@ == mounts[again as int].target@
            },
            Some(_) => false,
            None => true,
        },
    decreases mounts.len() - i,
{
    if i < mounts.len() {
        lemma_first_repeat(mounts, i + 1);
        lemma_target_found(mounts, mounts[i].target@, 0);
    }
}

proof fn lemma_first_faulty_publication(pubs: Seq<RawPortPublication>, i: int)
    requires
        0 <= i,
        pubs.len() <= usize::MAX,
    ensures
        match publication_fault(pubs, i) {
            Some(ContainerFault::PublicationProtocolUnknown(k)) => {
                &&& i <= k < pubs.len()
                &&& pubs[k as int].protocol@ != "tcp"@ && pubs[k as int].protocol@ != "udp"@
            },
            Some(ContainerFault::PublicationAddressBlank(k)) => {
                &&& i <= k < pubs.len()
                &&& text::is_blank(pubs[k as int].host_ip@)
            },
            Some(_) => false,
            None => true,
        },
    decreases pubs.len() - i,
{
    if i < pubs.len() {
        lemma_first_faulty_publication(pubs, i + 1);
    }
}

proof fn lemma_first_reserved_label(labels: Seq<(Seq<char>, String)>, i: int)
    requires
        0 <= i,
        labels.len() <= usize::MAX,
    ensures
        match label_fault(labels, i) {
            Some(ContainerFault::LabelReserved(k)) => {
                &&& i <= k < labels.len()
                &&& "io.ananke."@.is_prefix_of(labels[k as int].0)
            },
            Some(_) => false,
            None => true,
        },
    decreases labels.len() - i,
{
    if i < labels.len() {
        lemma_first_reserved_label(labels, i + 1);
    }
}

proof fn lemma_first_faulty_name(names: Seq<String>, i: int)
    requires
        0 <= i,
        names.len() <= usize::MAX,
    ensures
        match passthrough_fault(names, i) {
            Some(ContainerFault::PassthroughAssigns(k)) => {
                &&& i <= k < names.len()
                &&& names[k as int]@.contains('=')
            },
            Some(ContainerFault::PassthroughBlank(k)) => {
                &&& i <= k < names.len()
                &&& text::is_blank(names[k as int]@)
            },
            Some(_) => false,
            None => true,
        },
    decreases names.len() - i,
{
    if i < names.len() {
        lemma_first_faulty_name(names, i + 1);
    }
}

/// A fault that is reported stands in the block: the setting or the entry it
/// points at breaks the rule it names.
pub proof fn lemma_fault_is_real(
    raw: RawContainerConfig,
    mounts: Seq<RawContainerMount>,
    pubs: Seq<RawPortPublication>,
    labels: Seq<(Seq<char>, String)>,
    names: Seq<String>,
)
    requires
        raw.mounts matches Some(m) ==> mounts == m@,
        raw.mounts is None ==> mounts.len() == 0,
        raw.extra_publications matches Some(p) ==> pubs == p@,
        raw.extra_publications is None ==> pubs.len() == 0,
        raw.labels matches Some(l) ==> labels == l.pairs(),
        raw.labels is None ==> labels.len() == 0,
        raw.env_passthrough matches Some(p) ==> names == p@,
        raw.env_passthrough is None ==> names.len() == 0,
        mounts.len() <= usize::MAX,
        pubs.len() <= usize::MAX,
        labels.len() <= usize::MAX,
        names.len() <= usize::MAX,
    ensures
        match container_fault(raw) {
            Some(ContainerFault::ImageMissing) => raw.image is None,
            Some(ContainerFault::ImageEmpty) => raw.image matches Some(i) && i@.len() == 0,
            Some(ContainerFault::RuntimeUnknown) => raw.runtime matches Some(s) && s@ != "docker"@
                && s@ != "podman"@,
            Some(ContainerFault::NetworkUnknown) => raw.network matches Some(s) && s@ != "bridge"@
                && s@ != "host"@,
            Some(ContainerFault::IpcUnknown) => raw.ipc matches Some(s) && s@ != "private"@ && s@
                != "host"@,
            Some(ContainerFault::PortMissing) => raw.container_port is None && (raw.network
                is None || raw.network->0@ == "bridge"@),
            Some(ContainerFault::PortOnHost) => raw.container_port is Some && raw.network is Some
                && raw.network->0@ == "host"@,
            Some(ContainerFault::PublicationsOnHost) => pubs.len() > 0 && raw.network is Some
                && raw.network->0@ == "host"@,
            Some(ContainerFault::MountSourceRelative(k)) => k < mounts.len() && (
            mounts[k as int].source@.len() == 0 || mounts[k as int].source@[0] != '/'),
            Some(ContainerFault::MountTargetRelative(k)) => k < mounts.len() && (
            mounts[k as int].target@.len() == 0 || mounts[k as int].target@[0] != '/'),
            Some(ContainerFault::MountSelinuxUnknown(k)) => k < mounts.len() && (
            mounts[k as int].selinux matches Some(s) && s@ != "z"@ && s@ != "Z"@),
            Some(ContainerFault::MountTargetRepeated { first, again }) => first < again
                < mounts.len() && mounts[first as int].target@ == mounts[again as int].target@,
            Some(ContainerFault::PublicationProtocolUnknown(k)) => k < pubs.len()
                && pubs[k as int].protocol@ != "tcp"@ && pubs[k as int].protocol@ != "udp"@,
            Some(ContainerFault::PublicationAddressBlank(k)) => k < pubs.len() && text::is_blank(
                pubs[k as int].host_ip@,
            ),
            Some(ContainerFault::DevicePlaceholderMissing) => raw.gpu_device matches Some(t)
                && text::occurrences(t@, "${id}"@) == 0,
            Some(ContainerFault::DevicePlaceholderRepeated(_)) => raw.gpu_device matches Some(t)
                && text::occurrences(t@, "${id}"@) >= 2,
            Some(ContainerFault::LabelReserved(k)) => k < labels.len()
                && "io.ananke."@.is_prefix_of(labels[k as int].0),
            Some(ContainerFault::PassthroughAssigns(k)) => k < names.len()
                && names[k as int]@.contains('='),
            Some(ContainerFault::PassthroughBlank(k)) => k < names.len() && text::is_blank(
                names[k as int]@,
            ),
            None => true,
        },
{
    assert(mounts =~= mounts_of(raw));
    assert(pubs =~= publications_of(raw));
    assert(labels =~= pairs_of(raw.labels));
    assert(names =~= passthrough_of(raw));
    lemma_first_faulty_mount(mounts, 0);
    lemma_first_repeat(mounts, 0);
    lemma_first_faulty_publication(pubs, 0);
    lemma_first_reserved_label(labels, 0);
    lemma_first_faulty_name(names, 0);
}

/// A command on a bridge is accepted exactly where some argument or value
/// of a variable holds the address it is to bind, and some one its port.
/// On the host's network nothing is asked.
pub proof fn lemma_endpoint_consumed(
    name: Seq<char>,
    network: ContainerNetwork,
    command: Seq<String>,
    service_env: Seq<(Seq<char>, String)>,
    container_env: Seq<(Seq<char>, String)>,
)
    ensures
        network == ContainerNetwork::Host ==> endpoint_complaint(
            name,
            network,
            command,
            service_env,
            container_env,
        ) is None,
        network == ContainerNetwork::Bridge ==> (endpoint_complaint(
            name,
            network,
            command,
            service_env,
            container_env,
        ) is None <==> {
            &&& consumed(command, service_env, container_env, "${listen_host}"@)
            &&& consumed(command, service_env, container_env, "${listen_port}"@) || consumed(
                command,
                service_env,
                container_env,
                "${port}"@,
            )
        }),
        forall|needle: Seq<char>|
            consumed(command, service_env, container_env, needle) <==> {
                ||| exists|i: int| 0 <= i < command.len() && text::occurs((#[trigger] command[i])@, needle)
                ||| exists|i: int|
                    0 <= i < service_env.len() && text::occurs((#[trigger] service_env[i]).1@, needle)
                ||| exists|i: int|
                    0 <= i < container_env.len() && text::occurs(
                        (#[trigger] container_env[i]).1@,
                        needle,
                    )
            },
{
}

} // verus!
