//! Tables as the operator writes them, before any rule is applied.

use crate::config::container::{RawContainerConfig, RawContainerMount, RawPortPublication};
use crate::config::docs::DEFAULT_START_QUEUE_DEPTH;
use crate::config::value::{Float32, TomlValue};
use crate::text_map::TextMap;
use vstd::prelude::*;

verus! {

/// Whether `b` is `a`, cloned.
pub open spec fn kept<T: Clone>(a: Option<T>, b: Option<T>) -> bool {
    match (a, b) {
        (Some(x), Some(y)) => cloned(x, y),
        (None, None) => true,
        _ => false,
    }
}

/// A clone of an optional setting.
pub fn keep<T: Clone>(a: &Option<T>) -> (b: Option<T>)
    ensures
        kept(*a, b),
{
    match a {
        Some(x) => Some(x.clone()),
        None => None,
    }
}

/// Whether `r` is the setting of a service that has its own or, without
/// one, takes its parent's.
pub open spec fn inherited<T: Clone>(r: Option<T>, child: Option<T>, parent: Option<T>) -> bool {
    if child is Some {
        kept(child, r)
    } else {
        kept(parent, r)
    }
}

/// A service's own setting or, without one, its parent's.
pub fn inherit<T: Clone>(child: &Option<T>, parent: &Option<T>) -> (r: Option<T>)
    ensures
        inherited(r, *child, *parent),
{
    if child.is_some() {
        keep(child)
    } else {
        keep(parent)
    }
}

/// The `[service.tracking]` block: hints on where a service's processes live.
#[derive(Debug)]
pub struct RawTracking {
    /// Cgroup path under which the workload's processes live.
    pub cgroup_parent: Option<String>,
}

impl Clone for RawTracking {
    fn clone(&self) -> (r: Self)
        ensures
            kept(self.cgroup_parent, r.cgroup_parent),
    {
        RawTracking {
            cgroup_parent: keep(&self.cgroup_parent),
        }
    }
}

impl Default for RawTracking {
    /// Nothing written.
    fn default() -> (r: Self)
        ensures
            r.cgroup_parent is None,
    {
        RawTracking {
            cgroup_parent: None,
        }
    }
}

/// The `[service.filters]` block: what is changed in a request before it is
/// forwarded.
#[derive(Debug)]
pub struct RawFilters {
    /// Parameters taken out.
    pub strip_params: Option<Vec<String>>,
    /// Parameters put in.
    pub set_params: Option<TextMap<TomlValue>>,
}

impl Clone for RawFilters {
    fn clone(&self) -> (r: Self)
        ensures
            kept(self.strip_params, r.strip_params),
            kept(self.set_params, r.set_params),
    {
        RawFilters {
            strip_params: keep(&self.strip_params),
            set_params: keep(&self.set_params),
        }
    }
}

impl Default for RawFilters {
    /// Nothing written.
    fn default() -> (r: Self)
        ensures
            r.strip_params is None,
            r.set_params is None,
    {
        RawFilters {
            strip_params: None,
            set_params: None,
        }
    }
}

/// The `[service.devices]` block: placement and the GPUs allowed.
#[derive(Debug)]
pub struct RawServiceDevices {
    /// Placement policy.
    pub placement: Option<String>,
    /// GPUs the service may be placed on.
    pub gpu_allow: Option<Vec<u32>>,
    /// Reservations pinned per device, in MiB.
    pub placement_override: Option<TextMap<u64>>,
    /// Memory kept free on every GPU, in MiB.
    pub gpu_headroom_mb: Option<u64>,
    /// How the model is split across GPUs.
    pub split: Option<String>,
    /// Share of each GPU in a sharded split.
    pub tensor_split_weights: Option<Vec<Float32>>,
}

impl Clone for RawServiceDevices {
    fn clone(&self) -> (r: Self)
        ensures
            kept(self.placement, r.placement),
            kept(self.gpu_allow, r.gpu_allow),
            kept(self.placement_override, r.placement_override),
            kept(self.gpu_headroom_mb, r.gpu_headroom_mb),
            kept(self.split, r.split),
            kept(self.tensor_split_weights, r.tensor_split_weights),
    {
        RawServiceDevices {
            placement: keep(&self.placement),
            gpu_allow: keep(&self.gpu_allow),
            placement_override: keep(&self.placement_override),
            gpu_headroom_mb: keep(&self.gpu_headroom_mb),
            split: keep(&self.split),
            tensor_split_weights: keep(&self.tensor_split_weights),
        }
    }
}

impl Default for RawServiceDevices {
    /// Nothing written.
    fn default() -> (r: Self)
        ensures
            r.placement is None,
            r.gpu_allow is None,
            r.placement_override is None,
            r.gpu_headroom_mb is None,
            r.split is None,
            r.tensor_split_weights is None,
    {
        RawServiceDevices {
            placement: None,
            gpu_allow: None,
            placement_override: None,
            gpu_headroom_mb: None,
            split: None,
            tensor_split_weights: None,
        }
    }
}

/// The `[service.health]` block: the readiness probe.
#[derive(Debug)]
pub struct RawHealth {
    /// Path that is probed.
    pub http: Option<String>,
    /// How long a probe may take.
    pub timeout: Option<String>,
    /// How often the probe runs.
    pub probe_interval: Option<String>,
}

impl Clone for RawHealth {
    fn clone(&self) -> (r: Self)
        ensures
            kept(self.http, r.http),
            kept(self.timeout, r.timeout),
            kept(self.probe_interval, r.probe_interval),
    {
        RawHealth {
            http: keep(&self.http),
            timeout: keep(&self.timeout),
            probe_interval: keep(&self.probe_interval),
        }
    }
}

impl Default for RawHealth {
    /// Nothing written.
    fn default() -> (r: Self)
        ensures
            r.http is None,
            r.timeout is None,
            r.probe_interval is None,
    {
        RawHealth {
            http: None,
            timeout: None,
            probe_interval: None,
        }
    }
}

/// The `auto_restart` block: what restarts a service that stopped serving.
/// A trigger is a table of thresholds, or switched on or off.
#[derive(Debug)]
pub struct RawAutoRestart {
    /// Error-rate trigger.
    pub error_rate: Option<TomlValue>,
    /// Periodic trigger.
    pub periodic: Option<TomlValue>,
    /// First-token stall trigger.
    pub ttft_stall: Option<TomlValue>,
    /// Generation stall trigger.
    pub generation_stall: Option<TomlValue>,
    /// Speculation collapse trigger.
    pub spec_collapse: Option<TomlValue>,
    /// Uptime before another restart may fire.
    pub min_uptime: Option<String>,
    /// Restarts tolerated within the window.
    pub max_restarts: Option<u32>,
    /// Window over which restarts are counted.
    pub flap_window: Option<String>,
}

impl Clone for RawAutoRestart {
    fn clone(&self) -> (r: Self)
        ensures
            kept(self.error_rate, r.error_rate),
            kept(self.periodic, r.periodic),
            kept(self.ttft_stall, r.ttft_stall),
            kept(self.generation_stall, r.generation_stall),
            kept(self.spec_collapse, r.spec_collapse),
            kept(self.min_uptime, r.min_uptime),
            kept(self.max_restarts, r.max_restarts),
            kept(self.flap_window, r.flap_window),
    {
        RawAutoRestart {
            error_rate: keep(&self.error_rate),
            periodic: keep(&self.periodic),
            ttft_stall: keep(&self.ttft_stall),
            generation_stall: keep(&self.generation_stall),
            spec_collapse: keep(&self.spec_collapse),
            min_uptime: keep(&self.min_uptime),
            max_restarts: keep(&self.max_restarts),
            flap_window: keep(&self.flap_window),
        }
    }
}

impl Default for RawAutoRestart {
    /// Nothing written.
    fn default() -> (r: Self)
        ensures
            r.error_rate is None,
            r.periodic is None,
            r.ttft_stall is None,
            r.generation_stall is None,
            r.spec_collapse is None,
            r.min_uptime is None,
            r.max_restarts is None,
            r.flap_window is None,
    {
        RawAutoRestart {
            error_rate: None,
            periodic: None,
            ttft_stall: None,
            generation_stall: None,
            spec_collapse: None,
            min_uptime: None,
            max_restarts: None,
            flap_window: None,
        }
    }
}

/// The `allocation` block: a reservation the operator declares.
#[derive(Debug)]
pub struct RawAllocation {
    /// `"static"` or `"dynamic"`.
    pub mode: Option<String>,
    /// Reservation, in GiB.
    pub reserve_gb: Option<Float32>,
    /// Least reservation, in GiB.
    pub min_reserve_gb: Option<Float32>,
    /// Largest reservation, in GiB.
    pub max_reserve_gb: Option<Float32>,
    /// Runtime before a borrower may be stopped.
    pub min_borrower_runtime: Option<String>,
}

impl Clone for RawAllocation {
    fn clone(&self) -> (r: Self)
        ensures
            kept(self.mode, r.mode),
            kept(self.reserve_gb, r.reserve_gb),
            kept(self.min_reserve_gb, r.min_reserve_gb),
            kept(self.max_reserve_gb, r.max_reserve_gb),
            kept(self.min_borrower_runtime, r.min_borrower_runtime),
    {
        RawAllocation {
            mode: keep(&self.mode),
            reserve_gb: keep(&self.reserve_gb),
            min_reserve_gb: keep(&self.min_reserve_gb),
            max_reserve_gb: keep(&self.max_reserve_gb),
            min_borrower_runtime: keep(&self.min_borrower_runtime),
        }
    }
}

impl Default for RawAllocation {
    /// Nothing written.
    fn default() -> (r: Self)
        ensures
            r.mode is None,
            r.reserve_gb is None,
            r.min_reserve_gb is None,
            r.max_reserve_gb is None,
            r.min_borrower_runtime is None,
    {
        RawAllocation {
            mode: None,
            reserve_gb: None,
            min_reserve_gb: None,
            max_reserve_gb: None,
            min_borrower_runtime: None,
        }
    }
}

/// The `[service.openai_proxy]` block: the upstream a command fronts.
#[derive(Debug)]
pub struct RawOpenAiProxy {
    /// Model name the upstream is asked for.
    pub upstream_model: Option<String>,
}

impl Clone for RawOpenAiProxy {
    fn clone(&self) -> (r: Self)
        ensures
            kept(self.upstream_model, r.upstream_model),
    {
        RawOpenAiProxy {
            upstream_model: keep(&self.upstream_model),
        }
    }
}

impl Default for RawOpenAiProxy {
    /// Nothing written.
    fn default() -> (r: Self)
        ensures
            r.upstream_model is None,
    {
        RawOpenAiProxy {
            upstream_model: None,
        }
    }
}

/// Settings every service has.
#[derive(Debug)]
pub struct RawServiceCommon {
    /// Service name.
    pub name: Option<String>,
    /// Service whose settings are taken where this one has none.
    pub extends: Option<String>,
    /// Name the service had before.
    pub migrate_from: Option<String>,
    /// Public port.
    pub port: Option<u16>,
    /// When the service starts and stops.
    pub lifecycle: Option<String>,
    /// Start priority.
    pub priority: Option<u8>,
    /// How long an idle service stays up.
    pub idle_timeout: Option<String>,
    /// Description shown to clients.
    pub description: Option<String>,
    /// What the service serves: `"chat"` or `"embedding"`.
    pub modality: Option<String>,
    /// What is changed in requests.
    pub filters: Option<RawFilters>,
    /// What clients are told beside.
    pub metadata: Option<TextMap<TomlValue>>,
    /// Placement.
    pub devices: Option<RawServiceDevices>,
    /// Arguments appended to the command line.
    pub extra_args: Option<Vec<String>>,
    /// Arguments appended behind inherited ones.
    pub extra_args_append: Option<Vec<String>>,
    /// Variables set for the child.
    pub env: Option<TextMap<String>>,
    /// Whether the child sees the daemon's variables.
    pub env_inherit: Option<bool>,
    /// Readiness probe.
    pub health: Option<RawHealth>,
    /// How long a draining service may take.
    pub drain_timeout: Option<String>,
    /// How long streams may outlast it.
    pub extended_stream_drain: Option<String>,
    /// Longest a request may take.
    pub max_request_duration: Option<String>,
    /// Requests that may wait for a start.
    pub start_queue_depth: Option<usize>,
    /// Where the service's processes live.
    pub tracking: Option<RawTracking>,
    /// What restarts the service; taken as a whole.
    pub auto_restart: Option<RawAutoRestart>,
}

impl Clone for RawServiceCommon {
    fn clone(&self) -> (r: Self)
        ensures
            kept(self.name, r.name),
            kept(self.extends, r.extends),
            kept(self.migrate_from, r.migrate_from),
            kept(self.port, r.port),
            kept(self.lifecycle, r.lifecycle),
            kept(self.priority, r.priority),
            kept(self.idle_timeout, r.idle_timeout),
            kept(self.description, r.description),
            kept(self.modality, r.modality),
            kept(self.filters, r.filters),
            kept(self.metadata, r.metadata),
            kept(self.devices, r.devices),
            kept(self.extra_args, r.extra_args),
            kept(self.extra_args_append, r.extra_args_append),
            kept(self.env, r.env),
            kept(self.env_inherit, r.env_inherit),
            kept(self.health, r.health),
            kept(self.drain_timeout, r.drain_timeout),
            kept(self.extended_stream_drain, r.extended_stream_drain),
            kept(self.max_request_duration, r.max_request_duration),
            kept(self.start_queue_depth, r.start_queue_depth),
            kept(self.tracking, r.tracking),
            kept(self.auto_restart, r.auto_restart),
    {
        RawServiceCommon {
            name: keep(&self.name),
            extends: keep(&self.extends),
            migrate_from: keep(&self.migrate_from),
            port: keep(&self.port),
            lifecycle: keep(&self.lifecycle),
            priority: keep(&self.priority),
            idle_timeout: keep(&self.idle_timeout),
            description: keep(&self.description),
            modality: keep(&self.modality),
            filters: keep(&self.filters),
            metadata: keep(&self.metadata),
            devices: keep(&self.devices),
            extra_args: keep(&self.extra_args),
            extra_args_append: keep(&self.extra_args_append),
            env: keep(&self.env),
            env_inherit: keep(&self.env_inherit),
            health: keep(&self.health),
            drain_timeout: keep(&self.drain_timeout),
            extended_stream_drain: keep(&self.extended_stream_drain),
            max_request_duration: keep(&self.max_request_duration),
            start_queue_depth: keep(&self.start_queue_depth),
            tracking: keep(&self.tracking),
            auto_restart: keep(&self.auto_restart),
        }
    }
}

/// Whether no setting was written.
pub open spec fn blank_common(c: RawServiceCommon) -> bool {
    &&& c.name is None
    &&& c.extends is None
    &&& c.migrate_from is None
    &&& c.port is None
    &&& c.lifecycle is None
    &&& c.priority is None
    &&& c.idle_timeout is None
    &&& c.description is None
    &&& c.modality is None
    &&& c.filters is None
    &&& c.metadata is None
    &&& c.devices is None
    &&& c.extra_args is None
    &&& c.extra_args_append is None
    &&& c.env is None
    &&& c.env_inherit is None
    &&& c.health is None
    &&& c.drain_timeout is None
    &&& c.extended_stream_drain is None
    &&& c.max_request_duration is None
    &&& c.start_queue_depth is None
    &&& c.tracking is None
    &&& c.auto_restart is None
}

impl Default for RawServiceCommon {
    /// Nothing written.
    fn default() -> (r: Self)
        ensures
            r.name is None,
            r.extends is None,
            r.migrate_from is None,
            r.port is None,
            r.lifecycle is None,
            r.priority is None,
            r.idle_timeout is None,
            r.description is None,
            r.modality is None,
            r.filters is None,
            r.metadata is None,
            r.devices is None,
            r.extra_args is None,
            r.extra_args_append is None,
            r.env is None,
            r.env_inherit is None,
            r.health is None,
            r.drain_timeout is None,
            r.extended_stream_drain is None,
            r.max_request_duration is None,
            r.start_queue_depth is None,
            r.tracking is None,
            r.auto_restart is None,
    {
        RawServiceCommon {
            name: None,
            extends: None,
            migrate_from: None,
            port: None,
            lifecycle: None,
            priority: None,
            idle_timeout: None,
            description: None,
            modality: None,
            filters: None,
            metadata: None,
            devices: None,
            extra_args: None,
            extra_args_append: None,
            env: None,
            env_inherit: None,
            health: None,
            drain_timeout: None,
            extended_stream_drain: None,
            max_request_duration: None,
            start_queue_depth: None,
            tracking: None,
            auto_restart: None,
        }
    }
}

/// A service that runs a command.
#[derive(Debug)]
pub struct RawCommandService {
    /// What every service has.
    pub common: RawServiceCommon,
    /// What is executed.
    pub command: Option<Vec<String>>,
    /// Where it is executed.
    pub workdir: Option<String>,
    /// Declared reservation.
    pub allocation: Option<RawAllocation>,
    /// Port the proxy forwards to.
    pub private_port: Option<u16>,
    /// What is executed once the service is drained.
    pub shutdown_command: Option<Vec<String>>,
    /// Upstream the service fronts.
    pub openai_proxy: Option<RawOpenAiProxy>,
    /// Container it runs in.
    pub container: Option<RawContainerConfig>,
}

impl Clone for RawCommandService {
    fn clone(&self) -> (r: Self)
        ensures
            cloned(self.common, r.common),
            kept(self.command, r.command),
            kept(self.workdir, r.workdir),
            kept(self.allocation, r.allocation),
            kept(self.private_port, r.private_port),
            kept(self.shutdown_command, r.shutdown_command),
            kept(self.openai_proxy, r.openai_proxy),
            kept(self.container, r.container),
    {
        RawCommandService {
            common: self.common.clone(),
            command: keep(&self.command),
            workdir: keep(&self.workdir),
            allocation: keep(&self.allocation),
            private_port: keep(&self.private_port),
            shutdown_command: keep(&self.shutdown_command),
            openai_proxy: keep(&self.openai_proxy),
            container: keep(&self.container),
        }
    }
}

impl Default for RawCommandService {
    /// Nothing written.
    fn default() -> (r: Self)
        ensures
            blank_common(r.common),
            r.command is None,
            r.workdir is None,
            r.allocation is None,
            r.private_port is None,
            r.shutdown_command is None,
            r.openai_proxy is None,
            r.container is None,
    {
        RawCommandService {
            common: RawServiceCommon::default(),
            command: None,
            workdir: None,
            allocation: None,
            private_port: None,
            shutdown_command: None,
            openai_proxy: None,
            container: None,
        }
    }
}

/// A service that runs llama.cpp.
#[derive(Debug)]
pub struct RawLlamaCppService {
    /// What every service has.
    pub common: RawServiceCommon,
    /// Path of the model.
    pub model: Option<String>,
    /// Path of a vision projector.
    pub mmproj: Option<String>,
    /// Context window.
    pub context: Option<u32>,
    /// Layers on the GPU.
    pub n_gpu_layers: Option<i32>,
    /// Expert offload policy: a word or a layer count.
    pub expert_offload: Option<TomlValue>,
    /// Which llama.cpp serves, and its settings.
    pub runtime: Option<TomlValue>,
    /// Flash attention.
    pub flash_attn: Option<bool>,
    /// Cache type of the keys.
    pub cache_type_k: Option<String>,
    /// Cache type of the values.
    pub cache_type_v: Option<String>,
    /// Whether the model is mapped.
    pub mmap: Option<bool>,
    /// Whether the model is locked in memory.
    pub mlock: Option<bool>,
    /// Parallel slots.
    pub parallel: Option<u32>,
    /// Speculative decoding mechanism.
    pub spec_type: Option<String>,
    /// Most drafted tokens per step.
    pub spec_draft_n_max: Option<u32>,
    /// Path of a separate draft model.
    pub draft_model: Option<String>,
    /// Whether the slots share one cache.
    pub kv_unified: Option<bool>,
    /// Whether idle slots keep their prompt.
    pub cache_idle_slots: Option<bool>,
    /// Prompt-cache cap, in MiB.
    pub cache_ram_mb: Option<u32>,
    /// Metrics endpoint.
    pub metrics: Option<bool>,
    /// Slots endpoint.
    pub slots: Option<bool>,
    /// Context batch size.
    pub batch_size: Option<u32>,
    /// Physical batch size.
    pub ubatch_size: Option<u32>,
    /// Threads for generation.
    pub threads: Option<u32>,
    /// Threads for prompts.
    pub threads_batch: Option<u32>,
    /// NUMA placement.
    pub numa: Option<String>,
    /// Jinja chat templates.
    pub jinja: Option<bool>,
    /// Path of a chat template.
    pub chat_template_file: Option<String>,
    /// Rules that pin tensors to devices.
    pub override_tensor: Option<Vec<String>>,
    /// Sampling settings.
    pub sampling: Option<TomlValue>,
    /// Estimator overrides.
    pub estimation: Option<TomlValue>,
    /// Path of the executable.
    pub llama_server: Option<String>,
    /// Command line that replaces the usual one.
    pub launcher: Option<Vec<String>>,
    /// Declared reservation.
    pub allocation: Option<RawAllocation>,
    /// Container it runs in.
    pub container: Option<RawContainerConfig>,
}

impl Clone for RawLlamaCppService {
    fn clone(&self) -> (r: Self)
        ensures
            cloned(self.common, r.common),
            kept(self.model, r.model),
            kept(self.mmproj, r.mmproj),
            kept(self.context, r.context),
            kept(self.n_gpu_layers, r.n_gpu_layers),
            kept(self.expert_offload, r.expert_offload),
            kept(self.runtime, r.runtime),
            kept(self.flash_attn, r.flash_attn),
            kept(self.cache_type_k, r.cache_type_k),
            kept(self.cache_type_v, r.cache_type_v),
            kept(self.mmap, r.mmap),
            kept(self.mlock, r.mlock),
            kept(self.parallel, r.parallel),
            kept(self.spec_type, r.spec_type),
            kept(self.spec_draft_n_max, r.spec_draft_n_max),
            kept(self.draft_model, r.draft_model),
            kept(self.kv_unified, r.kv_unified),
            kept(self.cache_idle_slots, r.cache_idle_slots),
            kept(self.cache_ram_mb, r.cache_ram_mb),
            kept(self.metrics, r.metrics),
            kept(self.slots, r.slots),
            kept(self.batch_size, r.batch_size),
            kept(self.ubatch_size, r.ubatch_size),
            kept(self.threads, r.threads),
            kept(self.threads_batch, r.threads_batch),
            kept(self.numa, r.numa),
            kept(self.jinja, r.jinja),
            kept(self.chat_template_file, r.chat_template_file),
            kept(self.override_tensor, r.override_tensor),
            kept(self.sampling, r.sampling),
            kept(self.estimation, r.estimation),
            kept(self.llama_server, r.llama_server),
            kept(self.launcher, r.launcher),
            kept(self.allocation, r.allocation),
            kept(self.container, r.container),
    {
        RawLlamaCppService {
            common: self.common.clone(),
            model: keep(&self.model),
            mmproj: keep(&self.mmproj),
            context: keep(&self.context),
            n_gpu_layers: keep(&self.n_gpu_layers),
            expert_offload: keep(&self.expert_offload),
            runtime: keep(&self.runtime),
            flash_attn: keep(&self.flash_attn),
            cache_type_k: keep(&self.cache_type_k),
            cache_type_v: keep(&self.cache_type_v),
            mmap: keep(&self.mmap),
            mlock: keep(&self.mlock),
            parallel: keep(&self.parallel),
            spec_type: keep(&self.spec_type),
            spec_draft_n_max: keep(&self.spec_draft_n_max),
            draft_model: keep(&self.draft_model),
            kv_unified: keep(&self.kv_unified),
            cache_idle_slots: keep(&self.cache_idle_slots),
            cache_ram_mb: keep(&self.cache_ram_mb),
            metrics: keep(&self.metrics),
            slots: keep(&self.slots),
            batch_size: keep(&self.batch_size),
            ubatch_size: keep(&self.ubatch_size),
            threads: keep(&self.threads),
            threads_batch: keep(&self.threads_batch),
            numa: keep(&self.numa),
            jinja: keep(&self.jinja),
            chat_template_file: keep(&self.chat_template_file),
            override_tensor: keep(&self.override_tensor),
            sampling: keep(&self.sampling),
            estimation: keep(&self.estimation),
            llama_server: keep(&self.llama_server),
            launcher: keep(&self.launcher),
            allocation: keep(&self.allocation),
            container: keep(&self.container),
        }
    }
}

impl Default for RawLlamaCppService {
    /// Nothing written.
    fn default() -> (r: Self)
        ensures
            blank_common(r.common),
            r.model is None,
            r.mmproj is None,
            r.context is None,
            r.n_gpu_layers is None,
            r.expert_offload is None,
            r.runtime is None,
            r.flash_attn is None,
            r.cache_type_k is None,
            r.cache_type_v is None,
            r.mmap is None,
            r.mlock is None,
            r.parallel is None,
            r.spec_type is None,
            r.spec_draft_n_max is None,
            r.draft_model is None,
            r.kv_unified is None,
            r.cache_idle_slots is None,
            r.cache_ram_mb is None,
            r.metrics is None,
            r.slots is None,
            r.batch_size is None,
            r.ubatch_size is None,
            r.threads is None,
            r.threads_batch is None,
            r.numa is None,
            r.jinja is None,
            r.chat_template_file is None,
            r.override_tensor is None,
            r.sampling is None,
            r.estimation is None,
            r.llama_server is None,
            r.launcher is None,
            r.allocation is None,
            r.container is None,
    {
        RawLlamaCppService {
            common: RawServiceCommon::default(),
            model: None,
            mmproj: None,
            context: None,
            n_gpu_layers: None,
            expert_offload: None,
            runtime: None,
            flash_attn: None,
            cache_type_k: None,
            cache_type_v: None,
            mmap: None,
            mlock: None,
            parallel: None,
            spec_type: None,
            spec_draft_n_max: None,
            draft_model: None,
            kv_unified: None,
            cache_idle_slots: None,
            cache_ram_mb: None,
            metrics: None,
            slots: None,
            batch_size: None,
            ubatch_size: None,
            threads: None,
            threads_batch: None,
            numa: None,
            jinja: None,
            chat_template_file: None,
            override_tensor: None,
            sampling: None,
            estimation: None,
            llama_server: None,
            launcher: None,
            allocation: None,
            container: None,
        }
    }
}

impl Clone for RawContainerConfig {
    fn clone(&self) -> (r: Self)
        ensures
            kept(self.runtime, r.runtime),
            kept(self.runtime_executable, r.runtime_executable),
            kept(self.image, r.image),
            kept(self.entrypoint, r.entrypoint),
            kept(self.workdir, r.workdir),
            kept(self.network, r.network),
            kept(self.container_port, r.container_port),
            kept(self.ipc, r.ipc),
            kept(self.gpu_device, r.gpu_device),
            kept(self.mounts, r.mounts),
            kept(self.extra_publications, r.extra_publications),
            kept(self.env, r.env),
            kept(self.env_passthrough, r.env_passthrough),
            kept(self.labels, r.labels),
    {
        RawContainerConfig {
            runtime: keep(&self.runtime),
            runtime_executable: keep(&self.runtime_executable),
            image: keep(&self.image),
            entrypoint: keep(&self.entrypoint),
            workdir: keep(&self.workdir),
            network: keep(&self.network),
            container_port: keep(&self.container_port),
            ipc: keep(&self.ipc),
            gpu_device: keep(&self.gpu_device),
            mounts: keep(&self.mounts),
            extra_publications: keep(&self.extra_publications),
            env: keep(&self.env),
            env_passthrough: keep(&self.env_passthrough),
            labels: keep(&self.labels),
        }
    }
}

impl Default for RawContainerConfig {
    /// Nothing written.
    fn default() -> (r: Self)
        ensures
            r.runtime is None,
            r.runtime_executable is None,
            r.image is None,
            r.entrypoint is None,
            r.workdir is None,
            r.network is None,
            r.container_port is None,
            r.ipc is None,
            r.gpu_device is None,
            r.mounts is None,
            r.extra_publications is None,
            r.env is None,
            r.env_passthrough is None,
            r.labels is None,
    {
        RawContainerConfig {
            runtime: None,
            runtime_executable: None,
            image: None,
            entrypoint: None,
            workdir: None,
            network: None,
            container_port: None,
            ipc: None,
            gpu_device: None,
            mounts: None,
            extra_publications: None,
            env: None,
            env_passthrough: None,
            labels: None,
        }
    }
}

impl Clone for RawContainerMount {
    fn clone(&self) -> (r: Self)
        ensures
            r == *self,
    {
        RawContainerMount {
            source: self.source.clone(),
            target: self.target.clone(),
            read_only: self.read_only,
            selinux: self.selinux.clone(),
        }
    }
}

impl Clone for RawPortPublication {
    fn clone(&self) -> (r: Self)
        ensures
            r == *self,
    {
        RawPortPublication {
            host_ip: self.host_ip.clone(),
            host_port: self.host_port,
            container_port: self.container_port,
            protocol: self.protocol.clone(),
        }
    }
}

/// A service, by its template.
#[derive(Debug)]
pub enum RawService {
    /// A llama.cpp service.
    LlamaCpp(Box<RawLlamaCppService>),
    /// A command under the daemon's lifecycle.
    Command(Box<RawCommandService>),
}

/// The whole config.
#[derive(Debug)]
pub struct RawConfig {
    pub services: Vec<RawService>,
}

impl RawService {
    /// What every service has.
    pub open spec fn shared(&self) -> RawServiceCommon {
        match self {
            RawService::LlamaCpp(s) => s.common,
            RawService::Command(s) => s.common,
        }
    }

    /// What every service has.
    pub fn common(&self) -> (r: &RawServiceCommon)
        ensures
            *r == self.shared(),
    {
        match self {
            RawService::LlamaCpp(s) => &s.common,
            RawService::Command(s) => &s.common,
        }
    }

    /// The service with `common` in place of what every service has.
    pub open spec fn with_shared(self, common: RawServiceCommon) -> RawService {
        match self {
            RawService::LlamaCpp(s) => RawService::LlamaCpp(
                Box::new(RawLlamaCppService { common, ..*s }),
            ),
            RawService::Command(s) => RawService::Command(
                Box::new(RawCommandService { common, ..*s }),
            ),
        }
    }

    /// What every service has, to be changed in place.
    pub fn common_mut(&mut self) -> (r: &mut RawServiceCommon)
        ensures
            *r == old(self).shared(),
            *final(self) == old(self).with_shared(*final(r)),
    {
        match self {
            RawService::LlamaCpp(s) => &mut s.common,
            RawService::Command(s) => &mut s.common,
        }
    }

    /// The word that selects the template.
    pub open spec fn template(&self) -> Seq<char> {
        match self {
            RawService::LlamaCpp(_) => "llama-cpp"@,
            RawService::Command(_) => "command"@,
        }
    }

    /// The word that selects the template.
    pub fn template_label(&self) -> (r: &'static str)
        ensures
            r@ == self.template(),
    {
        match self {
            RawService::LlamaCpp(_) => "llama-cpp",
            RawService::Command(_) => "command",
        }
    }

    /// How many start requests may wait.
    pub fn start_queue_depth(&self) -> (r: usize)
        ensures
            r == (match self.shared().start_queue_depth {
                Some(n) => n,
                None => DEFAULT_START_QUEUE_DEPTH,
            }),
    {
        match self.common().start_queue_depth {
            Some(n) => n,
            None => DEFAULT_START_QUEUE_DEPTH,
        }
    }
}

/// Whether `b` is `a`, cloned.
pub open spec fn service_kept(a: RawService, b: RawService) -> bool {
    match a {
        RawService::LlamaCpp(x) => b matches RawService::LlamaCpp(y) && cloned(*x, *y),
        RawService::Command(x) => b matches RawService::Command(y) && cloned(*x, *y),
    }
}

impl Clone for RawService {
    fn clone(&self) -> (r: Self)
        ensures
            service_kept(*self, r),
    {
        match self {
            RawService::LlamaCpp(s) => RawService::LlamaCpp(Box::new((**s).clone())),
            RawService::Command(s) => RawService::Command(Box::new((**s).clone())),
        }
    }
}

/// What every service has can be replaced, and nothing else changes.
pub proof fn lemma_shared_replaced(s: RawService, common: RawServiceCommon)
    ensures
        s.with_shared(common).shared() == common,
        s.with_shared(s.shared()) == s,
        s matches RawService::LlamaCpp(x) ==> s.shared() == x.common && (s.with_shared(
            common,
        ) matches RawService::LlamaCpp(y) && *y == (RawLlamaCppService { common, ..*x })),
        s matches RawService::Command(x) ==> s.shared() == x.common && (s.with_shared(
            common,
        ) matches RawService::Command(y) && *y == (RawCommandService { common, ..*x })),
{
}

} // verus!
