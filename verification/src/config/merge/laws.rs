//! What a resolved service has from its own table, and what from others.

use crate::config::container::RawContainerConfig;
use crate::config::error::ExpectedError;
use crate::config::merge;
use crate::config::merge::fields;
use crate::config::merge::resolve;
use crate::config::raw;
use crate::config::raw::{
    RawAllocation, RawAutoRestart, RawCommandService, RawFilters, RawHealth, RawLlamaCppService,
    RawOpenAiProxy, RawService, RawServiceCommon, RawServiceDevices, RawTracking,
};
use crate::config::value::{same_toml, TomlValue};
use crate::text_map;
use crate::text_map::TextMap;
use vstd::prelude::*;

verus! {

proof fn lemma_texts_cloned(a: Vec<String>, b: Vec<String>)
    requires
        cloned(a, b),
    ensures
        a@ == b@,
{
    assert(a@ =~= b@);
}

proof fn lemma_variables_cloned(a: TextMap<String>, b: TextMap<String>)
    requires
        cloned(a, b),
    ensures
        a.pairs() == b.pairs(),
{
    assert(a.pairs() =~= b.pairs());
}

proof fn lemma_value_cloned(a: TomlValue, b: TomlValue)
    requires
        cloned(a, b),
    ensures
        same_toml(a, b),
{
    if a == b {
        lemma_same_as_itself(a);
    }
}

proof fn lemma_same_as_itself(a: TomlValue)
    ensures
        same_toml(a, a),
    decreases a,
{
    match a {
        TomlValue::Array(x) => {
            assert forall|i: int| 0 <= i < x@.len() implies same_toml(#[trigger] x@[i], x@[i]) by {
                lemma_same_as_itself(x@[i]);
            }
        },
        TomlValue::Table(x) => {
            assert forall|i: int| 0 <= i < x@.len() implies (#[trigger] x@[i]).0@ == x@[i].0@
                && same_toml(x@[i].1, x@[i].1) by {
                lemma_same_as_itself(x@[i].1);
            }
        },
        _ => {},
    }
}

/// Tracking hints are taken over as a whole.
pub proof fn lemma_tracking_kept(a: RawTracking, b: RawTracking)
    requires
        cloned(a, b),
    ensures
        a.cgroup_parent is Some ==> b.cgroup_parent == a.cgroup_parent,
        a.cgroup_parent is None ==> b.cgroup_parent is None,
{
}

/// Filters are taken over as a whole.
pub proof fn lemma_filters_kept(a: RawFilters, b: RawFilters)
    requires
        cloned(a, b),
    ensures
        a.strip_params is Some ==> b.strip_params is Some && b.strip_params->0@ == a.strip_params->0@,
        a.strip_params is None ==> b.strip_params is None,
        a.set_params is Some ==> b.set_params is Some && cloned(a.set_params->0, b.set_params->0),
        a.set_params is None ==> b.set_params is None,
{
    if a.strip_params is Some {
        lemma_texts_cloned(a.strip_params->0, b.strip_params->0);
    }
}

/// Placement settings are taken over as a whole.
pub proof fn lemma_devices_kept(a: RawServiceDevices, b: RawServiceDevices)
    requires
        cloned(a, b),
    ensures
        a.placement is Some ==> b.placement == a.placement,
        a.placement is None ==> b.placement is None,
        a.gpu_headroom_mb is Some ==> b.gpu_headroom_mb == a.gpu_headroom_mb,
        a.gpu_headroom_mb is None ==> b.gpu_headroom_mb is None,
        a.split is Some ==> b.split == a.split,
        a.split is None ==> b.split is None,
        a.gpu_allow is Some ==> b.gpu_allow is Some && cloned(a.gpu_allow->0, b.gpu_allow->0),
        a.gpu_allow is None ==> b.gpu_allow is None,
        a.placement_override is Some ==> b.placement_override is Some && cloned(a.placement_override->0, b.placement_override->0),
        a.placement_override is None ==> b.placement_override is None,
        a.tensor_split_weights is Some ==> b.tensor_split_weights is Some && cloned(a.tensor_split_weights->0, b.tensor_split_weights->0),
        a.tensor_split_weights is None ==> b.tensor_split_weights is None,
{
}

/// A readiness probe is taken over as a whole.
pub proof fn lemma_health_kept(a: RawHealth, b: RawHealth)
    requires
        cloned(a, b),
    ensures
        a.http is Some ==> b.http == a.http,
        a.http is None ==> b.http is None,
        a.timeout is Some ==> b.timeout == a.timeout,
        a.timeout is None ==> b.timeout is None,
        a.probe_interval is Some ==> b.probe_interval == a.probe_interval,
        a.probe_interval is None ==> b.probe_interval is None,
{
}

/// Restart settings are taken over as a whole.
pub proof fn lemma_restarts_kept(a: RawAutoRestart, b: RawAutoRestart)
    requires
        cloned(a, b),
    ensures
        a.error_rate is Some ==> b.error_rate is Some && same_toml(a.error_rate->0, b.error_rate->0),
        a.error_rate is None ==> b.error_rate is None,
        a.periodic is Some ==> b.periodic is Some && same_toml(a.periodic->0, b.periodic->0),
        a.periodic is None ==> b.periodic is None,
        a.ttft_stall is Some ==> b.ttft_stall is Some && same_toml(a.ttft_stall->0, b.ttft_stall->0),
        a.ttft_stall is None ==> b.ttft_stall is None,
        a.generation_stall is Some ==> b.generation_stall is Some && same_toml(a.generation_stall->0, b.generation_stall->0),
        a.generation_stall is None ==> b.generation_stall is None,
        a.spec_collapse is Some ==> b.spec_collapse is Some && same_toml(a.spec_collapse->0, b.spec_collapse->0),
        a.spec_collapse is None ==> b.spec_collapse is None,
        a.min_uptime is Some ==> b.min_uptime == a.min_uptime,
        a.min_uptime is None ==> b.min_uptime is None,
        a.max_restarts is Some ==> b.max_restarts == a.max_restarts,
        a.max_restarts is None ==> b.max_restarts is None,
        a.flap_window is Some ==> b.flap_window == a.flap_window,
        a.flap_window is None ==> b.flap_window is None,
{
    if a.error_rate is Some {
        lemma_value_cloned(a.error_rate->0, b.error_rate->0);
    }
    if a.periodic is Some {
        lemma_value_cloned(a.periodic->0, b.periodic->0);
    }
    if a.ttft_stall is Some {
        lemma_value_cloned(a.ttft_stall->0, b.ttft_stall->0);
    }
    if a.generation_stall is Some {
        lemma_value_cloned(a.generation_stall->0, b.generation_stall->0);
    }
    if a.spec_collapse is Some {
        lemma_value_cloned(a.spec_collapse->0, b.spec_collapse->0);
    }
}

/// A reservation is taken over as a whole.
pub proof fn lemma_allocation_kept(a: RawAllocation, b: RawAllocation)
    requires
        cloned(a, b),
    ensures
        a.mode is Some ==> b.mode == a.mode,
        a.mode is None ==> b.mode is None,
        a.reserve_gb is Some ==> b.reserve_gb == a.reserve_gb,
        a.reserve_gb is None ==> b.reserve_gb is None,
        a.min_reserve_gb is Some ==> b.min_reserve_gb == a.min_reserve_gb,
        a.min_reserve_gb is None ==> b.min_reserve_gb is None,
        a.max_reserve_gb is Some ==> b.max_reserve_gb == a.max_reserve_gb,
        a.max_reserve_gb is None ==> b.max_reserve_gb is None,
        a.min_borrower_runtime is Some ==> b.min_borrower_runtime == a.min_borrower_runtime,
        a.min_borrower_runtime is None ==> b.min_borrower_runtime is None,
{
}

/// Proxy settings are taken over as a whole.
pub proof fn lemma_proxy_kept(a: RawOpenAiProxy, b: RawOpenAiProxy)
    requires
        cloned(a, b),
    ensures
        a.upstream_model is Some ==> b.upstream_model == a.upstream_model,
        a.upstream_model is None ==> b.upstream_model is None,
{
}

/// A container block is taken over as a whole.
pub proof fn lemma_container_kept(a: RawContainerConfig, b: RawContainerConfig)
    requires
        cloned(a, b),
    ensures
        a.runtime is Some ==> b.runtime == a.runtime,
        a.runtime is None ==> b.runtime is None,
        a.runtime_executable is Some ==> b.runtime_executable == a.runtime_executable,
        a.runtime_executable is None ==> b.runtime_executable is None,
        a.image is Some ==> b.image == a.image,
        a.image is None ==> b.image is None,
        a.entrypoint is Some ==> b.entrypoint == a.entrypoint,
        a.entrypoint is None ==> b.entrypoint is None,
        a.workdir is Some ==> b.workdir == a.workdir,
        a.workdir is None ==> b.workdir is None,
        a.network is Some ==> b.network == a.network,
        a.network is None ==> b.network is None,
        a.container_port is Some ==> b.container_port == a.container_port,
        a.container_port is None ==> b.container_port is None,
        a.ipc is Some ==> b.ipc == a.ipc,
        a.ipc is None ==> b.ipc is None,
        a.gpu_device is Some ==> b.gpu_device == a.gpu_device,
        a.gpu_device is None ==> b.gpu_device is None,
        a.mounts is Some ==> b.mounts is Some && cloned(a.mounts->0, b.mounts->0),
        a.mounts is None ==> b.mounts is None,
        a.extra_publications is Some ==> b.extra_publications is Some && cloned(a.extra_publications->0, b.extra_publications->0),
        a.extra_publications is None ==> b.extra_publications is None,
        a.env is Some ==> b.env is Some && b.env->0.pairs() == a.env->0.pairs(),
        a.env is None ==> b.env is None,
        a.env_passthrough is Some ==> b.env_passthrough is Some && b.env_passthrough->0@ == a.env_passthrough->0@,
        a.env_passthrough is None ==> b.env_passthrough is None,
        a.labels is Some ==> b.labels is Some && b.labels->0.pairs() == a.labels->0.pairs(),
        a.labels is None ==> b.labels is None,
{
    if a.env is Some {
        lemma_variables_cloned(a.env->0, b.env->0);
    }
    if a.env_passthrough is Some {
        lemma_texts_cloned(a.env_passthrough->0, b.env_passthrough->0);
    }
    if a.labels is Some {
        lemma_variables_cloned(a.labels->0, b.labels->0);
    }
}

/// A service that extends nothing keeps every setting it shares with all
/// services, and gains none.
pub proof fn lemma_common_kept(a: RawServiceCommon, b: RawServiceCommon)
    requires
        cloned(a, b),
    ensures
        a.name is Some ==> b.name == a.name,
        a.name is None ==> b.name is None,
        a.extends is Some ==> b.extends == a.extends,
        a.extends is None ==> b.extends is None,
        a.migrate_from is Some ==> b.migrate_from == a.migrate_from,
        a.migrate_from is None ==> b.migrate_from is None,
        a.port is Some ==> b.port == a.port,
        a.port is None ==> b.port is None,
        a.lifecycle is Some ==> b.lifecycle == a.lifecycle,
        a.lifecycle is None ==> b.lifecycle is None,
        a.priority is Some ==> b.priority == a.priority,
        a.priority is None ==> b.priority is None,
        a.idle_timeout is Some ==> b.idle_timeout == a.idle_timeout,
        a.idle_timeout is None ==> b.idle_timeout is None,
        a.description is Some ==> b.description == a.description,
        a.description is None ==> b.description is None,
        a.modality is Some ==> b.modality == a.modality,
        a.modality is None ==> b.modality is None,
        a.env_inherit is Some ==> b.env_inherit == a.env_inherit,
        a.env_inherit is None ==> b.env_inherit is None,
        a.drain_timeout is Some ==> b.drain_timeout == a.drain_timeout,
        a.drain_timeout is None ==> b.drain_timeout is None,
        a.extended_stream_drain is Some ==> b.extended_stream_drain == a.extended_stream_drain,
        a.extended_stream_drain is None ==> b.extended_stream_drain is None,
        a.max_request_duration is Some ==> b.max_request_duration == a.max_request_duration,
        a.max_request_duration is None ==> b.max_request_duration is None,
        a.start_queue_depth is Some ==> b.start_queue_depth == a.start_queue_depth,
        a.start_queue_depth is None ==> b.start_queue_depth is None,
        a.filters is Some ==> b.filters is Some && cloned(a.filters->0, b.filters->0),
        a.filters is None ==> b.filters is None,
        a.metadata is Some ==> b.metadata is Some && cloned(a.metadata->0, b.metadata->0),
        a.metadata is None ==> b.metadata is None,
        a.devices is Some ==> b.devices is Some && cloned(a.devices->0, b.devices->0),
        a.devices is None ==> b.devices is None,
        a.env is Some ==> b.env is Some && b.env->0.pairs() == a.env->0.pairs(),
        a.env is None ==> b.env is None,
        a.health is Some ==> b.health is Some && cloned(a.health->0, b.health->0),
        a.health is None ==> b.health is None,
        a.tracking is Some ==> b.tracking is Some && cloned(a.tracking->0, b.tracking->0),
        a.tracking is None ==> b.tracking is None,
        a.auto_restart is Some ==> b.auto_restart is Some && cloned(a.auto_restart->0, b.auto_restart->0),
        a.auto_restart is None ==> b.auto_restart is None,
        a.extra_args is Some ==> b.extra_args is Some && b.extra_args->0@ == a.extra_args->0@,
        a.extra_args is None ==> b.extra_args is None,
        a.extra_args_append is Some ==> b.extra_args_append is Some && b.extra_args_append->0@ == a.extra_args_append->0@,
        a.extra_args_append is None ==> b.extra_args_append is None,
{
    if a.env is Some {
        lemma_variables_cloned(a.env->0, b.env->0);
    }
    if a.extra_args is Some {
        lemma_texts_cloned(a.extra_args->0, b.extra_args->0);
    }
    if a.extra_args_append is Some {
        lemma_texts_cloned(a.extra_args_append->0, b.extra_args_append->0);
    }
}

/// A llama.cpp service that extends nothing keeps every setting of its own,
/// and gains none.
pub proof fn lemma_llama_cpp_kept(a: RawLlamaCppService, b: RawLlamaCppService)
    requires
        cloned(a, b),
    ensures
        cloned(a.common, b.common),
        a.model is Some ==> b.model == a.model,
        a.model is None ==> b.model is None,
        a.mmproj is Some ==> b.mmproj == a.mmproj,
        a.mmproj is None ==> b.mmproj is None,
        a.context is Some ==> b.context == a.context,
        a.context is None ==> b.context is None,
        a.n_gpu_layers is Some ==> b.n_gpu_layers == a.n_gpu_layers,
        a.n_gpu_layers is None ==> b.n_gpu_layers is None,
        a.expert_offload is Some ==> b.expert_offload is Some && same_toml(a.expert_offload->0, b.expert_offload->0),
        a.expert_offload is None ==> b.expert_offload is None,
        a.runtime is Some ==> b.runtime is Some && same_toml(a.runtime->0, b.runtime->0),
        a.runtime is None ==> b.runtime is None,
        a.flash_attn is Some ==> b.flash_attn == a.flash_attn,
        a.flash_attn is None ==> b.flash_attn is None,
        a.cache_type_k is Some ==> b.cache_type_k == a.cache_type_k,
        a.cache_type_k is None ==> b.cache_type_k is None,
        a.cache_type_v is Some ==> b.cache_type_v == a.cache_type_v,
        a.cache_type_v is None ==> b.cache_type_v is None,
        a.mmap is Some ==> b.mmap == a.mmap,
        a.mmap is None ==> b.mmap is None,
        a.mlock is Some ==> b.mlock == a.mlock,
        a.mlock is None ==> b.mlock is None,
        a.parallel is Some ==> b.parallel == a.parallel,
        a.parallel is None ==> b.parallel is None,
        a.spec_type is Some ==> b.spec_type == a.spec_type,
        a.spec_type is None ==> b.spec_type is None,
        a.spec_draft_n_max is Some ==> b.spec_draft_n_max == a.spec_draft_n_max,
        a.spec_draft_n_max is None ==> b.spec_draft_n_max is None,
        a.draft_model is Some ==> b.draft_model == a.draft_model,
        a.draft_model is None ==> b.draft_model is None,
        a.kv_unified is Some ==> b.kv_unified == a.kv_unified,
        a.kv_unified is None ==> b.kv_unified is None,
        a.cache_idle_slots is Some ==> b.cache_idle_slots == a.cache_idle_slots,
        a.cache_idle_slots is None ==> b.cache_idle_slots is None,
        a.cache_ram_mb is Some ==> b.cache_ram_mb == a.cache_ram_mb,
        a.cache_ram_mb is None ==> b.cache_ram_mb is None,
        a.metrics is Some ==> b.metrics == a.metrics,
        a.metrics is None ==> b.metrics is None,
        a.slots is Some ==> b.slots == a.slots,
        a.slots is None ==> b.slots is None,
        a.batch_size is Some ==> b.batch_size == a.batch_size,
        a.batch_size is None ==> b.batch_size is None,
        a.ubatch_size is Some ==> b.ubatch_size == a.ubatch_size,
        a.ubatch_size is None ==> b.ubatch_size is None,
        a.threads is Some ==> b.threads == a.threads,
        a.threads is None ==> b.threads is None,
        a.threads_batch is Some ==> b.threads_batch == a.threads_batch,
        a.threads_batch is None ==> b.threads_batch is None,
        a.numa is Some ==> b.numa == a.numa,
        a.numa is None ==> b.numa is None,
        a.jinja is Some ==> b.jinja == a.jinja,
        a.jinja is None ==> b.jinja is None,
        a.chat_template_file is Some ==> b.chat_template_file == a.chat_template_file,
        a.chat_template_file is None ==> b.chat_template_file is None,
        a.override_tensor is Some ==> b.override_tensor is Some && b.override_tensor->0@ == a.override_tensor->0@,
        a.override_tensor is None ==> b.override_tensor is None,
        a.sampling is Some ==> b.sampling is Some && same_toml(a.sampling->0, b.sampling->0),
        a.sampling is None ==> b.sampling is None,
        a.estimation is Some ==> b.estimation is Some && same_toml(a.estimation->0, b.estimation->0),
        a.estimation is None ==> b.estimation is None,
        a.llama_server is Some ==> b.llama_server == a.llama_server,
        a.llama_server is None ==> b.llama_server is None,
        a.launcher is Some ==> b.launcher is Some && b.launcher->0@ == a.launcher->0@,
        a.launcher is None ==> b.launcher is None,
        a.allocation is Some ==> b.allocation is Some && cloned(a.allocation->0, b.allocation->0),
        a.allocation is None ==> b.allocation is None,
        a.container is Some ==> b.container is Some && cloned(a.container->0, b.container->0),
        a.container is None ==> b.container is None,
{
    if a.expert_offload is Some {
        lemma_value_cloned(a.expert_offload->0, b.expert_offload->0);
    }
    if a.runtime is Some {
        lemma_value_cloned(a.runtime->0, b.runtime->0);
    }
    if a.override_tensor is Some {
        lemma_texts_cloned(a.override_tensor->0, b.override_tensor->0);
    }
    if a.sampling is Some {
        lemma_value_cloned(a.sampling->0, b.sampling->0);
    }
    if a.estimation is Some {
        lemma_value_cloned(a.estimation->0, b.estimation->0);
    }
    if a.launcher is Some {
        lemma_texts_cloned(a.launcher->0, b.launcher->0);
    }
}

/// A command service that extends nothing keeps every setting of its own,
/// and gains none.
pub proof fn lemma_command_kept(a: RawCommandService, b: RawCommandService)
    requires
        cloned(a, b),
    ensures
        cloned(a.common, b.common),
        a.command is Some ==> b.command is Some && b.command->0@ == a.command->0@,
        a.command is None ==> b.command is None,
        a.workdir is Some ==> b.workdir == a.workdir,
        a.workdir is None ==> b.workdir is None,
        a.allocation is Some ==> b.allocation is Some && cloned(a.allocation->0, b.allocation->0),
        a.allocation is None ==> b.allocation is None,
        a.private_port is Some ==> b.private_port == a.private_port,
        a.private_port is None ==> b.private_port is None,
        a.shutdown_command is Some ==> b.shutdown_command is Some && b.shutdown_command->0@ == a.shutdown_command->0@,
        a.shutdown_command is None ==> b.shutdown_command is None,
        a.openai_proxy is Some ==> b.openai_proxy is Some && cloned(a.openai_proxy->0, b.openai_proxy->0),
        a.openai_proxy is None ==> b.openai_proxy is None,
        a.container is Some ==> b.container is Some && cloned(a.container->0, b.container->0),
        a.container is None ==> b.container is None,
{
    if a.command is Some {
        lemma_texts_cloned(a.command->0, b.command->0);
    }
    if a.shutdown_command is Some {
        lemma_texts_cloned(a.shutdown_command->0, b.shutdown_command->0);
    }
}

/// Of what all services share a service keeps what it sets itself, whatever
/// its parent sets, takes from its parent what it does not set, and has
/// nothing that neither sets.
pub proof fn lemma_common_inherited(r: RawServiceCommon, parent: RawServiceCommon, child: RawServiceCommon)
    requires
        fields::common_merged(r, parent, child),
    ensures
        child.port is Some ==> r.port == child.port,
        child.port is None && parent.port is Some ==> r.port == parent.port,
        child.port is None && parent.port is None ==> r.port is None,
        child.lifecycle is Some ==> r.lifecycle == child.lifecycle,
        child.lifecycle is None && parent.lifecycle is Some ==> r.lifecycle == parent.lifecycle,
        child.lifecycle is None && parent.lifecycle is None ==> r.lifecycle is None,
        child.priority is Some ==> r.priority == child.priority,
        child.priority is None && parent.priority is Some ==> r.priority == parent.priority,
        child.priority is None && parent.priority is None ==> r.priority is None,
        child.idle_timeout is Some ==> r.idle_timeout == child.idle_timeout,
        child.idle_timeout is None && parent.idle_timeout is Some ==> r.idle_timeout == parent.idle_timeout,
        child.idle_timeout is None && parent.idle_timeout is None ==> r.idle_timeout is None,
        child.description is Some ==> r.description == child.description,
        child.description is None && parent.description is Some ==> r.description == parent.description,
        child.description is None && parent.description is None ==> r.description is None,
        child.modality is Some ==> r.modality == child.modality,
        child.modality is None && parent.modality is Some ==> r.modality == parent.modality,
        child.modality is None && parent.modality is None ==> r.modality is None,
        child.env_inherit is Some ==> r.env_inherit == child.env_inherit,
        child.env_inherit is None && parent.env_inherit is Some ==> r.env_inherit == parent.env_inherit,
        child.env_inherit is None && parent.env_inherit is None ==> r.env_inherit is None,
        child.drain_timeout is Some ==> r.drain_timeout == child.drain_timeout,
        child.drain_timeout is None && parent.drain_timeout is Some ==> r.drain_timeout == parent.drain_timeout,
        child.drain_timeout is None && parent.drain_timeout is None ==> r.drain_timeout is None,
        child.extended_stream_drain is Some ==> r.extended_stream_drain == child.extended_stream_drain,
        child.extended_stream_drain is None && parent.extended_stream_drain is Some ==> r.extended_stream_drain == parent.extended_stream_drain,
        child.extended_stream_drain is None && parent.extended_stream_drain is None ==> r.extended_stream_drain is None,
        child.max_request_duration is Some ==> r.max_request_duration == child.max_request_duration,
        child.max_request_duration is None && parent.max_request_duration is Some ==> r.max_request_duration == parent.max_request_duration,
        child.max_request_duration is None && parent.max_request_duration is None ==> r.max_request_duration is None,
        child.start_queue_depth is Some ==> r.start_queue_depth == child.start_queue_depth,
        child.start_queue_depth is None && parent.start_queue_depth is Some ==> r.start_queue_depth == parent.start_queue_depth,
        child.start_queue_depth is None && parent.start_queue_depth is None ==> r.start_queue_depth is None,
        child.filters is Some ==> r.filters is Some && cloned(child.filters->0, r.filters->0),
        child.filters is None && parent.filters is Some ==> r.filters is Some && cloned(parent.filters->0, r.filters->0),
        child.filters is None && parent.filters is None ==> r.filters is None,
        child.metadata is Some ==> r.metadata is Some && cloned(child.metadata->0, r.metadata->0),
        child.metadata is None && parent.metadata is Some ==> r.metadata is Some && cloned(parent.metadata->0, r.metadata->0),
        child.metadata is None && parent.metadata is None ==> r.metadata is None,
        child.devices is Some ==> r.devices is Some && cloned(child.devices->0, r.devices->0),
        child.devices is None && parent.devices is Some ==> r.devices is Some && cloned(parent.devices->0, r.devices->0),
        child.devices is None && parent.devices is None ==> r.devices is None,
        child.env is Some ==> r.env is Some && r.env->0.pairs() == child.env->0.pairs(),
        child.env is None && parent.env is Some ==> r.env is Some && r.env->0.pairs() == parent.env->0.pairs(),
        child.env is None && parent.env is None ==> r.env is None,
        child.health is Some ==> r.health is Some && cloned(child.health->0, r.health->0),
        child.health is None && parent.health is Some ==> r.health is Some && cloned(parent.health->0, r.health->0),
        child.health is None && parent.health is None ==> r.health is None,
        child.tracking is Some ==> r.tracking is Some && cloned(child.tracking->0, r.tracking->0),
        child.tracking is None && parent.tracking is Some ==> r.tracking is Some && cloned(parent.tracking->0, r.tracking->0),
        child.tracking is None && parent.tracking is None ==> r.tracking is None,
        child.auto_restart is Some ==> r.auto_restart is Some && cloned(child.auto_restart->0, r.auto_restart->0),
        child.auto_restart is None && parent.auto_restart is Some ==> r.auto_restart is Some && cloned(parent.auto_restart->0, r.auto_restart->0),
        child.auto_restart is None && parent.auto_restart is None ==> r.auto_restart is None,
{
    if child.env is Some {
        lemma_variables_cloned(child.env->0, r.env->0);
    } else if parent.env is Some {
        lemma_variables_cloned(parent.env->0, r.env->0);
    }
}

/// A llama.cpp service keeps what it sets itself, whatever its parent sets,
/// takes from its parent what it does not set, and has nothing that neither
/// sets.
pub proof fn lemma_llama_cpp_inherited(r: RawLlamaCppService, parent: RawLlamaCppService, child: RawLlamaCppService)
    requires
        fields::llama_cpp_merged(r, parent, child),
    ensures
        child.model is Some ==> r.model == child.model,
        child.model is None && parent.model is Some ==> r.model == parent.model,
        child.model is None && parent.model is None ==> r.model is None,
        child.mmproj is Some ==> r.mmproj == child.mmproj,
        child.mmproj is None && parent.mmproj is Some ==> r.mmproj == parent.mmproj,
        child.mmproj is None && parent.mmproj is None ==> r.mmproj is None,
        child.context is Some ==> r.context == child.context,
        child.context is None && parent.context is Some ==> r.context == parent.context,
        child.context is None && parent.context is None ==> r.context is None,
        child.n_gpu_layers is Some ==> r.n_gpu_layers == child.n_gpu_layers,
        child.n_gpu_layers is None && parent.n_gpu_layers is Some ==> r.n_gpu_layers == parent.n_gpu_layers,
        child.n_gpu_layers is None && parent.n_gpu_layers is None ==> r.n_gpu_layers is None,
        child.expert_offload is Some ==> r.expert_offload is Some && same_toml(child.expert_offload->0, r.expert_offload->0),
        child.expert_offload is None && parent.expert_offload is Some ==> r.expert_offload is Some && same_toml(parent.expert_offload->0, r.expert_offload->0),
        child.expert_offload is None && parent.expert_offload is None ==> r.expert_offload is None,
        child.runtime is Some ==> r.runtime is Some && same_toml(child.runtime->0, r.runtime->0),
        child.runtime is None && parent.runtime is Some ==> r.runtime is Some && same_toml(parent.runtime->0, r.runtime->0),
        child.runtime is None && parent.runtime is None ==> r.runtime is None,
        child.flash_attn is Some ==> r.flash_attn == child.flash_attn,
        child.flash_attn is None && parent.flash_attn is Some ==> r.flash_attn == parent.flash_attn,
        child.flash_attn is None && parent.flash_attn is None ==> r.flash_attn is None,
        child.cache_type_k is Some ==> r.cache_type_k == child.cache_type_k,
        child.cache_type_k is None && parent.cache_type_k is Some ==> r.cache_type_k == parent.cache_type_k,
        child.cache_type_k is None && parent.cache_type_k is None ==> r.cache_type_k is None,
        child.cache_type_v is Some ==> r.cache_type_v == child.cache_type_v,
        child.cache_type_v is None && parent.cache_type_v is Some ==> r.cache_type_v == parent.cache_type_v,
        child.cache_type_v is None && parent.cache_type_v is None ==> r.cache_type_v is None,
        child.mmap is Some ==> r.mmap == child.mmap,
        child.mmap is None && parent.mmap is Some ==> r.mmap == parent.mmap,
        child.mmap is None && parent.mmap is None ==> r.mmap is None,
        child.mlock is Some ==> r.mlock == child.mlock,
        child.mlock is None && parent.mlock is Some ==> r.mlock == parent.mlock,
        child.mlock is None && parent.mlock is None ==> r.mlock is None,
        child.parallel is Some ==> r.parallel == child.parallel,
        child.parallel is None && parent.parallel is Some ==> r.parallel == parent.parallel,
        child.parallel is None && parent.parallel is None ==> r.parallel is None,
        child.spec_type is Some ==> r.spec_type == child.spec_type,
        child.spec_type is None && parent.spec_type is Some ==> r.spec_type == parent.spec_type,
        child.spec_type is None && parent.spec_type is None ==> r.spec_type is None,
        child.spec_draft_n_max is Some ==> r.spec_draft_n_max == child.spec_draft_n_max,
        child.spec_draft_n_max is None && parent.spec_draft_n_max is Some ==> r.spec_draft_n_max == parent.spec_draft_n_max,
        child.spec_draft_n_max is None && parent.spec_draft_n_max is None ==> r.spec_draft_n_max is None,
        child.draft_model is Some ==> r.draft_model == child.draft_model,
        child.draft_model is None && parent.draft_model is Some ==> r.draft_model == parent.draft_model,
        child.draft_model is None && parent.draft_model is None ==> r.draft_model is None,
        child.kv_unified is Some ==> r.kv_unified == child.kv_unified,
        child.kv_unified is None && parent.kv_unified is Some ==> r.kv_unified == parent.kv_unified,
        child.kv_unified is None && parent.kv_unified is None ==> r.kv_unified is None,
        child.cache_idle_slots is Some ==> r.cache_idle_slots == child.cache_idle_slots,
        child.cache_idle_slots is None && parent.cache_idle_slots is Some ==> r.cache_idle_slots == parent.cache_idle_slots,
        child.cache_idle_slots is None && parent.cache_idle_slots is None ==> r.cache_idle_slots is None,
        child.cache_ram_mb is Some ==> r.cache_ram_mb == child.cache_ram_mb,
        child.cache_ram_mb is None && parent.cache_ram_mb is Some ==> r.cache_ram_mb == parent.cache_ram_mb,
        child.cache_ram_mb is None && parent.cache_ram_mb is None ==> r.cache_ram_mb is None,
        child.metrics is Some ==> r.metrics == child.metrics,
        child.metrics is None && parent.metrics is Some ==> r.metrics == parent.metrics,
        child.metrics is None && parent.metrics is None ==> r.metrics is None,
        child.slots is Some ==> r.slots == child.slots,
        child.slots is None && parent.slots is Some ==> r.slots == parent.slots,
        child.slots is None && parent.slots is None ==> r.slots is None,
        child.batch_size is Some ==> r.batch_size == child.batch_size,
        child.batch_size is None && parent.batch_size is Some ==> r.batch_size == parent.batch_size,
        child.batch_size is None && parent.batch_size is None ==> r.batch_size is None,
        child.ubatch_size is Some ==> r.ubatch_size == child.ubatch_size,
        child.ubatch_size is None && parent.ubatch_size is Some ==> r.ubatch_size == parent.ubatch_size,
        child.ubatch_size is None && parent.ubatch_size is None ==> r.ubatch_size is None,
        child.threads is Some ==> r.threads == child.threads,
        child.threads is None && parent.threads is Some ==> r.threads == parent.threads,
        child.threads is None && parent.threads is None ==> r.threads is None,
        child.threads_batch is Some ==> r.threads_batch == child.threads_batch,
        child.threads_batch is None && parent.threads_batch is Some ==> r.threads_batch == parent.threads_batch,
        child.threads_batch is None && parent.threads_batch is None ==> r.threads_batch is None,
        child.numa is Some ==> r.numa == child.numa,
        child.numa is None && parent.numa is Some ==> r.numa == parent.numa,
        child.numa is None && parent.numa is None ==> r.numa is None,
        child.jinja is Some ==> r.jinja == child.jinja,
        child.jinja is None && parent.jinja is Some ==> r.jinja == parent.jinja,
        child.jinja is None && parent.jinja is None ==> r.jinja is None,
        child.chat_template_file is Some ==> r.chat_template_file == child.chat_template_file,
        child.chat_template_file is None && parent.chat_template_file is Some ==> r.chat_template_file == parent.chat_template_file,
        child.chat_template_file is None && parent.chat_template_file is None ==> r.chat_template_file is None,
        child.override_tensor is Some ==> r.override_tensor is Some && r.override_tensor->0@ == child.override_tensor->0@,
        child.override_tensor is None && parent.override_tensor is Some ==> r.override_tensor is Some && r.override_tensor->0@ == parent.override_tensor->0@,
        child.override_tensor is None && parent.override_tensor is None ==> r.override_tensor is None,
        child.sampling is Some ==> r.sampling is Some && same_toml(child.sampling->0, r.sampling->0),
        child.sampling is None && parent.sampling is Some ==> r.sampling is Some && same_toml(parent.sampling->0, r.sampling->0),
        child.sampling is None && parent.sampling is None ==> r.sampling is None,
        child.estimation is Some ==> r.estimation is Some && same_toml(child.estimation->0, r.estimation->0),
        child.estimation is None && parent.estimation is Some ==> r.estimation is Some && same_toml(parent.estimation->0, r.estimation->0),
        child.estimation is None && parent.estimation is None ==> r.estimation is None,
        child.llama_server is Some ==> r.llama_server == child.llama_server,
        child.llama_server is None && parent.llama_server is Some ==> r.llama_server == parent.llama_server,
        child.llama_server is None && parent.llama_server is None ==> r.llama_server is None,
        child.launcher is Some ==> r.launcher is Some && r.launcher->0@ == child.launcher->0@,
        child.launcher is None && parent.launcher is Some ==> r.launcher is Some && r.launcher->0@ == parent.launcher->0@,
        child.launcher is None && parent.launcher is None ==> r.launcher is None,
        child.allocation is Some ==> r.allocation is Some && cloned(child.allocation->0, r.allocation->0),
        child.allocation is None && parent.allocation is Some ==> r.allocation is Some && cloned(parent.allocation->0, r.allocation->0),
        child.allocation is None && parent.allocation is None ==> r.allocation is None,
        child.container is Some ==> r.container is Some && cloned(child.container->0, r.container->0),
        child.container is None && parent.container is Some ==> r.container is Some && cloned(parent.container->0, r.container->0),
        child.container is None && parent.container is None ==> r.container is None,
{
    if child.expert_offload is Some {
        lemma_value_cloned(child.expert_offload->0, r.expert_offload->0);
    } else if parent.expert_offload is Some {
        lemma_value_cloned(parent.expert_offload->0, r.expert_offload->0);
    }
    if child.runtime is Some {
        lemma_value_cloned(child.runtime->0, r.runtime->0);
    } else if parent.runtime is Some {
        lemma_value_cloned(parent.runtime->0, r.runtime->0);
    }
    if child.override_tensor is Some {
        lemma_texts_cloned(child.override_tensor->0, r.override_tensor->0);
    } else if parent.override_tensor is Some {
        lemma_texts_cloned(parent.override_tensor->0, r.override_tensor->0);
    }
    if child.sampling is Some {
        lemma_value_cloned(child.sampling->0, r.sampling->0);
    } else if parent.sampling is Some {
        lemma_value_cloned(parent.sampling->0, r.sampling->0);
    }
    if child.estimation is Some {
        lemma_value_cloned(child.estimation->0, r.estimation->0);
    } else if parent.estimation is Some {
        lemma_value_cloned(parent.estimation->0, r.estimation->0);
    }
    if child.launcher is Some {
        lemma_texts_cloned(child.launcher->0, r.launcher->0);
    } else if parent.launcher is Some {
        lemma_texts_cloned(parent.launcher->0, r.launcher->0);
    }
}

/// A command service keeps what it sets itself, whatever its parent sets,
/// takes from its parent what it does not set, and has nothing that neither
/// sets.
pub proof fn lemma_command_inherited(r: RawCommandService, parent: RawCommandService, child: RawCommandService)
    requires
        fields::command_merged(r, parent, child),
    ensures
        child.command is Some ==> r.command is Some && r.command->0@ == child.command->0@,
        child.command is None && parent.command is Some ==> r.command is Some && r.command->0@ == parent.command->0@,
        child.command is None && parent.command is None ==> r.command is None,
        child.workdir is Some ==> r.workdir == child.workdir,
        child.workdir is None && parent.workdir is Some ==> r.workdir == parent.workdir,
        child.workdir is None && parent.workdir is None ==> r.workdir is None,
        child.allocation is Some ==> r.allocation is Some && cloned(child.allocation->0, r.allocation->0),
        child.allocation is None && parent.allocation is Some ==> r.allocation is Some && cloned(parent.allocation->0, r.allocation->0),
        child.allocation is None && parent.allocation is None ==> r.allocation is None,
        child.private_port is Some ==> r.private_port == child.private_port,
        child.private_port is None && parent.private_port is Some ==> r.private_port == parent.private_port,
        child.private_port is None && parent.private_port is None ==> r.private_port is None,
        child.shutdown_command is Some ==> r.shutdown_command is Some && r.shutdown_command->0@ == child.shutdown_command->0@,
        child.shutdown_command is None && parent.shutdown_command is Some ==> r.shutdown_command is Some && r.shutdown_command->0@ == parent.shutdown_command->0@,
        child.shutdown_command is None && parent.shutdown_command is None ==> r.shutdown_command is None,
        child.openai_proxy is Some ==> r.openai_proxy is Some && cloned(child.openai_proxy->0, r.openai_proxy->0),
        child.openai_proxy is None && parent.openai_proxy is Some ==> r.openai_proxy is Some && cloned(parent.openai_proxy->0, r.openai_proxy->0),
        child.openai_proxy is None && parent.openai_proxy is None ==> r.openai_proxy is None,
        child.container is Some ==> r.container is Some && cloned(child.container->0, r.container->0),
        child.container is None && parent.container is Some ==> r.container is Some && cloned(parent.container->0, r.container->0),
        child.container is None && parent.container is None ==> r.container is None,
{
    if child.command is Some {
        lemma_texts_cloned(child.command->0, r.command->0);
    } else if parent.command is Some {
        lemma_texts_cloned(parent.command->0, r.command->0);
    }
    if child.shutdown_command is Some {
        lemma_texts_cloned(child.shutdown_command->0, r.shutdown_command->0);
    } else if parent.shutdown_command is Some {
        lemma_texts_cloned(parent.shutdown_command->0, r.shutdown_command->0);
    }
}

/// Name, parent and former name are the service's own and never its
/// parent's.
pub proof fn lemma_identity_is_own(
    r: RawServiceCommon,
    parent: RawServiceCommon,
    child: RawServiceCommon,
)
    requires
        fields::common_merged(r, parent, child),
    ensures
        r.name == child.name,
        r.extends == child.extends,
        r.migrate_from == child.migrate_from,
{
}

/// Arguments: a service's own list, or else its parent's, stands first, and
/// behind it what the service appends. What was appended is not appended
/// again further down.
pub proof fn lemma_arguments_inherited(
    r: RawServiceCommon,
    parent: RawServiceCommon,
    child: RawServiceCommon,
)
    requires
        fields::common_merged(r, parent, child),
    ensures
        r.extra_args_append is None,
        child.extra_args is Some && child.extra_args_append is None ==> r.extra_args is Some
            && r.extra_args->0@ == child.extra_args->0@,
        child.extra_args is None && child.extra_args_append is None && parent.extra_args is Some
            ==> r.extra_args is Some && r.extra_args->0@ == parent.extra_args->0@,
        child.extra_args is None && child.extra_args_append is None && parent.extra_args is None
            ==> r.extra_args is None,
        child.extra_args is Some && child.extra_args_append is Some ==> r.extra_args is Some
            && r.extra_args->0@ == child.extra_args->0@ + child.extra_args_append->0@,
        child.extra_args is None && child.extra_args_append is Some && parent.extra_args is Some
            ==> r.extra_args is Some && r.extra_args->0@ == parent.extra_args->0@
            + child.extra_args_append->0@,
        child.extra_args is None && child.extra_args_append is Some && parent.extra_args is None
            ==> r.extra_args is Some && r.extra_args->0@ == child.extra_args_append->0@,
{
    if child.extra_args_append is None {
        if child.extra_args is Some {
            lemma_texts_cloned(child.extra_args->0, r.extra_args->0);
        } else if parent.extra_args is Some {
            lemma_texts_cloned(parent.extra_args->0, r.extra_args->0);
        }
    } else if child.extra_args is None && parent.extra_args is None {
        assert(Seq::<String>::empty() + child.extra_args_append->0@
            =~= child.extra_args_append->0@);
    }
}

/// Which service a resolved one stands for: the only one with its name.
proof fn lemma_own_table(
    services: Seq<RawService>,
    out: Seq<RawService>,
    i: int,
    s: int,
)
    requires
        resolve::inheritance(services, Ok::<(), ExpectedError>(()), out),
        0 <= i < out.len(),
        0 <= s < services.len(),
        services[s].shared().name is Some,
        out[i].shared().name is Some,
        services[s].shared().name->0@ == out[i].shared().name->0@,
    ensures
        merge::by_name(services)[text_map::ordered_keys(merge::by_name(services))[i]]
            == services[s],
{
    let source = merge::by_name(services);
    let names = text_map::ordered_keys(source);
    resolve::lemma_inheritance_accepted(services, Ok::<(), ExpectedError>(()), out);
    resolve::lemma_names_are_own(out, source, i);
    merge::lemma_by_name_len(services);
    text_map::lemma_keys_listed(source);
    assert(names.contains(names[i]));
    merge::lemma_by_name(services, names[i]);
    let own = source[names[i]];
    let k = choose|k: int|
        0 <= k < services.len() && merge::name_of(#[trigger] services[k]) == Some(names[i])
            && services[k] == own;
    assert(merge::name_of(own) == Some(names[i]));
    assert(merge::name_of(services[s]) == Some(names[i]));
    assert(k == s);
}

/// A resolved service is its own table, as it stands where it extends
/// nothing, and else merged over the resolved service that it names.
proof fn lemma_resolved_from(
    services: Seq<RawService>,
    out: Seq<RawService>,
    i: int,
    s: int,
) -> (j: int)
    requires
        resolve::inheritance(services, Ok::<(), ExpectedError>(()), out),
        0 <= i < out.len(),
        0 <= s < services.len(),
        services[s].shared().name is Some,
        out[i].shared().name is Some,
        services[s].shared().name->0@ == out[i].shared().name->0@,
    ensures
        services[s].shared().extends is None ==> raw::service_kept(services[s], out[i]),
        services[s].shared().extends is Some ==> {
            &&& 0 <= j < out.len()
            &&& out[j].shared().name is Some
            &&& out[j].shared().name->0@ == services[s].shared().extends->0@
            &&& fields::service_merged(out[i], out[j], services[s])
        },
{
    let source = merge::by_name(services);
    let names = text_map::ordered_keys(source);
    lemma_own_table(services, out, i, s);
    assert(resolve::settled(out, source, i));
    if services[s].shared().extends is Some {
        let parent = services[s].shared().extends->0@;
        assert(resolve::parent_of(services[s]) == Some(parent));
        let j = choose|j: int|
            0 <= j < out.len() && names[j] == parent && fields::service_merged(
                out[i],
                #[trigger] out[j],
                services[s],
            );
        resolve::lemma_names_are_own(out, source, j);
        merge::lemma_by_name_len(services);
        text_map::lemma_keys_listed(source);
        assert(names.contains(names[j]));
        merge::lemma_by_name(services, names[j]);
        assert(merge::name_of(source[names[j]]) == Some(names[j]));
        j
    } else {
        i
    }
}

/// What a service sets itself stands in the resolved config, whatever its
/// parents set: of the settings that all services share.
pub proof fn lemma_written_common_stands(
    services: Seq<RawService>,
    out: Seq<RawService>,
    i: int,
    s: int,
)
    requires
        resolve::inheritance(services, Ok::<(), ExpectedError>(()), out),
        0 <= i < out.len(),
        0 <= s < services.len(),
        services[s].shared().name is Some,
        out[i].shared().name is Some,
        services[s].shared().name->0@ == out[i].shared().name->0@,
    ensures
        services[s].shared().port is Some ==> out[i].shared().port == services[s].shared().port,
        services[s].shared().lifecycle is Some ==> out[i].shared().lifecycle == services[s].shared().lifecycle,
        services[s].shared().priority is Some ==> out[i].shared().priority == services[s].shared().priority,
        services[s].shared().idle_timeout is Some ==> out[i].shared().idle_timeout == services[s].shared().idle_timeout,
        services[s].shared().description is Some ==> out[i].shared().description == services[s].shared().description,
        services[s].shared().modality is Some ==> out[i].shared().modality == services[s].shared().modality,
        services[s].shared().env_inherit is Some ==> out[i].shared().env_inherit == services[s].shared().env_inherit,
        services[s].shared().drain_timeout is Some ==> out[i].shared().drain_timeout == services[s].shared().drain_timeout,
        services[s].shared().extended_stream_drain is Some ==> out[i].shared().extended_stream_drain == services[s].shared().extended_stream_drain,
        services[s].shared().max_request_duration is Some ==> out[i].shared().max_request_duration == services[s].shared().max_request_duration,
        services[s].shared().start_queue_depth is Some ==> out[i].shared().start_queue_depth == services[s].shared().start_queue_depth,
        services[s].shared().filters is Some ==> out[i].shared().filters is Some && cloned(services[s].shared().filters->0, out[i].shared().filters->0),
        services[s].shared().metadata is Some ==> out[i].shared().metadata is Some && cloned(services[s].shared().metadata->0, out[i].shared().metadata->0),
        services[s].shared().devices is Some ==> out[i].shared().devices is Some && cloned(services[s].shared().devices->0, out[i].shared().devices->0),
        services[s].shared().env is Some ==> out[i].shared().env is Some && out[i].shared().env->0.pairs() == services[s].shared().env->0.pairs(),
        services[s].shared().health is Some ==> out[i].shared().health is Some && cloned(services[s].shared().health->0, out[i].shared().health->0),
        services[s].shared().tracking is Some ==> out[i].shared().tracking is Some && cloned(services[s].shared().tracking->0, out[i].shared().tracking->0),
        services[s].shared().auto_restart is Some ==> out[i].shared().auto_restart is Some && cloned(services[s].shared().auto_restart->0, out[i].shared().auto_restart->0),
        out[i].shared().extends == services[s].shared().extends,
        out[i].shared().migrate_from == services[s].shared().migrate_from,
{
    let j = lemma_resolved_from(services, out, i, s);
    let own = services[s].shared();
    let got = out[i].shared();
    if own.extends is Some {
        lemma_common_inherited(got, out[j].shared(), own);
    } else {
        match (services[s], out[i]) {
            (RawService::LlamaCpp(a), RawService::LlamaCpp(b)) => {
                lemma_llama_cpp_kept(*a, *b);
            },
            (RawService::Command(a), RawService::Command(b)) => {
                lemma_command_kept(*a, *b);
            },
            _ => {},
        }
        lemma_common_kept(own, got);
    }
}

/// What a service sets itself stands in the resolved config, whatever its
/// parents set: of a llama.cpp service's own settings.
pub proof fn lemma_written_llama_cpp_stands(
    services: Seq<RawService>,
    out: Seq<RawService>,
    i: int,
    s: int,
    own: Box<RawLlamaCppService>,
    got: Box<RawLlamaCppService>,
)
    requires
        resolve::inheritance(services, Ok::<(), ExpectedError>(()), out),
        0 <= i < out.len(),
        0 <= s < services.len(),
        services[s].shared().name is Some,
        out[i].shared().name is Some,
        services[s].shared().name->0@ == out[i].shared().name->0@,
        services[s] == RawService::LlamaCpp(own),
        out[i] == RawService::LlamaCpp(got),
    ensures
        own.model is Some ==> got.model == own.model,
        own.mmproj is Some ==> got.mmproj == own.mmproj,
        own.context is Some ==> got.context == own.context,
        own.n_gpu_layers is Some ==> got.n_gpu_layers == own.n_gpu_layers,
        own.expert_offload is Some ==> got.expert_offload is Some && same_toml(own.expert_offload->0, got.expert_offload->0),
        own.runtime is Some ==> got.runtime is Some && same_toml(own.runtime->0, got.runtime->0),
        own.flash_attn is Some ==> got.flash_attn == own.flash_attn,
        own.cache_type_k is Some ==> got.cache_type_k == own.cache_type_k,
        own.cache_type_v is Some ==> got.cache_type_v == own.cache_type_v,
        own.mmap is Some ==> got.mmap == own.mmap,
        own.mlock is Some ==> got.mlock == own.mlock,
        own.parallel is Some ==> got.parallel == own.parallel,
        own.spec_type is Some ==> got.spec_type == own.spec_type,
        own.spec_draft_n_max is Some ==> got.spec_draft_n_max == own.spec_draft_n_max,
        own.draft_model is Some ==> got.draft_model == own.draft_model,
        own.kv_unified is Some ==> got.kv_unified == own.kv_unified,
        own.cache_idle_slots is Some ==> got.cache_idle_slots == own.cache_idle_slots,
        own.cache_ram_mb is Some ==> got.cache_ram_mb == own.cache_ram_mb,
        own.metrics is Some ==> got.metrics == own.metrics,
        own.slots is Some ==> got.slots == own.slots,
        own.batch_size is Some ==> got.batch_size == own.batch_size,
        own.ubatch_size is Some ==> got.ubatch_size == own.ubatch_size,
        own.threads is Some ==> got.threads == own.threads,
        own.threads_batch is Some ==> got.threads_batch == own.threads_batch,
        own.numa is Some ==> got.numa == own.numa,
        own.jinja is Some ==> got.jinja == own.jinja,
        own.chat_template_file is Some ==> got.chat_template_file == own.chat_template_file,
        own.override_tensor is Some ==> got.override_tensor is Some && got.override_tensor->0@ == own.override_tensor->0@,
        own.sampling is Some ==> got.sampling is Some && same_toml(own.sampling->0, got.sampling->0),
        own.estimation is Some ==> got.estimation is Some && same_toml(own.estimation->0, got.estimation->0),
        own.llama_server is Some ==> got.llama_server == own.llama_server,
        own.launcher is Some ==> got.launcher is Some && got.launcher->0@ == own.launcher->0@,
        own.allocation is Some ==> got.allocation is Some && cloned(own.allocation->0, got.allocation->0),
        own.container is Some ==> got.container is Some && cloned(own.container->0, got.container->0),
{
    let j = lemma_resolved_from(services, out, i, s);
    if services[s].shared().extends is Some {
        if let RawService::LlamaCpp(parent) = out[j] {
            lemma_llama_cpp_inherited(*got, *parent, *own);
        }
    } else {
        lemma_llama_cpp_kept(*own, *got);
    }
}

/// What a service sets itself stands in the resolved config, whatever its
/// parents set: of a command service's own settings.
pub proof fn lemma_written_command_stands(
    services: Seq<RawService>,
    out: Seq<RawService>,
    i: int,
    s: int,
    own: Box<RawCommandService>,
    got: Box<RawCommandService>,
)
    requires
        resolve::inheritance(services, Ok::<(), ExpectedError>(()), out),
        0 <= i < out.len(),
        0 <= s < services.len(),
        services[s].shared().name is Some,
        out[i].shared().name is Some,
        services[s].shared().name->0@ == out[i].shared().name->0@,
        services[s] == RawService::Command(own),
        out[i] == RawService::Command(got),
    ensures
        own.command is Some ==> got.command is Some && got.command->0@ == own.command->0@,
        own.workdir is Some ==> got.workdir == own.workdir,
        own.allocation is Some ==> got.allocation is Some && cloned(own.allocation->0, got.allocation->0),
        own.private_port is Some ==> got.private_port == own.private_port,
        own.shutdown_command is Some ==> got.shutdown_command is Some && got.shutdown_command->0@ == own.shutdown_command->0@,
        own.openai_proxy is Some ==> got.openai_proxy is Some && cloned(own.openai_proxy->0, got.openai_proxy->0),
        own.container is Some ==> got.container is Some && cloned(own.container->0, got.container->0),
{
    let j = lemma_resolved_from(services, out, i, s);
    if services[s].shared().extends is Some {
        if let RawService::Command(parent) = out[j] {
            lemma_command_inherited(*got, *parent, *own);
        }
    } else {
        lemma_command_kept(*own, *got);
    }
}

/// What a service does not set itself it has from the resolved service that
/// it extends, and a service that extends nothing has it not at all.
pub proof fn lemma_unwritten_from_parent(
    services: Seq<RawService>,
    out: Seq<RawService>,
    i: int,
    s: int,
) -> (j: int)
    requires
        resolve::inheritance(services, Ok::<(), ExpectedError>(()), out),
        0 <= i < out.len(),
        0 <= s < services.len(),
        services[s].shared().name is Some,
        out[i].shared().name is Some,
        services[s].shared().name->0@ == out[i].shared().name->0@,
    ensures
        services[s].shared().extends is Some ==> {
            &&& 0 <= j < out.len()
            &&& out[j].shared().name is Some
            &&& out[j].shared().name->0@ == services[s].shared().extends->0@
            &&& services[s].shared().port is None && out[j].shared().port is Some ==> out[i].shared().port == out[j].shared().port
            &&& services[s].shared().port is None && out[j].shared().port is None ==> out[i].shared().port is None
            &&& services[s].shared().lifecycle is None && out[j].shared().lifecycle is Some ==> out[i].shared().lifecycle == out[j].shared().lifecycle
            &&& services[s].shared().lifecycle is None && out[j].shared().lifecycle is None ==> out[i].shared().lifecycle is None
            &&& services[s].shared().priority is None && out[j].shared().priority is Some ==> out[i].shared().priority == out[j].shared().priority
            &&& services[s].shared().priority is None && out[j].shared().priority is None ==> out[i].shared().priority is None
            &&& services[s].shared().idle_timeout is None && out[j].shared().idle_timeout is Some ==> out[i].shared().idle_timeout == out[j].shared().idle_timeout
            &&& services[s].shared().idle_timeout is None && out[j].shared().idle_timeout is None ==> out[i].shared().idle_timeout is None
            &&& services[s].shared().description is None && out[j].shared().description is Some ==> out[i].shared().description == out[j].shared().description
            &&& services[s].shared().description is None && out[j].shared().description is None ==> out[i].shared().description is None
            &&& services[s].shared().modality is None && out[j].shared().modality is Some ==> out[i].shared().modality == out[j].shared().modality
            &&& services[s].shared().modality is None && out[j].shared().modality is None ==> out[i].shared().modality is None
            &&& services[s].shared().env_inherit is None && out[j].shared().env_inherit is Some ==> out[i].shared().env_inherit == out[j].shared().env_inherit
            &&& services[s].shared().env_inherit is None && out[j].shared().env_inherit is None ==> out[i].shared().env_inherit is None
            &&& services[s].shared().drain_timeout is None && out[j].shared().drain_timeout is Some ==> out[i].shared().drain_timeout == out[j].shared().drain_timeout
            &&& services[s].shared().drain_timeout is None && out[j].shared().drain_timeout is None ==> out[i].shared().drain_timeout is None
            &&& services[s].shared().extended_stream_drain is None && out[j].shared().extended_stream_drain is Some ==> out[i].shared().extended_stream_drain == out[j].shared().extended_stream_drain
            &&& services[s].shared().extended_stream_drain is None && out[j].shared().extended_stream_drain is None ==> out[i].shared().extended_stream_drain is None
            &&& services[s].shared().max_request_duration is None && out[j].shared().max_request_duration is Some ==> out[i].shared().max_request_duration == out[j].shared().max_request_duration
            &&& services[s].shared().max_request_duration is None && out[j].shared().max_request_duration is None ==> out[i].shared().max_request_duration is None
            &&& services[s].shared().start_queue_depth is None && out[j].shared().start_queue_depth is Some ==> out[i].shared().start_queue_depth == out[j].shared().start_queue_depth
            &&& services[s].shared().start_queue_depth is None && out[j].shared().start_queue_depth is None ==> out[i].shared().start_queue_depth is None
            &&& services[s].shared().filters is None && out[j].shared().filters is Some ==> out[i].shared().filters is Some && cloned(out[j].shared().filters->0, out[i].shared().filters->0)
            &&& services[s].shared().filters is None && out[j].shared().filters is None ==> out[i].shared().filters is None
            &&& services[s].shared().metadata is None && out[j].shared().metadata is Some ==> out[i].shared().metadata is Some && cloned(out[j].shared().metadata->0, out[i].shared().metadata->0)
            &&& services[s].shared().metadata is None && out[j].shared().metadata is None ==> out[i].shared().metadata is None
            &&& services[s].shared().devices is None && out[j].shared().devices is Some ==> out[i].shared().devices is Some && cloned(out[j].shared().devices->0, out[i].shared().devices->0)
            &&& services[s].shared().devices is None && out[j].shared().devices is None ==> out[i].shared().devices is None
            &&& services[s].shared().env is None && out[j].shared().env is Some ==> out[i].shared().env is Some && out[i].shared().env->0.pairs() == out[j].shared().env->0.pairs()
            &&& services[s].shared().env is None && out[j].shared().env is None ==> out[i].shared().env is None
            &&& services[s].shared().health is None && out[j].shared().health is Some ==> out[i].shared().health is Some && cloned(out[j].shared().health->0, out[i].shared().health->0)
            &&& services[s].shared().health is None && out[j].shared().health is None ==> out[i].shared().health is None
            &&& services[s].shared().tracking is None && out[j].shared().tracking is Some ==> out[i].shared().tracking is Some && cloned(out[j].shared().tracking->0, out[i].shared().tracking->0)
            &&& services[s].shared().tracking is None && out[j].shared().tracking is None ==> out[i].shared().tracking is None
            &&& services[s].shared().auto_restart is None && out[j].shared().auto_restart is Some ==> out[i].shared().auto_restart is Some && cloned(out[j].shared().auto_restart->0, out[i].shared().auto_restart->0)
            &&& services[s].shared().auto_restart is None && out[j].shared().auto_restart is None ==> out[i].shared().auto_restart is None
        },
        services[s].shared().extends is None ==> {
            &&& services[s].shared().port is None ==> out[i].shared().port is None
            &&& services[s].shared().lifecycle is None ==> out[i].shared().lifecycle is None
            &&& services[s].shared().priority is None ==> out[i].shared().priority is None
            &&& services[s].shared().idle_timeout is None ==> out[i].shared().idle_timeout is None
            &&& services[s].shared().description is None ==> out[i].shared().description is None
            &&& services[s].shared().modality is None ==> out[i].shared().modality is None
            &&& services[s].shared().env_inherit is None ==> out[i].shared().env_inherit is None
            &&& services[s].shared().drain_timeout is None ==> out[i].shared().drain_timeout is None
            &&& services[s].shared().extended_stream_drain is None ==> out[i].shared().extended_stream_drain is None
            &&& services[s].shared().max_request_duration is None ==> out[i].shared().max_request_duration is None
            &&& services[s].shared().start_queue_depth is None ==> out[i].shared().start_queue_depth is None
            &&& services[s].shared().filters is None ==> out[i].shared().filters is None
            &&& services[s].shared().metadata is None ==> out[i].shared().metadata is None
            &&& services[s].shared().devices is None ==> out[i].shared().devices is None
            &&& services[s].shared().env is None ==> out[i].shared().env is None
            &&& services[s].shared().health is None ==> out[i].shared().health is None
            &&& services[s].shared().tracking is None ==> out[i].shared().tracking is None
            &&& services[s].shared().auto_restart is None ==> out[i].shared().auto_restart is None
        },
{
    let j = lemma_resolved_from(services, out, i, s);
    let own = services[s].shared();
    let got = out[i].shared();
    if own.extends is Some {
        lemma_common_inherited(got, out[j].shared(), own);
    } else {
        match (services[s], out[i]) {
            (RawService::LlamaCpp(a), RawService::LlamaCpp(b)) => {
                lemma_llama_cpp_kept(*a, *b);
            },
            (RawService::Command(a), RawService::Command(b)) => {
                lemma_command_kept(*a, *b);
            },
            _ => {},
        }
        lemma_common_kept(own, got);
    }
    j
}

/// A child takes after a parent of its own template only; of another one it
/// is refused, and the operator reads both templates.
pub proof fn lemma_templates_told(
    parent: RawService,
    child: RawService,
    name: Seq<char>,
)
    ensures
        fields::same_template(parent, child) <==> (parent is LlamaCpp && child is LlamaCpp) || (
        parent is Command && child is Command),
        child is LlamaCpp && parent is Command ==> fields::template_complaint(name, child, parent)
            == "service "@ + name + ": template `"@ + "llama-cpp"@
            + "` does not match parent's template `"@ + "command"@
            + "`; cross-template extends is not allowed"@,
        child is Command && parent is LlamaCpp ==> fields::template_complaint(name, child, parent)
            == "service "@ + name + ": template `"@ + "command"@
            + "` does not match parent's template `"@ + "llama-cpp"@
            + "`; cross-template extends is not allowed"@,
        child is LlamaCpp ==> child.template() == "llama-cpp"@,
        child is Command ==> child.template() == "command"@,
{
}

/// A merged service keeps its template, and is merged by that template's
/// rules.
pub proof fn lemma_merged_by_template(r: RawService, parent: RawService, child: RawService)
    requires
        fields::service_merged(r, parent, child),
    ensures
        parent is LlamaCpp <==> child is LlamaCpp,
        r is LlamaCpp <==> child is LlamaCpp,
        r matches RawService::LlamaCpp(x) ==> fields::llama_cpp_merged(
            *x,
            *parent->LlamaCpp_0,
            *child->LlamaCpp_0,
        ),
        r matches RawService::Command(x) ==> fields::command_merged(
            *x,
            *parent->Command_0,
            *child->Command_0,
        ),
{
}

/// A blank service has nothing written, so nothing to keep from a parent.
pub proof fn lemma_blank_has_nothing_written(c: RawServiceCommon)
    requires
        raw::blank_common(c),
    ensures
        c.name is None,
        c.extends is None,
        c.migrate_from is None,
        c.port is None,
        c.lifecycle is None,
        c.priority is None,
        c.idle_timeout is None,
        c.description is None,
        c.modality is None,
        c.filters is None,
        c.metadata is None,
        c.devices is None,
        c.extra_args is None,
        c.extra_args_append is None,
        c.env is None,
        c.env_inherit is None,
        c.health is None,
        c.drain_timeout is None,
        c.extended_stream_drain is None,
        c.max_request_duration is None,
        c.start_queue_depth is None,
        c.tracking is None,
        c.auto_restart is None,
{
}

} // verus!
