//! What a service takes from the service it extends.

use crate::config::error::{fail, ExpectedError};
use crate::config::raw;
use crate::config::raw::{
    inherit, keep, RawCommandService, RawLlamaCppService, RawService, RawServiceCommon,
};
use vstd::prelude::*;
use vstd::string::*;

verus! {

/// The entries of an optional list; none where there is none.
pub open spec fn list_of(l: Option<Vec<String>>) -> Seq<String> {
    match l {
        Some(v) => v@,
        None => Seq::empty(),
    }
}

/// Whether `r` holds the extra arguments of a service: its own or inherited
/// ones, and behind them those it appends. Nothing stays to be appended.
pub open spec fn arguments_merged(
    r: RawServiceCommon,
    parent: RawServiceCommon,
    child: RawServiceCommon,
) -> bool {
    let base = if child.extra_args is Some {
        child.extra_args
    } else {
        parent.extra_args
    };
    &&& r.extra_args_append is None
    &&& match child.extra_args_append {
        Some(more) => r.extra_args matches Some(all) && all@ == list_of(base) + more@,
        None => raw::kept(base, r.extra_args),
    }
}

/// Whether `r` is `child` with what it lacks taken from `parent`. Name,
/// parent and former name are never inherited.
pub open spec fn common_merged(
    r: RawServiceCommon,
    parent: RawServiceCommon,
    child: RawServiceCommon,
) -> bool {
    &&& raw::kept(child.name, r.name)
    &&& raw::kept(child.extends, r.extends)
    &&& raw::kept(child.migrate_from, r.migrate_from)
    &&& raw::inherited(r.port, child.port, parent.port)
    &&& raw::inherited(r.lifecycle, child.lifecycle, parent.lifecycle)
    &&& raw::inherited(r.priority, child.priority, parent.priority)
    &&& raw::inherited(r.idle_timeout, child.idle_timeout, parent.idle_timeout)
    &&& raw::inherited(r.description, child.description, parent.description)
    &&& raw::inherited(r.modality, child.modality, parent.modality)
    &&& raw::inherited(r.filters, child.filters, parent.filters)
    &&& raw::inherited(r.metadata, child.metadata, parent.metadata)
    &&& raw::inherited(r.devices, child.devices, parent.devices)
    &&& raw::inherited(r.env, child.env, parent.env)
    &&& raw::inherited(r.env_inherit, child.env_inherit, parent.env_inherit)
    &&& raw::inherited(r.health, child.health, parent.health)
    &&& raw::inherited(r.drain_timeout, child.drain_timeout, parent.drain_timeout)
    &&& raw::inherited(r.extended_stream_drain, child.extended_stream_drain, parent.extended_stream_drain)
    &&& raw::inherited(r.max_request_duration, child.max_request_duration, parent.max_request_duration)
    &&& raw::inherited(r.start_queue_depth, child.start_queue_depth, parent.start_queue_depth)
    &&& raw::inherited(r.tracking, child.tracking, parent.tracking)
    &&& raw::inherited(r.auto_restart, child.auto_restart, parent.auto_restart)
    &&& arguments_merged(r, parent, child)
}

/// Whether `r` is `child` with what it lacks taken from `parent`.
pub open spec fn llama_cpp_merged(
    r: RawLlamaCppService,
    parent: RawLlamaCppService,
    child: RawLlamaCppService,
) -> bool {
    &&& common_merged(r.common, parent.common, child.common)
    &&& raw::inherited(r.model, child.model, parent.model)
    &&& raw::inherited(r.mmproj, child.mmproj, parent.mmproj)
    &&& raw::inherited(r.context, child.context, parent.context)
    &&& raw::inherited(r.n_gpu_layers, child.n_gpu_layers, parent.n_gpu_layers)
    &&& raw::inherited(r.expert_offload, child.expert_offload, parent.expert_offload)
    &&& raw::inherited(r.runtime, child.runtime, parent.runtime)
    &&& raw::inherited(r.flash_attn, child.flash_attn, parent.flash_attn)
    &&& raw::inherited(r.cache_type_k, child.cache_type_k, parent.cache_type_k)
    &&& raw::inherited(r.cache_type_v, child.cache_type_v, parent.cache_type_v)
    &&& raw::inherited(r.mmap, child.mmap, parent.mmap)
    &&& raw::inherited(r.mlock, child.mlock, parent.mlock)
    &&& raw::inherited(r.parallel, child.parallel, parent.parallel)
    &&& raw::inherited(r.spec_type, child.spec_type, parent.spec_type)
    &&& raw::inherited(r.spec_draft_n_max, child.spec_draft_n_max, parent.spec_draft_n_max)
    &&& raw::inherited(r.draft_model, child.draft_model, parent.draft_model)
    &&& raw::inherited(r.kv_unified, child.kv_unified, parent.kv_unified)
    &&& raw::inherited(r.cache_idle_slots, child.cache_idle_slots, parent.cache_idle_slots)
    &&& raw::inherited(r.cache_ram_mb, child.cache_ram_mb, parent.cache_ram_mb)
    &&& raw::inherited(r.metrics, child.metrics, parent.metrics)
    &&& raw::inherited(r.slots, child.slots, parent.slots)
    &&& raw::inherited(r.batch_size, child.batch_size, parent.batch_size)
    &&& raw::inherited(r.ubatch_size, child.ubatch_size, parent.ubatch_size)
    &&& raw::inherited(r.threads, child.threads, parent.threads)
    &&& raw::inherited(r.threads_batch, child.threads_batch, parent.threads_batch)
    &&& raw::inherited(r.numa, child.numa, parent.numa)
    &&& raw::inherited(r.jinja, child.jinja, parent.jinja)
    &&& raw::inherited(r.chat_template_file, child.chat_template_file, parent.chat_template_file)
    &&& raw::inherited(r.override_tensor, child.override_tensor, parent.override_tensor)
    &&& raw::inherited(r.sampling, child.sampling, parent.sampling)
    &&& raw::inherited(r.estimation, child.estimation, parent.estimation)
    &&& raw::inherited(r.llama_server, child.llama_server, parent.llama_server)
    &&& raw::inherited(r.launcher, child.launcher, parent.launcher)
    &&& raw::inherited(r.allocation, child.allocation, parent.allocation)
    &&& raw::inherited(r.container, child.container, parent.container)
}

/// Whether `r` is `child` with what it lacks taken from `parent`.
pub open spec fn command_merged(
    r: RawCommandService,
    parent: RawCommandService,
    child: RawCommandService,
) -> bool {
    &&& common_merged(r.common, parent.common, child.common)
    &&& raw::inherited(r.command, child.command, parent.command)
    &&& raw::inherited(r.workdir, child.workdir, parent.workdir)
    &&& raw::inherited(r.allocation, child.allocation, parent.allocation)
    &&& raw::inherited(r.private_port, child.private_port, parent.private_port)
    &&& raw::inherited(r.shutdown_command, child.shutdown_command, parent.shutdown_command)
    &&& raw::inherited(r.openai_proxy, child.openai_proxy, parent.openai_proxy)
    &&& raw::inherited(r.container, child.container, parent.container)
}

/// Whether `r` is `child` with what it lacks taken from `parent`, a service
/// of the same template.
pub open spec fn service_merged(r: RawService, parent: RawService, child: RawService) -> bool {
    match (r, parent, child) {
        (RawService::LlamaCpp(r), RawService::LlamaCpp(p), RawService::LlamaCpp(c)) =>
            llama_cpp_merged(*r, *p, *c),
        (RawService::Command(r), RawService::Command(p), RawService::Command(c)) => command_merged(
            *r,
            *p,
            *c,
        ),
        _ => false,
    }
}

fn concat_lists(base: &Option<Vec<String>>, more: &Vec<String>) -> (r: Vec<String>)
    ensures
        r@ == list_of(*base) + more@,
{
    let mut r: Vec<String> = match base {
        Some(v) => {
            let copy: Vec<String> = v.clone();
            assert(copy@ =~= v@);
            copy
        },
        None => Vec::new(),
    };
    let ghost start = r@;
    for i in 0..more.len()
        invariant
            r@ == start + more@.take(i as int),
    {
        r.push(more[i].clone());
        assert(r@ =~= start + more@.take(i + 1));
    }
    assert(more@.take(more@.len() as int) =~= more@);
    r
}

fn merge_common(parent: &RawServiceCommon, child: &RawServiceCommon) -> (r: RawServiceCommon)
    ensures
        common_merged(r, *parent, *child),
{
    let base: &Option<Vec<String>> = if child.extra_args.is_some() {
        &child.extra_args
    } else {
        &parent.extra_args
    };
    let extra_args: Option<Vec<String>> = match &child.extra_args_append {
        Some(more) => Some(concat_lists(base, more)),
        None => keep(base),
    };
    RawServiceCommon {
        name: keep(&child.name),
        extends: keep(&child.extends),
        migrate_from: keep(&child.migrate_from),
        port: inherit(&child.port, &parent.port),
        lifecycle: inherit(&child.lifecycle, &parent.lifecycle),
        priority: inherit(&child.priority, &parent.priority),
        idle_timeout: inherit(&child.idle_timeout, &parent.idle_timeout),
        description: inherit(&child.description, &parent.description),
        modality: inherit(&child.modality, &parent.modality),
        filters: inherit(&child.filters, &parent.filters),
        metadata: inherit(&child.metadata, &parent.metadata),
        devices: inherit(&child.devices, &parent.devices),
        extra_args,
        extra_args_append: None,
        env: inherit(&child.env, &parent.env),
        env_inherit: inherit(&child.env_inherit, &parent.env_inherit),
        health: inherit(&child.health, &parent.health),
        drain_timeout: inherit(&child.drain_timeout, &parent.drain_timeout),
        extended_stream_drain: inherit(&child.extended_stream_drain, &parent.extended_stream_drain),
        max_request_duration: inherit(&child.max_request_duration, &parent.max_request_duration),
        start_queue_depth: inherit(&child.start_queue_depth, &parent.start_queue_depth),
        tracking: inherit(&child.tracking, &parent.tracking),
        auto_restart: inherit(&child.auto_restart, &parent.auto_restart),
    }
}

fn merge_llama_cpp(parent: &RawLlamaCppService, child: &RawLlamaCppService) -> (r:
    RawLlamaCppService)
    ensures
        llama_cpp_merged(r, *parent, *child),
{
    RawLlamaCppService {
        common: merge_common(&parent.common, &child.common),
        model: inherit(&child.model, &parent.model),
        mmproj: inherit(&child.mmproj, &parent.mmproj),
        context: inherit(&child.context, &parent.context),
        n_gpu_layers: inherit(&child.n_gpu_layers, &parent.n_gpu_layers),
        expert_offload: inherit(&child.expert_offload, &parent.expert_offload),
        runtime: inherit(&child.runtime, &parent.runtime),
        flash_attn: inherit(&child.flash_attn, &parent.flash_attn),
        cache_type_k: inherit(&child.cache_type_k, &parent.cache_type_k),
        cache_type_v: inherit(&child.cache_type_v, &parent.cache_type_v),
        mmap: inherit(&child.mmap, &parent.mmap),
        mlock: inherit(&child.mlock, &parent.mlock),
        parallel: inherit(&child.parallel, &parent.parallel),
        spec_type: inherit(&child.spec_type, &parent.spec_type),
        spec_draft_n_max: inherit(&child.spec_draft_n_max, &parent.spec_draft_n_max),
        draft_model: inherit(&child.draft_model, &parent.draft_model),
        kv_unified: inherit(&child.kv_unified, &parent.kv_unified),
        cache_idle_slots: inherit(&child.cache_idle_slots, &parent.cache_idle_slots),
        cache_ram_mb: inherit(&child.cache_ram_mb, &parent.cache_ram_mb),
        metrics: inherit(&child.metrics, &parent.metrics),
        slots: inherit(&child.slots, &parent.slots),
        batch_size: inherit(&child.batch_size, &parent.batch_size),
        ubatch_size: inherit(&child.ubatch_size, &parent.ubatch_size),
        threads: inherit(&child.threads, &parent.threads),
        threads_batch: inherit(&child.threads_batch, &parent.threads_batch),
        numa: inherit(&child.numa, &parent.numa),
        jinja: inherit(&child.jinja, &parent.jinja),
        chat_template_file: inherit(&child.chat_template_file, &parent.chat_template_file),
        override_tensor: inherit(&child.override_tensor, &parent.override_tensor),
        sampling: inherit(&child.sampling, &parent.sampling),
        estimation: inherit(&child.estimation, &parent.estimation),
        llama_server: inherit(&child.llama_server, &parent.llama_server),
        launcher: inherit(&child.launcher, &parent.launcher),
        allocation: inherit(&child.allocation, &parent.allocation),
        container: inherit(&child.container, &parent.container),
    }
}

fn merge_command(parent: &RawCommandService, child: &RawCommandService) -> (r: RawCommandService)
    ensures
        command_merged(r, *parent, *child),
{
    RawCommandService {
        common: merge_common(&parent.common, &child.common),
        command: inherit(&child.command, &parent.command),
        workdir: inherit(&child.workdir, &parent.workdir),
        allocation: inherit(&child.allocation, &parent.allocation),
        private_port: inherit(&child.private_port, &parent.private_port),
        shutdown_command: inherit(&child.shutdown_command, &parent.shutdown_command),
        openai_proxy: inherit(&child.openai_proxy, &parent.openai_proxy),
        container: inherit(&child.container, &parent.container),
    }
}

/// Whether two services have the same template.
pub open spec fn same_template(a: RawService, b: RawService) -> bool {
    (a is LlamaCpp) == (b is LlamaCpp)
}

/// Whether two services have the same template.
pub fn is_same_template(a: &RawService, b: &RawService) -> (r: bool)
    ensures
        r == same_template(*a, *b),
{
    match (a, b) {
        (RawService::LlamaCpp(_), RawService::LlamaCpp(_)) => true,
        (RawService::Command(_), RawService::Command(_)) => true,
        _ => false,
    }
}

/// The complaint about a service that extends one of another template.
pub open spec fn template_complaint(
    name: Seq<char>,
    child: RawService,
    parent: RawService,
) -> Seq<char> {
    "service "@ + name + ": template `"@ + child.template()
        + "` does not match parent's template `"@ + parent.template()
        + "`; cross-template extends is not allowed"@
}

/// A service with what it lacks taken from its parent. A parent of another
/// template is refused.
pub fn merge_service(parent: &RawService, child: &RawService, child_name: &str) -> (r: Result<
    RawService,
    ExpectedError,
>)
    ensures
        match r {
            Ok(out) => same_template(*parent, *child) && service_merged(out, *parent, *child),
            Err(e) => !same_template(*parent, *child) && crate::config::error::rejects(
                e,
                template_complaint(child_name@, *child, *parent),
            ),
        },
{
    match (parent, child) {
        (RawService::LlamaCpp(p), RawService::LlamaCpp(c)) => Ok(
            RawService::LlamaCpp(Box::new(merge_llama_cpp(p, c))),
        ),
        (RawService::Command(p), RawService::Command(c)) => Ok(
            RawService::Command(Box::new(merge_command(p, c))),
        ),
        _ => Err(fail(cross_template(child_name, child, parent))),
    }
}

/// The complaint about a service that extends one of another template.
pub fn cross_template(name: &str, child: &RawService, parent: &RawService) -> (r: String)
    ensures
        r@ == template_complaint(name@, *child, *parent),
{
    "service ".to_owned().concat(name).concat(": template `").concat(
        child.template_label(),
    ).concat("` does not match parent's template `").concat(parent.template_label()).concat(
        "`; cross-template extends is not allowed",
    )
}

/// A setting that a service and its parent both lack comes from the service
/// that the parent extends.
pub proof fn lemma_inherits_through_parent<T: Clone>(
    own: Option<T>,
    parent_own: Option<T>,
    grandparent: Option<T>,
    parent: Option<T>,
    resolved: Option<T>,
)
    requires
        own is None,
        parent_own is None,
        raw::inherited(parent, parent_own, grandparent),
        raw::inherited(resolved, own, parent),
    ensures
        resolved is Some <==> grandparent is Some,
        raw::kept(grandparent, parent) && raw::kept(parent, resolved),
{
}

} // verus!
