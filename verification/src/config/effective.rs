//! The config once every rule has been applied.

use crate::api::openai::models::Modality;
use crate::config::auto_restart::AutoRestartSettings;
use crate::config::container::ContainerConfig;
use crate::config::docs::DEFAULT_OPENAI_MAX_BODY_BYTES;
use crate::config::error;
use crate::config::error::ExpectedError;
use crate::config::value::{AnankeMetadata, Float32};
use crate::estimate::device_bytes::DeviceBytes;
use crate::estimate::types::SplitMode;
use crate::text_map::TextMap;
use vstd::prelude::*;
use vstd::string::*;

verus! {

/// The config of the daemon and of every service.
#[derive(Debug)]
pub struct EffectiveConfig {
    pub daemon: DaemonSettings,
    pub services: Vec<ServiceConfig>,
}

/// What holds for the whole daemon.
#[derive(Debug)]
pub struct DaemonSettings {
    /// Address of the management API.
    pub management_listen: String,
    /// Address of the OpenAI API.
    pub openai_listen: String,
    /// Where state is kept.
    pub data_dir: String,
    /// How long a service may drain when the daemon stops.
    pub shutdown_timeout_ms: u64,
    /// Whether the management API is reachable from outside.
    pub allow_external_management: bool,
    /// Whether the proxies of the services are reachable from outside.
    pub allow_external_services: bool,
    /// Whether the OpenAI API answers cross-origin requests.
    pub openai_allow_cors: bool,
    /// Largest request body of the OpenAI API.
    pub openai_max_body_bytes: usize,
}

impl Default for DaemonSettings {
    /// No addresses, nothing open to the outside.
    fn default() -> (r: Self)
        ensures
            r.management_listen@ == Seq::<char>::empty(),
            r.openai_listen@ == Seq::<char>::empty(),
            r.data_dir@ == Seq::<char>::empty(),
            r.shutdown_timeout_ms == 5_000,
            !r.allow_external_management,
            !r.allow_external_services,
            !r.openai_allow_cors,
            r.openai_max_body_bytes == DEFAULT_OPENAI_MAX_BODY_BYTES,
    {
        DaemonSettings {
            management_listen: String::new(),
            openai_listen: String::new(),
            data_dir: String::new(),
            shutdown_timeout_ms: 5_000,
            allow_external_management: false,
            allow_external_services: false,
            openai_allow_cors: false,
            openai_max_body_bytes: DEFAULT_OPENAI_MAX_BODY_BYTES,
        }
    }
}

/// What a service is.
#[derive(Debug, Clone, Copy, PartialEq, Eq, Structural)]
pub enum Template {
    LlamaCpp,
    Command,
}

/// The config of one service.
#[derive(Debug)]
pub struct ServiceConfig {
    /// Its name.
    pub name: String,
    /// Port that clients connect to.
    pub port: u16,
    /// Port of the child's own listener.
    pub private_port: u16,
    /// Its priority.
    pub priority: u8,
    /// What the operator reserves of each device in place of the policy.
    pub placement_override: DeviceBytes,
    /// GPUs it may use.
    pub gpu_allow: Vec<u32>,
    /// How it is split over several GPUs.
    pub split_mode: SplitMode,
    /// Share of each GPU in a tensor split.
    pub tensor_split_weights: Option<Vec<Float32>>,
    /// MiB of each GPU that it leaves free.
    pub gpu_headroom_mb: u64,
    /// How long it may be idle.
    pub idle_timeout_ms: u64,
    /// How long it may drain.
    pub drain_timeout_ms: u64,
    /// How long drained streams stay open.
    pub extended_stream_drain_ms: u64,
    /// How long a request may take.
    pub max_request_duration_ms: u64,
    /// When it is restarted.
    pub auto_restart: AutoRestartSettings,
    /// Whether the OpenAI API reaches it.
    pub openai_compat: bool,
    /// What it is for.
    pub description: Option<String>,
    /// What kind of model it serves.
    pub modality: Modality,
    /// How many requests may wait for its start.
    pub start_queue_depth: usize,
    /// Arguments behind its own.
    pub extra_args: Vec<String>,
    /// Environment of the child.
    pub env: TextMap<String>,
    /// Whether the child has the daemon's environment too.
    pub env_inherit: bool,
    /// What clients are told of it.
    pub metadata: AnankeMetadata,
    /// Container it runs in.
    pub container: Option<ContainerConfig>,
    /// What depends on its template.
    pub template_config: TemplateConfig,
}

impl ServiceConfig {
    /// What the service is.
    pub fn template(&self) -> (r: Template)
        ensures
            r == self.template_config.kind(),
    {
        self.template_config.template()
    }

    /// The settings of a llama.cpp service.
    pub fn llama_cpp(&self) -> (r: Option<&LlamaCppConfig>)
        ensures
            match self.template_config {
                TemplateConfig::LlamaCpp(lc) => r == Some(&*lc),
                TemplateConfig::Command(_) => r is None,
            },
    {
        match &self.template_config {
            TemplateConfig::LlamaCpp(lc) => Some(lc),
            TemplateConfig::Command(_) => None,
        }
    }

    /// The settings of a command service.
    pub fn command(&self) -> (r: Option<&CommandConfig>)
        ensures
            match self.template_config {
                TemplateConfig::LlamaCpp(_) => r is None,
                TemplateConfig::Command(cmd) => r == Some(&cmd),
            },
    {
        match &self.template_config {
            TemplateConfig::LlamaCpp(_) => None,
            TemplateConfig::Command(cmd) => Some(cmd),
        }
    }
}

/// What depends on a service's template.
#[derive(Debug)]
pub enum TemplateConfig {
    LlamaCpp(Box<LlamaCppConfig>),
    Command(CommandConfig),
}

impl TemplateConfig {
    /// The template.
    pub open spec fn kind(self) -> Template {
        match self {
            TemplateConfig::LlamaCpp(_) => Template::LlamaCpp,
            TemplateConfig::Command(_) => Template::Command,
        }
    }

    /// The template.
    pub fn template(&self) -> (r: Template)
        ensures
            r == self.kind(),
    {
        match self {
            TemplateConfig::LlamaCpp(_) => Template::LlamaCpp,
            TemplateConfig::Command(_) => Template::Command,
        }
    }
}

/// The settings of a llama.cpp service.
#[derive(Debug)]
pub struct LlamaCppConfig {
    /// The model file.
    pub model: String,
    /// The file of its vision projector.
    pub mmproj: Option<String>,
    /// Context in tokens.
    pub context: Option<u32>,
    /// How many layers go to the GPU.
    pub n_gpu_layers: Option<i32>,
    /// Whether flash attention is on.
    pub flash_attn: Option<bool>,
    /// How the keys of the KV cache are stored.
    pub cache_type_k: Option<String>,
    /// How the values of the KV cache are stored.
    pub cache_type_v: Option<String>,
    /// Whether the model file is mapped into memory.
    pub mmap: Option<bool>,
    /// Whether the model is locked in memory.
    pub mlock: Option<bool>,
    /// How many slots decode in parallel.
    pub parallel: Option<u32>,
    /// How tokens are drafted.
    pub spec_type: Option<String>,
    /// How many tokens are drafted at once.
    pub spec_draft_n_max: Option<u32>,
    /// The file of a draft model.
    pub draft_model: Option<String>,
    /// Whether all slots share one KV cache.
    pub kv_unified: Option<bool>,
    /// Whether idle slots keep their prompts.
    pub cache_idle_slots: Option<bool>,
    /// MiB of the prompt cache.
    pub cache_ram_mb: Option<u32>,
    /// Whether metrics are served.
    pub metrics: Option<bool>,
    /// Whether slots are served.
    pub slots: Option<bool>,
    /// Tokens in a batch.
    pub batch_size: Option<u32>,
    /// Tokens in a physical batch.
    pub ubatch_size: Option<u32>,
    /// Threads.
    pub threads: Option<u32>,
    /// Threads for batches.
    pub threads_batch: Option<u32>,
    /// Whether chat templates are Jinja.
    pub jinja: Option<bool>,
    /// The file of a chat template.
    pub chat_template_file: Option<String>,
    /// Where tensors are placed by hand.
    pub override_tensor: Vec<String>,
    /// What is executed.
    pub binary: String,
    /// What is executed in place of the binary.
    pub launcher: Option<Vec<String>>,
}

/// The settings of a command service.
#[derive(Debug)]
pub struct CommandConfig {
    /// What is executed.
    pub command: Vec<String>,
    /// Where it is executed.
    pub workdir: Option<String>,
    /// What is executed once the service is drained.
    pub shutdown_command: Option<Vec<String>>,
    /// Port the proxy forwards to.
    pub private_port_override: Option<u16>,
    /// Upstream the service fronts.
    pub openai_proxy: Option<OpenAiProxyConfig>,
}

/// The upstream that a command service fronts.
#[derive(Debug)]
pub struct OpenAiProxyConfig {
    /// Model that the upstream is asked for.
    pub upstream_model: String,
}

/// A model file that must be readable before the daemon starts.
#[derive(Debug, Clone, Copy)]
pub struct PreflightRead<'a> {
    /// The service that needs it.
    pub service: &'a str,
    /// Where it stands.
    pub path: &'a str,
    /// Whether it is a vision projector.
    pub projector: bool,
}

/// The origin recorded for model files that cannot be read.
pub const PREFLIGHT_ORIGIN: &'static str = "<preflight>";

/// What a read is of: service, path and whether it is a projector.
pub open spec fn read_of(r: PreflightRead) -> (Seq<char>, Seq<char>, bool) {
    (r.service@, r.path@, r.projector)
}

/// The files that one service needs: its model, and behind it its projector.
pub open spec fn reads_of(s: ServiceConfig) -> Seq<(Seq<char>, Seq<char>, bool)> {
    match s.template_config {
        TemplateConfig::Command(_) => Seq::empty(),
        TemplateConfig::LlamaCpp(lc) => match lc.mmproj {
            Some(mmproj) => seq![(s.name@, lc.model@, false), (s.name@, mmproj@, true)],
            None => seq![(s.name@, lc.model@, false)],
        },
    }
}

/// The files that all services need, service by service.
pub open spec fn all_reads(services: Seq<ServiceConfig>) -> Seq<(Seq<char>, Seq<char>, bool)>
    decreases services.len(),
{
    if services.len() == 0 {
        Seq::empty()
    } else {
        all_reads(services.drop_last()) + reads_of(services.last())
    }
}

/// The model files to be read before the daemon starts, in order.
pub fn preflight_reads<'a>(cfg: &'a EffectiveConfig) -> (r: Vec<PreflightRead<'a>>)
    ensures
        r@.map_values(|x: PreflightRead| read_of(x)) == all_reads(cfg.services@),
{
    let mut r: Vec<PreflightRead<'a>> = Vec::new();
    assert(r@.map_values(|x: PreflightRead| read_of(x)) =~= all_reads(cfg.services@.take(0)));
    for i in 0..cfg.services.len()
        invariant
            r@.map_values(|x: PreflightRead| read_of(x)) == all_reads(cfg.services@.take(i as int)),
    {
        let svc: &ServiceConfig = &cfg.services[i];
        let ghost before = r@;
        proof {
            assert(cfg.services@.take(i + 1).drop_last() =~= cfg.services@.take(i as int));
            assert(cfg.services@.take(i + 1).last() == *svc);
        }
        if let Some(lc) = svc.llama_cpp() {
            r.push(
                PreflightRead {
                    service: svc.name.as_str(),
                    path: lc.model.as_str(),
                    projector: false,
                },
            );
            if let Some(mmproj) = &lc.mmproj {
                r.push(
                    PreflightRead {
                        service: svc.name.as_str(),
                        path: mmproj.as_str(),
                        projector: true,
                    },
                );
            }
        }
        assert(r@.map_values(|x: PreflightRead| read_of(x)) =~= before.map_values(
            |x: PreflightRead| read_of(x),
        ) + reads_of(*svc));
    }
    assert(cfg.services@.take(cfg.services@.len() as int) =~= cfg.services@);
    r
}

/// The error for a model file that could not be read for the reason
/// `message`.
pub fn preflight_error(read: &PreflightRead, message: &str) -> (r: ExpectedError)
    ensures
        error::unparseable(
            r,
            PREFLIGHT_ORIGIN@,
            if read.projector {
                "service "@ + read.service@ + " mmproj: "@ + message@
            } else {
                "service "@ + read.service@ + ": "@ + message@
            },
        ),
{
    let lead: String = "service ".to_owned().concat(read.service);
    let text: String = if read.projector {
        lead.concat(" mmproj: ").concat(message)
    } else {
        lead.concat(": ").concat(message)
    };
    ExpectedError::config_unparseable(PREFLIGHT_ORIGIN, text)
}

} // verus!
