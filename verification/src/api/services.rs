//! Requests on services and what they are answered.

use crate::api::errors::ApiErrorBody;
use vstd::prelude::*;

verus! {

/// Whether a launch command is of a live process.
#[derive(Debug, Clone, Copy, PartialEq, Eq, Structural)]
pub enum LaunchCommandSource {
    /// The service runs; this is what it was launched with.
    Running,
    /// This is what it would be launched with.
    Preview,
}

/// A variable of a child's environment.
#[derive(Debug, PartialEq, Eq)]
pub struct EnvVar {
    pub key: String,
    pub value: String,
}

/// How a service is launched, on its own and beside what runs.
#[derive(Debug, PartialEq, Eq)]
pub struct LaunchCommandResponse {
    /// With nothing else running.
    pub on_empty: LaunchCommand,
    /// Beside what runs now; none where it does not fit.
    pub active: Option<LaunchCommand>,
}

/// What is executed, and in which environment.
#[derive(Debug, PartialEq, Eq)]
pub struct LaunchCommand {
    pub source: LaunchCommandSource,
    /// Arguments, the program first; in a container, what runs in it.
    pub argv: Vec<String>,
    /// Variables that are set, in order of their keys.
    pub env: Vec<EnvVar>,
    /// Whether the daemon's own variables are there too.
    pub env_inherit: bool,
    /// The container, where there is one.
    pub container: Option<LaunchContainer>,
}

/// The container of a launch command.
#[derive(Debug, PartialEq, Eq)]
pub struct LaunchContainer {
    pub runtime: String,
    pub image: String,
    /// Its name, but for the number of the run.
    pub name_pattern: String,
    /// What runs in it.
    pub argv: Vec<String>,
    /// Variables that are set in it.
    pub env: Vec<EnvVar>,
    /// Names of variables that are passed on, without their values.
    pub env_passthrough: Vec<String>,
    pub mounts: Vec<LaunchMount>,
    pub network: String,
    /// The published port, on a bridge network.
    pub publication: Option<String>,
    pub ipc: String,
    pub gpu_devices: Vec<String>,
    /// What creates it.
    pub create_argv: Vec<String>,
}

/// A mount of a container.
#[derive(Debug, PartialEq, Eq)]
pub struct LaunchMount {
    pub source: String,
    pub target: String,
    pub read_only: bool,
}

/// What became of a request to disable a service.
#[derive(Debug, Clone, Copy, PartialEq, Eq, Structural)]
pub enum DisableResponse {
    Disabled,
    AlreadyDisabled,
}

impl DisableResponse {
    /// The word that tells outcomes apart.
    pub fn status(self) -> (r: &'static str)
        ensures
            r@ == (match self {
                DisableResponse::Disabled => "disabled"@,
                DisableResponse::AlreadyDisabled => "already_disabled"@,
            }),
    {
        match self {
            DisableResponse::Disabled => "disabled",
            DisableResponse::AlreadyDisabled => "already_disabled",
        }
    }
}

/// What became of a request to enable a service.
#[derive(Debug, Clone, Copy, PartialEq, Eq, Structural)]
pub enum EnableResponse {
    Enabled,
    /// It was not disabled.
    NotDisabled,
    AlreadyEnabled,
}

impl EnableResponse {
    /// The word that tells outcomes apart.
    pub fn status(self) -> (r: &'static str)
        ensures
            r@ == (match self {
                EnableResponse::Enabled => "enabled"@,
                EnableResponse::NotDisabled => "not_disabled"@,
                EnableResponse::AlreadyEnabled => "already_enabled"@,
            }),
    {
        match self {
            EnableResponse::Enabled => "enabled",
            EnableResponse::NotDisabled => "not_disabled",
            EnableResponse::AlreadyEnabled => "already_enabled",
        }
    }
}

/// What became of a request to start a service.
#[derive(Debug, PartialEq, Eq)]
pub enum StartResponse {
    AlreadyRunning,
    /// It starts, as run `run_id`.
    Started { run_id: i64 },
    /// Too many requests wait for its start.
    QueueFull,
    /// It cannot start.
    Unavailable { error: ApiErrorBody },
}

impl StartResponse {
    /// The word that tells outcomes apart.
    pub fn status(&self) -> (r: &'static str)
        ensures
            r@ == (match self {
                StartResponse::AlreadyRunning => "already_running"@,
                StartResponse::Started { .. } => "started"@,
                StartResponse::QueueFull => "queue_full"@,
                StartResponse::Unavailable { .. } => "unavailable"@,
            }),
    {
        match self {
            StartResponse::AlreadyRunning => "already_running",
            StartResponse::Started { .. } => "started",
            StartResponse::QueueFull => "queue_full",
            StartResponse::Unavailable { .. } => "unavailable",
        }
    }
}

/// What became of a request to stop a service.
#[derive(Debug, Clone, Copy, PartialEq, Eq, Structural)]
pub enum StopResponse {
    NotRunning,
    /// Its work finished, then it stopped.
    Drained,
}

impl StopResponse {
    /// The word that tells outcomes apart.
    pub fn status(self) -> (r: &'static str)
        ensures
            r@ == (match self {
                StopResponse::NotRunning => "not_running"@,
                StopResponse::Drained => "drained"@,
            }),
    {
        match self {
            StopResponse::NotRunning => "not_running",
            StopResponse::Drained => "drained",
        }
    }
}

} // verus!
