//! When a service is restarted without being asked.

use crate::config::docs::{
    DEFAULT_AUTO_RESTART_FLAP_WINDOW_MS, DEFAULT_AUTO_RESTART_GENERATION_STALL_MS,
    DEFAULT_AUTO_RESTART_GENERATION_STALL_POLL_MS, DEFAULT_AUTO_RESTART_MAX_ERROR_RATE,
    DEFAULT_AUTO_RESTART_MAX_RESTARTS, DEFAULT_AUTO_RESTART_MIN_REQUESTS,
    DEFAULT_AUTO_RESTART_MIN_UPTIME_MS, DEFAULT_AUTO_RESTART_POLL_INTERVAL_MS,
    DEFAULT_AUTO_RESTART_SPEC_COLLAPSE_MIN_DRAFT_TOKENS,
    DEFAULT_AUTO_RESTART_SPEC_COLLAPSE_POLL_MS, DEFAULT_AUTO_RESTART_SPEC_COLLAPSE_WINDOW_MS,
    DEFAULT_AUTO_RESTART_TTFT_STALL_MS, DEFAULT_AUTO_RESTART_WINDOW_MS,
};
use crate::config::value::Float64;
use vstd::prelude::*;

verus! {

/// How a periodic restart is timed where a service does not say.
pub const DEFAULT_AUTO_RESTART_PERIODIC_MODE: PeriodicMode = PeriodicMode::OnRequest;

/// The triggers of a service, each on or off, and what limits them all.
#[derive(Debug, Clone, Copy, PartialEq, Eq, Structural)]
pub struct AutoRestartSettings {
    /// Too many requests fail.
    pub error_rate: Option<ErrorRateTrigger>,
    /// A run has lived long enough.
    pub periodic: Option<PeriodicTrigger>,
    /// No request gets a first token.
    pub ttft_stall: Option<TtftStallTrigger>,
    /// The progress counters stay flat.
    pub generation_stall: Option<GenerationStallTrigger>,
    /// No drafted token is accepted.
    pub spec_collapse: Option<SpecCollapseTrigger>,
    /// How long a fresh run must live before it may be restarted.
    pub min_uptime_ms: u64,
    /// Restarts within the flap window before the service is disabled.
    pub max_restarts: u32,
    /// Window over which restarts are counted.
    pub flap_window_ms: u64,
}

impl AutoRestartSettings {
    /// Whether a trigger is on.
    pub open spec fn enabled(self) -> bool {
        ||| self.error_rate is Some
        ||| self.periodic is Some
        ||| self.ttft_stall is Some
        ||| self.generation_stall is Some
        ||| self.spec_collapse is Some
    }

    /// Whether a trigger is on.
    pub fn any_enabled(&self) -> (r: bool)
        ensures
            r == self.enabled(),
    {
        self.error_rate.is_some() || self.periodic.is_some() || self.ttft_stall.is_some()
            || self.generation_stall.is_some() || self.spec_collapse.is_some()
    }

    /// Whether the limits are the defaults.
    pub open spec fn default_limits(self) -> bool {
        &&& self.min_uptime_ms == DEFAULT_AUTO_RESTART_MIN_UPTIME_MS
        &&& self.max_restarts == DEFAULT_AUTO_RESTART_MAX_RESTARTS
        &&& self.flap_window_ms == DEFAULT_AUTO_RESTART_FLAP_WINDOW_MS
    }

    /// Every trigger off, the limits at their defaults.
    pub fn disabled() -> (r: Self)
        ensures
            !r.enabled(),
            r.default_limits(),
    {
        AutoRestartSettings {
            error_rate: None,
            periodic: None,
            ttft_stall: None,
            generation_stall: None,
            spec_collapse: None,
            ..Self::default()
        }
    }
}

impl Default for AutoRestartSettings {
    /// What a llama.cpp service has: every trigger but the periodic one.
    fn default() -> (r: Self)
        ensures
            r.error_rate matches Some(t) && t.is_default(),
            r.periodic is None,
            r.ttft_stall matches Some(t) && t.timeout_ms == DEFAULT_AUTO_RESTART_TTFT_STALL_MS,
            r.generation_stall matches Some(t) && t.is_default(),
            r.spec_collapse matches Some(t) && t.is_default(),
            r.default_limits(),
    {
        AutoRestartSettings {
            error_rate: Some(ErrorRateTrigger::default()),
            periodic: None,
            ttft_stall: Some(TtftStallTrigger::default()),
            generation_stall: Some(GenerationStallTrigger::default()),
            spec_collapse: Some(SpecCollapseTrigger::default()),
            min_uptime_ms: DEFAULT_AUTO_RESTART_MIN_UPTIME_MS,
            max_restarts: DEFAULT_AUTO_RESTART_MAX_RESTARTS,
            flap_window_ms: DEFAULT_AUTO_RESTART_FLAP_WINDOW_MS,
        }
    }
}

/// Restart when a request waits too long for its first token.
#[derive(Debug, Clone, Copy, PartialEq, Eq, Structural)]
pub struct TtftStallTrigger {
    /// How long it may wait.
    pub timeout_ms: u64,
}

impl Default for TtftStallTrigger {
    fn default() -> (r: Self)
        ensures
            r.timeout_ms == DEFAULT_AUTO_RESTART_TTFT_STALL_MS,
    {
        TtftStallTrigger { timeout_ms: DEFAULT_AUTO_RESTART_TTFT_STALL_MS }
    }
}

/// Restart when the progress counters stay flat under load.
#[derive(Debug, Clone, Copy, PartialEq, Eq, Structural)]
pub struct GenerationStallTrigger {
    /// How long they may stay flat.
    pub timeout_ms: u64,
    /// How often they are read.
    pub poll_interval_ms: u64,
}

impl GenerationStallTrigger {
    /// Whether this is the default trigger.
    pub open spec fn is_default(self) -> bool {
        &&& self.timeout_ms == DEFAULT_AUTO_RESTART_GENERATION_STALL_MS
        &&& self.poll_interval_ms == DEFAULT_AUTO_RESTART_GENERATION_STALL_POLL_MS
    }
}

impl Default for GenerationStallTrigger {
    fn default() -> (r: Self)
        ensures
            r.is_default(),
    {
        GenerationStallTrigger {
            timeout_ms: DEFAULT_AUTO_RESTART_GENERATION_STALL_MS,
            poll_interval_ms: DEFAULT_AUTO_RESTART_GENERATION_STALL_POLL_MS,
        }
    }
}

/// Restart when no drafted token is accepted any more.
#[derive(Debug, Clone, Copy, PartialEq, Eq, Structural)]
pub struct SpecCollapseTrigger {
    /// Window over which acceptance is measured.
    pub window_ms: u64,
    /// Drafted tokens the window must hold.
    pub min_draft_tokens: u64,
    /// How often the metrics are read.
    pub poll_interval_ms: u64,
}

impl SpecCollapseTrigger {
    /// Whether this is the default trigger.
    pub open spec fn is_default(self) -> bool {
        &&& self.window_ms == DEFAULT_AUTO_RESTART_SPEC_COLLAPSE_WINDOW_MS
        &&& self.min_draft_tokens == DEFAULT_AUTO_RESTART_SPEC_COLLAPSE_MIN_DRAFT_TOKENS
        &&& self.poll_interval_ms == DEFAULT_AUTO_RESTART_SPEC_COLLAPSE_POLL_MS
    }
}

impl Default for SpecCollapseTrigger {
    fn default() -> (r: Self)
        ensures
            r.is_default(),
    {
        SpecCollapseTrigger {
            window_ms: DEFAULT_AUTO_RESTART_SPEC_COLLAPSE_WINDOW_MS,
            min_draft_tokens: DEFAULT_AUTO_RESTART_SPEC_COLLAPSE_MIN_DRAFT_TOKENS,
            poll_interval_ms: DEFAULT_AUTO_RESTART_SPEC_COLLAPSE_POLL_MS,
        }
    }
}

/// Restart when too many requests fail.
#[derive(Debug, Clone, Copy, PartialEq, Eq, Structural)]
pub struct ErrorRateTrigger {
    /// Window over which the rate is measured.
    pub window_ms: u64,
    /// Share of requests that must fail.
    pub max_error_rate: Float64,
    /// Requests the window must hold.
    pub min_requests: u32,
    /// How often the metrics are read.
    pub poll_interval_ms: u64,
    /// What counts as a failure.
    pub statuses: ErrorStatusClass,
}

impl ErrorRateTrigger {
    /// Whether this is the default trigger.
    pub open spec fn is_default(self) -> bool {
        &&& self.window_ms == DEFAULT_AUTO_RESTART_WINDOW_MS
        &&& self.max_error_rate.bits == DEFAULT_AUTO_RESTART_MAX_ERROR_RATE
        &&& self.min_requests == DEFAULT_AUTO_RESTART_MIN_REQUESTS
        &&& self.poll_interval_ms == DEFAULT_AUTO_RESTART_POLL_INTERVAL_MS
        &&& self.statuses == ErrorStatusClass::ServerOnly
    }
}

impl Default for ErrorRateTrigger {
    fn default() -> (r: Self)
        ensures
            r.is_default(),
    {
        ErrorRateTrigger {
            window_ms: DEFAULT_AUTO_RESTART_WINDOW_MS,
            max_error_rate: Float64 { bits: DEFAULT_AUTO_RESTART_MAX_ERROR_RATE },
            min_requests: DEFAULT_AUTO_RESTART_MIN_REQUESTS,
            poll_interval_ms: DEFAULT_AUTO_RESTART_POLL_INTERVAL_MS,
            statuses: ErrorStatusClass::ServerOnly,
        }
    }
}

/// Which HTTP statuses count as failures.
#[derive(Debug, Clone, Copy, PartialEq, Eq, Structural)]
pub enum ErrorStatusClass {
    /// Server errors.
    ServerOnly,
    /// Client and server errors.
    ClientAndServer,
}

impl ErrorStatusClass {
    /// Whether a status counts.
    pub open spec fn counts(self, status: u16) -> bool {
        match self {
            ErrorStatusClass::ServerOnly => 500 <= status < 600,
            ErrorStatusClass::ClientAndServer => 400 <= status,
        }
    }

    /// The least status that counts.
    pub open spec fn least(self) -> u16 {
        match self {
            ErrorStatusClass::ServerOnly => 500,
            ErrorStatusClass::ClientAndServer => 400,
        }
    }

    /// Whether a status counts.
    pub fn is_error(self, status: u16) -> (r: bool)
        ensures
            r == self.counts(status),
    {
        match self {
            ErrorStatusClass::ServerOnly => 500 <= status && status < 600,
            ErrorStatusClass::ClientAndServer => status >= 400,
        }
    }

    /// The least status that counts.
    pub fn min_status_code(self) -> (r: u16)
        ensures
            r == self.least(),
    {
        match self {
            ErrorStatusClass::ServerOnly => 500,
            ErrorStatusClass::ClientAndServer => 400,
        }
    }
}

/// Of the statuses that exist, those below 600, exactly those from the least
/// one on count as errors, so a query needs no other bound.
pub proof fn lemma_least_status_suffices(class: ErrorStatusClass, status: u16)
    requires
        status < 600,
    ensures
        class.counts(status) <==> status >= class.least(),
{
}

/// Restart a run that has lived long enough.
#[derive(Debug, Clone, Copy, PartialEq, Eq, Structural)]
pub struct PeriodicTrigger {
    /// How long a run may live.
    pub interval_ms: u64,
    /// What happens then.
    pub mode: PeriodicMode,
}

/// How a periodic restart is timed.
#[derive(Debug, Clone, Copy, PartialEq, Eq, Structural)]
pub enum PeriodicMode {
    /// At once.
    Immediate,
    /// When no request is in flight.
    OnIdle,
    /// With the next request.
    OnRequest,
}

} // verus!
