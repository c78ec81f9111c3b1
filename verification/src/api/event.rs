//! Events that clients are told of.

use crate::config::value::Float32;
use crate::text_map::TextMap;
use vstd::prelude::*;

verus! {

/// One event. All but `Overflow` say when they happened.
#[derive(Debug)]
pub enum Event {
    /// A service is in another state.
    StateChanged { service: String, from: String, to: String, at_ms: i64 },
    /// A service holds other memory.
    AllocationChanged { service: String, reservations: TextMap<u64>, at_ms: i64 },
    /// The config was read again.
    ConfigReloaded { at_ms: i64, changed_services: Vec<String> },
    /// The estimates of a service, in the pool `class`, are off by another
    /// factor.
    EstimatorDrift { service: String, class: String, rolling_mean: Float32, at_ms: i64 },
    /// A service was restarted.
    AutoRestarted { service: String, trigger: String, detail: String, at_ms: i64 },
    /// Events were dropped.
    Overflow { dropped: u64 },
}

impl Event {
    /// The word that tells events apart.
    pub open spec fn tag_view(&self) -> Seq<char> {
        match self {
            Event::StateChanged { .. } => "state_changed"@,
            Event::AllocationChanged { .. } => "allocation_changed"@,
            Event::ConfigReloaded { .. } => "config_reloaded"@,
            Event::EstimatorDrift { .. } => "estimator_drift"@,
            Event::AutoRestarted { .. } => "auto_restarted"@,
            Event::Overflow { .. } => "overflow"@,
        }
    }

    /// The word that tells events apart.
    pub fn tag(&self) -> (r: &'static str)
        ensures
            r@ == self.tag_view(),
    {
        match self {
            Event::StateChanged { .. } => "state_changed",
            Event::AllocationChanged { .. } => "allocation_changed",
            Event::ConfigReloaded { .. } => "config_reloaded",
            Event::EstimatorDrift { .. } => "estimator_drift",
            Event::AutoRestarted { .. } => "auto_restarted",
            Event::Overflow { .. } => "overflow",
        }
    }

    /// When it happened, in milliseconds of Unix time.
    pub fn at_ms(&self) -> (r: Option<i64>)
        ensures
            match self {
                Event::StateChanged { at_ms, .. } => r == Some(*at_ms),
                Event::AllocationChanged { at_ms, .. } => r == Some(*at_ms),
                Event::ConfigReloaded { at_ms, .. } => r == Some(*at_ms),
                Event::EstimatorDrift { at_ms, .. } => r == Some(*at_ms),
                Event::AutoRestarted { at_ms, .. } => r == Some(*at_ms),
                Event::Overflow { .. } => r is None,
            },
    {
        match self {
            Event::StateChanged { at_ms, .. } => Some(*at_ms),
            Event::AllocationChanged { at_ms, .. } => Some(*at_ms),
            Event::ConfigReloaded { at_ms, .. } => Some(*at_ms),
            Event::EstimatorDrift { at_ms, .. } => Some(*at_ms),
            Event::AutoRestarted { at_ms, .. } => Some(*at_ms),
            Event::Overflow { .. } => None,
        }
    }
}

} // verus!
