//! Rows of the tables, and the columns they are read from.

use crate::config::flags;
use vstd::prelude::*;

verus! {

/// A service that was ever configured.
#[derive(Debug, PartialEq, Eq)]
pub struct Service {
    pub service_id: i64,
    pub name: String,
    pub created_at: i64,
    pub deleted_at: Option<i64>,
}

/// The columns of a [`Service`], in order.
pub const SERVICE_COLUMNS: [&'static str; 4] = ["service_id", "name", "created_at", "deleted_at"];

/// A child that runs, or ran when the daemon stopped.
#[derive(Debug, PartialEq, Eq)]
pub struct RunningService {
    pub service_id: i64,
    pub run_id: i64,
    pub pid: Option<i64>,
    pub spawned_at: i64,
    pub command_line: String,
    pub allocation: String,
    pub state: String,
    pub workload_kind: Option<String>,
    pub runtime: Option<String>,
    pub container_name: Option<String>,
    pub container_id: Option<String>,
    /// What the container was launched with.
    pub runtime_executable: Option<String>,
}

/// The columns of a [`RunningService`], in order.
pub const RUNNING_SERVICE_COLUMNS: [&'static str; 12] = [
    "service_id",
    "run_id",
    "pid",
    "spawned_at",
    "command_line",
    "allocation",
    "state",
    "workload_kind",
    "runtime",
    "container_name",
    "container_id",
    "runtime_executable",
];

/// A container that is about to be launched, recorded before it is.
#[derive(Debug, PartialEq, Eq)]
pub struct ContainerLaunchIntent {
    pub intent_id: i64,
    pub service_id: i64,
    pub run_id: i64,
    pub owner_uuid: String,
    pub workload_kind: String,
    pub runtime: String,
    pub runtime_executable: String,
    pub container_name: String,
    pub labels_json: String,
    pub spec_json: String,
    pub container_id: Option<String>,
    pub state: String,
    pub created_at: i64,
}

impl Clone for ContainerLaunchIntent {
    fn clone(&self) -> (r: Self)
        ensures
            r == *self,
    {
        ContainerLaunchIntent {
            intent_id: self.intent_id,
            service_id: self.service_id,
            run_id: self.run_id,
            owner_uuid: self.owner_uuid.clone(),
            workload_kind: self.workload_kind.clone(),
            runtime: self.runtime.clone(),
            runtime_executable: self.runtime_executable.clone(),
            container_name: self.container_name.clone(),
            labels_json: self.labels_json.clone(),
            spec_json: self.spec_json.clone(),
            container_id: match &self.container_id {
                Some(id) => Some(id.clone()),
                None => None,
            },
            state: self.state.clone(),
            created_at: self.created_at,
        }
    }
}

/// The columns of a [`ContainerLaunchIntent`], in order.
pub const LAUNCH_INTENT_COLUMNS: [&'static str; 13] = [
    "intent_id",
    "service_id",
    "run_id",
    "owner_uuid",
    "workload_kind",
    "runtime",
    "runtime_executable",
    "container_name",
    "labels_json",
    "spec_json",
    "container_id",
    "state",
    "created_at",
];

/// A line of a service's output.
#[derive(Debug, PartialEq, Eq)]
pub struct ServiceLog {
    pub service_id: i64,
    pub run_id: i64,
    pub timestamp_ms: i64,
    pub seq: i64,
    pub stream: String,
    pub line: String,
}

/// The columns of a [`ServiceLog`], in order.
pub const SERVICE_LOG_COLUMNS: [&'static str; 6] = [
    "service_id",
    "run_id",
    "timestamp_ms",
    "seq",
    "stream",
    "line",
];

/// A request that was served.
#[derive(Debug, PartialEq, Eq)]
pub struct RequestMetric {
    pub metric_id: i64,
    pub service_id: i64,
    pub run_id: Option<i64>,
    /// When it began.
    pub timestamp_ms: i64,
    pub endpoint: String,
    pub model: String,
    pub prompt_tokens: Option<i64>,
    pub completion_tokens: Option<i64>,
    /// Tokens of the prompt that were evaluated.
    pub prompt_eval_tokens: Option<i64>,
    pub duration_ms: Option<i64>,
    pub ttft_ms: Option<i64>,
    pub prompt_ms: Option<i64>,
    pub predicted_ms: Option<i64>,
    /// Tokens that were drafted.
    pub draft_tokens: Option<i64>,
    /// Drafted tokens that were accepted.
    pub draft_tokens_accepted: Option<i64>,
    pub status_code: i64,
}

/// A restart that a watchdog asked for.
#[derive(Debug, PartialEq, Eq)]
pub struct ServiceRestart {
    pub restart_id: i64,
    pub service_id: i64,
    /// The run that was ended.
    pub run_id: Option<i64>,
    pub at_ms: i64,
    /// What fired.
    pub trigger: String,
    /// Why.
    pub detail: String,
}

impl Clone for ServiceRestart {
    fn clone(&self) -> (r: Self)
        ensures
            r == *self,
    {
        ServiceRestart {
            restart_id: self.restart_id,
            service_id: self.service_id,
            run_id: self.run_id,
            at_ms: self.at_ms,
            trigger: self.trigger.clone(),
            detail: self.detail.clone(),
        }
    }
}

/// The columns of a [`ServiceRestart`], in order.
pub const SERVICE_RESTART_COLUMNS: [&'static str; 6] = [
    "restart_id",
    "service_id",
    "run_id",
    "at_ms",
    "trigger_name",
    "detail",
];

/// The memory of a device at one time.
#[derive(Debug, PartialEq, Eq)]
pub struct DeviceSample {
    pub sample_id: i64,
    pub device: String,
    pub timestamp_ms: i64,
    pub total_bytes: i64,
    pub free_bytes: i64,
    pub used_bytes: i64,
}

impl Clone for DeviceSample {
    fn clone(&self) -> (r: Self)
        ensures
            r == *self,
    {
        DeviceSample {
            sample_id: self.sample_id,
            device: self.device.clone(),
            timestamp_ms: self.timestamp_ms,
            total_bytes: self.total_bytes,
            free_bytes: self.free_bytes,
            used_bytes: self.used_bytes,
        }
    }
}

/// Columns as a query lists them, each behind `prefix`.
pub fn column_list(columns: &[&str], prefix: &str) -> (r: String)
    ensures
        r@ == flags::list_of(columns@, prefix@, ""@),
{
    flags::wrapped_list(columns, prefix, "")
}

/// A count that was read back: a sum over no rows is none, and nothing is
/// ever fewer than zero.
pub open spec fn counted(n: Option<i64>) -> nat {
    match n {
        Some(x) => if x > 0 {
            x as nat
        } else {
            0
        },
        None => 0,
    }
}

/// A count that was read back.
pub fn count_of(n: Option<i64>) -> (r: u64)
    ensures
        r == counted(n),
{
    match n {
        Some(x) => if x > 0 {
            x as u64
        } else {
            0
        },
        None => 0,
    }
}

} // verus!
