//! Restarts within a window of time.

use crate::db::models::ServiceRestart;
use vstd::prelude::*;

verus! {

/// The restarts of a window, oldest first.
#[derive(Debug, PartialEq, Eq)]
pub struct RestartsResponse {
    pub restarts: Vec<ServiceRestartEntry>,
}

/// One restart, with the service it belongs to.
#[derive(Debug, PartialEq, Eq)]
pub struct ServiceRestartEntry {
    /// The service.
    pub service: String,
    /// When, in milliseconds of Unix time.
    pub at_ms: i64,
    /// What fired.
    pub trigger: String,
    /// Why.
    pub detail: String,
    /// The run that was ended.
    pub run_id: Option<i64>,
}

/// Whether `entry` tells of the restart `row` of `service`.
pub open spec fn tells(
    entry: ServiceRestartEntry,
    service: Seq<char>,
    row: ServiceRestart,
) -> bool {
    &&& entry.service@ == service
    &&& entry.at_ms == row.at_ms
    &&& entry.trigger@ == row.trigger@
    &&& entry.detail@ == row.detail@
    &&& entry.run_id == row.run_id
}

impl RestartsResponse {
    /// The response that tells of `rows`, in their order.
    pub fn new(rows: &[(String, ServiceRestart)]) -> (r: Self)
        ensures
            r.restarts@.len() == rows@.len(),
            forall|i: int|
                0 <= i < rows@.len() ==> tells(
                    #[trigger] r.restarts@[i],
                    rows@[i].0@,
                    rows@[i].1,
                ),
    {
        let mut restarts: Vec<ServiceRestartEntry> = Vec::new();
        for i in 0..rows.len()
            invariant
                restarts@.len() == i,
                forall|j: int|
                    0 <= j < i ==> tells(#[trigger] restarts@[j], rows@[j].0@, rows@[j].1),
        {
            let row: &ServiceRestart = &rows[i].1;
            restarts.push(
                ServiceRestartEntry {
                    service: rows[i].0.clone(),
                    at_ms: row.at_ms,
                    trigger: row.trigger.clone(),
                    detail: row.detail.clone(),
                    run_id: row.run_id,
                },
            );
        }
        RestartsResponse { restarts }
    }
}

} // verus!
