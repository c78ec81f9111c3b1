//! The tables of the restart watchdogs.

use crate::config::docs::{
    section, DEFAULT_AUTO_RESTART_FLAP_WINDOW_MS, DEFAULT_AUTO_RESTART_GENERATION_STALL_MS,
    DEFAULT_AUTO_RESTART_GENERATION_STALL_POLL_MS, DEFAULT_AUTO_RESTART_MAX_RESTARTS,
    DEFAULT_AUTO_RESTART_MIN_REQUESTS, DEFAULT_AUTO_RESTART_MIN_UPTIME_MS,
    DEFAULT_AUTO_RESTART_POLL_INTERVAL_MS, DEFAULT_AUTO_RESTART_SPEC_COLLAPSE_MIN_DRAFT_TOKENS,
    DEFAULT_AUTO_RESTART_SPEC_COLLAPSE_POLL_MS, DEFAULT_AUTO_RESTART_SPEC_COLLAPSE_WINDOW_MS,
    DEFAULT_AUTO_RESTART_TTFT_STALL_MS, DEFAULT_AUTO_RESTART_WINDOW_MS, Row, SectionDoc, Shown,
    Words,
};
use vstd::prelude::*;

verus! {

/// The fields under "Auto-restart".
pub const SERVICE_AUTO_RESTART: [Row; 8] = [
    (
        "error_rate",
        "table | `false`",
        (Shown::Plain, "on, with the defaults below", 0),
        ("Error-rate watchdog. `false` disables it; a table enables it and overrides individual thresholds", Words::Nothing, ""),
    ),
    (
        "periodic",
        "table | `false`",
        (Shown::Plain, "off", 0),
        ("Periodic restart. Absent or `false` disables it; a table (with an `interval`) enables it", Words::Nothing, ""),
    ),
    (
        "ttft_stall",
        "table | `false`",
        (Shown::Plain, "on, with the defaults below", 0),
        ("Time-to-first-token stall watchdog. `false` disables it; a table enables it and overrides the timeout. Catches a wedged child that accepts a streaming request but never emits a frame — a failure the error-rate watchdog cannot see, because the request never completes. Restarts only when the whole service has gone silent, so it never fights healthy concurrent traffic", Words::Nothing, ""),
    ),
    (
        "generation_stall",
        "table | bool",
        (Shown::Plain, "on for `llama-cpp` services, off for `command` services", 0),
        ("Generation-stall watchdog. Polls the child's `/metrics` progress counters and restarts when they stay flat while requests are in flight — the wedge `ttft_stall` cannot see, because non-streaming requests give the proxy nothing to watch. Needs the child's `--metrics` endpoint; see the generation-stall trigger section below", Words::Nothing, ""),
    ),
    (
        "spec_collapse",
        "table | bool",
        (Shown::Plain, "on for `llama-cpp` services, off for `command` services", 0),
        ("Speculative-decoding collapse watchdog. Fires when a run that previously accepted draft tokens stops accepting any across a full window of drafting requests, which indicates corrupted inference state (e.g. all-NaN logits) that still returns HTTP 200 and is invisible to the other watchdogs. On by default only when `spec_type` is set; an explicit per-service enable without `spec_type` is rejected. See the spec-collapse trigger section below", Words::Nothing, ""),
    ),
    (
        "min_uptime",
        "duration string",
        (Shown::Duration, "", DEFAULT_AUTO_RESTART_MIN_UPTIME_MS),
        ("Minimum uptime a fresh run must reach before an error-rate, generation-stall, or spec-collapse restart may fire — the anti-flap cooldown", Words::Nothing, ""),
    ),
    (
        "max_restarts",
        "u32",
        (Shown::Number, "", DEFAULT_AUTO_RESTART_MAX_RESTARTS as u64),
        ("Watchdog restarts (error-rate, stall, generation-stall, and spec-collapse) tolerated within `flap_window` before the service is disabled with reason `auto_restart_loop` instead of restarted again. Periodic restarts are intentional and do not count toward this cap", Words::Nothing, ""),
    ),
    (
        "flap_window",
        "duration string",
        (Shown::Duration, "", DEFAULT_AUTO_RESTART_FLAP_WINDOW_MS),
        ("Sliding window over which `max_restarts` is counted", Words::Nothing, ""),
    ),
];

/// The fields under "Error-rate trigger".
pub const SERVICE_AUTO_RESTART_ERROR_RATE: [Row; 5] = [
    (
        "window",
        "duration string",
        (Shown::Duration, "", DEFAULT_AUTO_RESTART_WINDOW_MS),
        ("Rolling window over which the error rate is measured. Scoped to the current run, so a fresh process starts from zero", Words::Nothing, ""),
    ),
    (
        "max_error_rate",
        "float (0.0–1.0]",
        (Shown::Quoted, "0.5", 0),
        ("Fraction of requests in the window that must be errors to trigger", Words::Nothing, ""),
    ),
    (
        "min_requests",
        "u32",
        (Shown::Number, "", DEFAULT_AUTO_RESTART_MIN_REQUESTS as u64),
        ("Minimum request count in the window before the ratio is trusted — stops a 2-of-2-failed service from restarting", Words::Nothing, ""),
    ),
    (
        "poll_interval",
        "duration string",
        (Shown::Duration, "", DEFAULT_AUTO_RESTART_POLL_INTERVAL_MS),
        ("How often the watchdog queries the metrics store", Words::Nothing, ""),
    ),
    (
        "error_statuses",
        "`\"5xx\"` | `\"4xx+5xx\"`",
        (Shown::Plain, "`5xx`", 0),
        ("Which HTTP statuses count as errors. `5xx` (server errors only) is the default because a 4xx is usually the client's fault, not the service's. `4xx+5xx` counts any status ≥ 400", Words::Nothing, ""),
    ),
];

/// The fields under "Periodic trigger".
pub const SERVICE_AUTO_RESTART_PERIODIC: [Row; 2] = [
    (
        "interval",
        "duration string",
        (Shown::Plain, "required", 0),
        ("How long a run may live before a periodic restart is due, measured from when it entered `Running`", Words::Nothing, ""),
    ),
    (
        "mode",
        "`\"immediate\"` | `\"on-idle\"` | `\"on-request\"`",
        (Shown::Plain, "`on-request`", 0),
        ("How the restart is timed once the interval elapses. `immediate` drains and respawns at once (interrupting in-flight traffic gracefully). `on-idle` waits for a quiet window with no in-flight requests, then restarts — zero disruption, but may never fire under continuous load. `on-request` marks the run stale and lets the next request drive the restart, blocking that request on the fresh process; it guarantees the restart happens even under continuous load", Words::Nothing, ""),
    ),
];

/// The fields under "Stall trigger".
pub const SERVICE_AUTO_RESTART_TTFT_STALL: [Row; 1] = [
    (
        "timeout",
        "duration string",
        (Shown::Duration, "", DEFAULT_AUTO_RESTART_TTFT_STALL_MS),
        ("How long a streaming request may stay in-flight with no response frame before the service is restarted. A restart fires only if the *whole service* produced no frame in that window — a request merely queued behind a healthy generation does not trip it. Only streaming requests are watched (non-streaming and embeddings are bounded by `max_request_duration` instead). Does not gate on `min_uptime`; the flap cap still applies", Words::Nothing, ""),
    ),
];

/// The fields under "Generation-stall trigger".
pub const SERVICE_AUTO_RESTART_GENERATION_STALL: [Row; 2] = [
    (
        "timeout",
        "duration string",
        (Shown::Duration, "", DEFAULT_AUTO_RESTART_GENERATION_STALL_MS),
        ("How long the child's `/metrics` progress counters may stay flat, with at least one request in flight, before the service is restarted. Healthy prefill and decode both advance the counters every batch, so the default is unambiguous under load. An idle service (nothing in flight) never trips it", Words::Nothing, ""),
    ),
    (
        "poll_interval",
        "duration string",
        (Shown::Duration, "", DEFAULT_AUTO_RESTART_GENERATION_STALL_POLL_MS),
        ("How often the child's `/metrics` endpoint is polled", Words::Nothing, ""),
    ),
];

/// The fields under "Spec-collapse trigger".
pub const SERVICE_AUTO_RESTART_SPEC_COLLAPSE: [Row; 3] = [
    (
        "window",
        "duration string",
        (Shown::Duration, "", DEFAULT_AUTO_RESTART_SPEC_COLLAPSE_WINDOW_MS),
        ("Rolling window over which draft acceptance is measured, keyed on request completion time and scoped to the current run. Only requests that actually drafted (`draft_n > 0` in the engine's `timings`) count; a single accepted draft token anywhere in the window vetoes the restart", Words::Nothing, ""),
    ),
    (
        "min_draft_tokens",
        "u64",
        (Shown::Number, "", DEFAULT_AUTO_RESTART_SPEC_COLLAPSE_MIN_DRAFT_TOKENS),
        ("Minimum count of drafted tokens in the window before an all-zero acceptance is trusted. Counted in tokens rather than requests so that slow-arriving long generations — which draft thousands of tokens each — reach the floor on their own; one short unlucky generation stays under it", Words::Nothing, ""),
    ),
    (
        "poll_interval",
        "duration string",
        (Shown::Duration, "", DEFAULT_AUTO_RESTART_SPEC_COLLAPSE_POLL_MS),
        ("How often the watchdog queries the metrics store", Words::Nothing, ""),
    ),
];

/// Whether `r` holds these sections.
pub open spec fn is_listed(r: Seq<SectionDoc>) -> bool {
    &&& r.len() == 6
    &&& crate::config::docs::shows_section(r[0], "service_auto_restart"@, "Auto-restart"@, SERVICE_AUTO_RESTART@)
    &&& crate::config::docs::shows_section(r[1], "service_auto_restart_error_rate"@, "Error-rate trigger"@, SERVICE_AUTO_RESTART_ERROR_RATE@)
    &&& crate::config::docs::shows_section(r[2], "service_auto_restart_periodic"@, "Periodic trigger"@, SERVICE_AUTO_RESTART_PERIODIC@)
    &&& crate::config::docs::shows_section(r[3], "service_auto_restart_ttft_stall"@, "Stall trigger"@, SERVICE_AUTO_RESTART_TTFT_STALL@)
    &&& crate::config::docs::shows_section(r[4], "service_auto_restart_generation_stall"@, "Generation-stall trigger"@, SERVICE_AUTO_RESTART_GENERATION_STALL@)
    &&& crate::config::docs::shows_section(r[5], "service_auto_restart_spec_collapse"@, "Spec-collapse trigger"@, SERVICE_AUTO_RESTART_SPEC_COLLAPSE@)
}

/// The restart section and one for each trigger.
pub fn sections() -> (r: Vec<SectionDoc>)
    ensures
        is_listed(r@),
{
    let mut r: Vec<SectionDoc> = Vec::new();
    r.push(section("service_auto_restart", "Auto-restart", &SERVICE_AUTO_RESTART));
    r.push(section("service_auto_restart_error_rate", "Error-rate trigger", &SERVICE_AUTO_RESTART_ERROR_RATE));
    r.push(section("service_auto_restart_periodic", "Periodic trigger", &SERVICE_AUTO_RESTART_PERIODIC));
    r.push(section("service_auto_restart_ttft_stall", "Stall trigger", &SERVICE_AUTO_RESTART_TTFT_STALL));
    r.push(section("service_auto_restart_generation_stall", "Generation-stall trigger", &SERVICE_AUTO_RESTART_GENERATION_STALL));
    r.push(section("service_auto_restart_spec_collapse", "Spec-collapse trigger", &SERVICE_AUTO_RESTART_SPEC_COLLAPSE));
    r
}

proof fn lemma_service_auto_restart_filled()
    ensures
        SERVICE_AUTO_RESTART@.len() > 0,
        crate::config::docs::all_filled(SERVICE_AUTO_RESTART@),
{
    reveal_strlit("error_rate");
    reveal_strlit("table | `false`");
    reveal_strlit("on, with the defaults below");
    reveal_strlit("periodic");
    reveal_strlit("off");
    reveal_strlit("ttft_stall");
    reveal_strlit("generation_stall");
    reveal_strlit("table | bool");
    reveal_strlit("on for `llama-cpp` services, off for `command` services");
    reveal_strlit("spec_collapse");
    reveal_strlit("min_uptime");
    reveal_strlit("duration string");
    reveal_strlit("max_restarts");
    reveal_strlit("u32");
    reveal_strlit("flap_window");
}

proof fn lemma_service_auto_restart_error_rate_filled()
    ensures
        SERVICE_AUTO_RESTART_ERROR_RATE@.len() > 0,
        crate::config::docs::all_filled(SERVICE_AUTO_RESTART_ERROR_RATE@),
{
    reveal_strlit("window");
    reveal_strlit("duration string");
    reveal_strlit("max_error_rate");
    reveal_strlit("float (0.0–1.0]");
    reveal_strlit("min_requests");
    reveal_strlit("u32");
    reveal_strlit("poll_interval");
    reveal_strlit("error_statuses");
    reveal_strlit("`\"5xx\"` | `\"4xx+5xx\"`");
    reveal_strlit("`5xx`");
}

proof fn lemma_service_auto_restart_periodic_filled()
    ensures
        SERVICE_AUTO_RESTART_PERIODIC@.len() > 0,
        crate::config::docs::all_filled(SERVICE_AUTO_RESTART_PERIODIC@),
{
    reveal_strlit("interval");
    reveal_strlit("duration string");
    reveal_strlit("required");
    reveal_strlit("mode");
    reveal_strlit("`\"immediate\"` | `\"on-idle\"` | `\"on-request\"`");
    reveal_strlit("`on-request`");
}

proof fn lemma_service_auto_restart_ttft_stall_filled()
    ensures
        SERVICE_AUTO_RESTART_TTFT_STALL@.len() > 0,
        crate::config::docs::all_filled(SERVICE_AUTO_RESTART_TTFT_STALL@),
{
    reveal_strlit("timeout");
    reveal_strlit("duration string");
}

proof fn lemma_service_auto_restart_generation_stall_filled()
    ensures
        SERVICE_AUTO_RESTART_GENERATION_STALL@.len() > 0,
        crate::config::docs::all_filled(SERVICE_AUTO_RESTART_GENERATION_STALL@),
{
    reveal_strlit("timeout");
    reveal_strlit("duration string");
    reveal_strlit("poll_interval");
}

proof fn lemma_service_auto_restart_spec_collapse_filled()
    ensures
        SERVICE_AUTO_RESTART_SPEC_COLLAPSE@.len() > 0,
        crate::config::docs::all_filled(SERVICE_AUTO_RESTART_SPEC_COLLAPSE@),
{
    reveal_strlit("window");
    reveal_strlit("duration string");
    reveal_strlit("min_draft_tokens");
    reveal_strlit("u64");
    reveal_strlit("poll_interval");
}

/// These sections are complete.
pub proof fn lemma_complete(r: Seq<SectionDoc>)
    requires
        is_listed(r),
    ensures
        forall|i: int| 0 <= i < r.len() ==> crate::config::docs::is_complete(#[trigger] r[i]),
{
    reveal_strlit("service_auto_restart");
    reveal_strlit("Auto-restart");
    lemma_service_auto_restart_filled();
    crate::config::docs::lemma_section_complete(r[0], "service_auto_restart"@, "Auto-restart"@, SERVICE_AUTO_RESTART@);
    reveal_strlit("service_auto_restart_error_rate");
    reveal_strlit("Error-rate trigger");
    lemma_service_auto_restart_error_rate_filled();
    crate::config::docs::lemma_section_complete(r[1], "service_auto_restart_error_rate"@, "Error-rate trigger"@, SERVICE_AUTO_RESTART_ERROR_RATE@);
    reveal_strlit("service_auto_restart_periodic");
    reveal_strlit("Periodic trigger");
    lemma_service_auto_restart_periodic_filled();
    crate::config::docs::lemma_section_complete(r[2], "service_auto_restart_periodic"@, "Periodic trigger"@, SERVICE_AUTO_RESTART_PERIODIC@);
    reveal_strlit("service_auto_restart_ttft_stall");
    reveal_strlit("Stall trigger");
    lemma_service_auto_restart_ttft_stall_filled();
    crate::config::docs::lemma_section_complete(r[3], "service_auto_restart_ttft_stall"@, "Stall trigger"@, SERVICE_AUTO_RESTART_TTFT_STALL@);
    reveal_strlit("service_auto_restart_generation_stall");
    reveal_strlit("Generation-stall trigger");
    lemma_service_auto_restart_generation_stall_filled();
    crate::config::docs::lemma_section_complete(r[4], "service_auto_restart_generation_stall"@, "Generation-stall trigger"@, SERVICE_AUTO_RESTART_GENERATION_STALL@);
    reveal_strlit("service_auto_restart_spec_collapse");
    reveal_strlit("Spec-collapse trigger");
    lemma_service_auto_restart_spec_collapse_filled();
    crate::config::docs::lemma_section_complete(r[5], "service_auto_restart_spec_collapse"@, "Spec-collapse trigger"@, SERVICE_AUTO_RESTART_SPEC_COLLAPSE@);
}

} // verus!
