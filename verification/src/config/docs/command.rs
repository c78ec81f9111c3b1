//! The tables of a command service.

use crate::config::docs::{section, Row, SectionDoc, Shown, Words};
use vstd::prelude::*;

verus! {

/// The fields under "command field reference".
pub const COMMAND: [Row; 6] = [
    (
        "command",
        "array of string",
        (Shown::Plain, "*required*", 0),
        ("argv to execute. Accepts placeholders (see below)", Words::Nothing, ""),
    ),
    (
        "workdir",
        "path",
        (Shown::Plain, "none", 0),
        ("Working directory for the spawned process", Words::Nothing, ""),
    ),
    (
        "allocation",
        "table",
        (Shown::Plain, "none", 0),
        ("Memory reservation (see [Resource Allocation](#resource-allocation)). Required for command services", Words::Nothing, ""),
    ),
    (
        "private_port",
        "u16",
        (Shown::Plain, "auto-assigned", 0),
        ("Upstream port ananke's reverse proxy should forward to. When absent, ananke picks one from the daemon's private-port pool and substitutes it into `command`/`env` via the `${port}` placeholder. Set explicitly when the external service binds a fixed port (e.g. a docker container exposing 18188 on the host)", Words::Nothing, ""),
    ),
    (
        "shutdown_command",
        "array of string",
        (Shown::Plain, "none", 0),
        ("Optional argv run at drain time after SIGTERM-then-SIGKILL completes. Useful for external services that don't stop via signal - e.g. a docker-run wrapper where SIGTERM reaches the host shell but the container needs an explicit `docker stop`. Accepts the same placeholder substitutions as `command`", Words::Nothing, ""),
    ),
    (
        "openai_proxy",
        "table",
        (Shown::Plain, "none", 0),
        ("Opt the service into the OpenAI-compatible multiplexer (see [OpenAI Proxy](#openai-proxy))", Words::Nothing, ""),
    ),
];

/// The fields under "OpenAI proxy".
pub const OPENAI_PROXY: [Row; 1] = [
    (
        "upstream_model",
        "string",
        (Shown::Plain, "none", 0),
        ("Model name the upstream server was started with (e.g. via `--served-model-name`). ananke rewrites the JSON `model` field to this value before forwarding", Words::Nothing, ""),
    ),
];

/// Whether `r` holds these sections.
pub open spec fn is_listed(r: Seq<SectionDoc>) -> bool {
    &&& r.len() == 2
    &&& crate::config::docs::shows_section(r[0], "command"@, "command field reference"@, COMMAND@)
    &&& crate::config::docs::shows_section(r[1], "openai_proxy"@, "OpenAI proxy"@, OPENAI_PROXY@)
}

/// The command field reference and the OpenAI proxy section.
pub fn sections() -> (r: Vec<SectionDoc>)
    ensures
        is_listed(r@),
{
    let mut r: Vec<SectionDoc> = Vec::new();
    r.push(section("command", "command field reference", &COMMAND));
    r.push(section("openai_proxy", "OpenAI proxy", &OPENAI_PROXY));
    r
}

proof fn lemma_command_filled()
    ensures
        COMMAND@.len() > 0,
        crate::config::docs::all_filled(COMMAND@),
{
    reveal_strlit("command");
    reveal_strlit("array of string");
    reveal_strlit("*required*");
    reveal_strlit("workdir");
    reveal_strlit("path");
    reveal_strlit("none");
    reveal_strlit("allocation");
    reveal_strlit("table");
    reveal_strlit("private_port");
    reveal_strlit("u16");
    reveal_strlit("auto-assigned");
    reveal_strlit("shutdown_command");
    reveal_strlit("openai_proxy");
}

proof fn lemma_openai_proxy_filled()
    ensures
        OPENAI_PROXY@.len() > 0,
        crate::config::docs::all_filled(OPENAI_PROXY@),
{
    reveal_strlit("upstream_model");
    reveal_strlit("string");
    reveal_strlit("none");
}

/// These sections are complete.
pub proof fn lemma_complete(r: Seq<SectionDoc>)
    requires
        is_listed(r),
    ensures
        forall|i: int| 0 <= i < r.len() ==> crate::config::docs::is_complete(#[trigger] r[i]),
{
    reveal_strlit("command");
    reveal_strlit("command field reference");
    lemma_command_filled();
    crate::config::docs::lemma_section_complete(r[0], "command"@, "command field reference"@, COMMAND@);
    reveal_strlit("openai_proxy");
    reveal_strlit("OpenAI proxy");
    lemma_openai_proxy_filled();
    crate::config::docs::lemma_section_complete(r[1], "openai_proxy"@, "OpenAI proxy"@, OPENAI_PROXY@);
}

} // verus!
