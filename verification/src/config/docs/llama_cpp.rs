//! The tables of a llama.cpp service.

use crate::config::docs::{section, Row, SectionDoc, Shown, Words};
use vstd::prelude::*;

verus! {

/// The fields under "llama-cpp field reference".
pub const LLAMA_CPP: [Row; 32] = [
    (
        "model",
        "path",
        (Shown::Plain, "*required*", 0),
        ("Path to the GGUF model file", Words::Nothing, ""),
    ),
    (
        "mmproj",
        "path",
        (Shown::Plain, "none", 0),
        ("Path to an optional vision projector GGUF. Services with an `mmproj` render a purple `vision` badge", Words::Nothing, ""),
    ),
    (
        "context",
        "u32",
        (Shown::Plain, "`4096` (estimator default)", 0),
        ("Context window size. If unset, a warning is logged and the estimator defaults to 4096 tokens", Words::Nothing, ""),
    ),
    (
        "n_gpu_layers",
        "i32",
        (Shown::Plain, "`-1`", 0),
        ("Number of layers to offload to GPU. `-1` (default) offloads all layers. Must be `0` under `placement = \"cpu-only\"`", Words::Nothing, ""),
    ),
    (
        "expert_offload",
        "string or u32",
        (Shown::Plain, "`\"off\"`", 0),
        ("MoE expert-offload policy (see [MoE Expert Offload](#moe-expert-offload))", Words::Nothing, ""),
    ),
    (
        "runtime",
        "table",
        (Shown::Plain, "mainline llama.cpp", 0),
        ("Serving runtime, tagged by `kind`: `{ kind = \"ik-llama\", mla = 1, dsa = true, attn_max_batch = 512, runtime_repack = false }` selects the ik_llama.cpp fork and its options (`-mla`, `-dsa -fidx`, `-amb`, `-rtr`). Absent means mainline. `dsa` requires f16 KV. Point `llama_server` at a matching binary. ik services use ik's `--spec-type` dialect (`\"mtp:n_max=4,p_min=0.5\"`)", Words::Nothing, ""),
    ),
    (
        "flash_attn",
        "bool",
        (Shown::Plain, "`false`", 0),
        ("Enable flash attention. Required for quantised KV cache types (`cache_type_k`/`cache_type_v` other than `f16`) on mainline llama.cpp; ik_llama handles quantised caches without this flag", Words::Nothing, ""),
    ),
    (
        "cache_type_k",
        "string",
        (Shown::Plain, "`f16`", 0),
        ("KV cache type for keys. Non-`f16` values require `flash_attn = true` (mainline only; ik_llama is exempt)", Words::Nothing, ""),
    ),
    (
        "cache_type_v",
        "string",
        (Shown::Plain, "`f16`", 0),
        ("KV cache type for values. Non-`f16` values require `flash_attn = true` (mainline only; ik_llama is exempt)", Words::Nothing, ""),
    ),
    (
        "mmap",
        "bool",
        (Shown::Plain, "`true`", 0),
        ("Memory-map the model file", Words::Nothing, ""),
    ),
    (
        "mlock",
        "bool",
        (Shown::Plain, "`false`", 0),
        ("Lock the model in RAM (prevents swapping)", Words::Nothing, ""),
    ),
    (
        "parallel",
        "u32",
        (Shown::Plain, "`1`", 0),
        ("Request parallelism (`-np`). With a non-unified KV this splits the context budget across slots, so each request caps at `context / parallel`", Words::Nothing, ""),
    ),
    (
        "spec_type",
        "string",
        (Shown::Plain, "none", 0),
        ("Speculative-decoding type passed to `--spec-type` (e.g. `\"draft-mtp\"` for multi-token prediction)", Words::Nothing, ""),
    ),
    (
        "spec_draft_n_max",
        "u32",
        (Shown::Plain, "none", 0),
        ("Max draft tokens per step (`--spec-draft-n-max`). Only meaningful when `spec_type` is set", Words::Nothing, ""),
    ),
    (
        "draft_model",
        "path",
        (Shown::Plain, "none", 0),
        ("Separate draft-model GGUF for speculative decoding (`-md` / `--model-draft`). Requires `spec_type` to be set", Words::Nothing, ""),
    ),
    (
        "kv_unified",
        "bool",
        (Shown::Plain, "`false`", 0),
        ("Use a single unified KV cache pool shared across all parallel slots (`-kvu` / `--kv-unified`). With `parallel > 1`, idle slots lend their share to active ones; total KV footprint is unchanged", Words::Nothing, ""),
    ),
    (
        "cache_idle_slots",
        "bool",
        (Shown::Plain, "`true`", 0),
        ("When `false`, pass `--no-cache-idle-slots` so idle slots' prompt-cache state is dropped (a stability mitigation)", Words::Nothing, ""),
    ),
    (
        "cache_ram_mb",
        "int (MiB)",
        (Shown::Plain, "`8192`", 0),
        ("Host RAM cap for llama-server's prompt cache (`-cram`), which holds serialized evicted prompts so a returning conversation skips reprocessing. Always passed through explicitly, so the packer's host reservation and the runtime's cap are the same number; `0` disables the cache and frees the reservation with it", Words::Nothing, ""),
    ),
    (
        "metrics",
        "bool",
        (Shown::Plain, "`false`, but auto-enabled while the `generation_stall` watchdog is on", 0),
        ("Expose llama-server's Prometheus `/metrics` endpoint. The generation-stall watchdog needs it and passes `--metrics` automatically while active; an explicit `metrics = false` suppresses the flag and disables that watchdog", Words::Nothing, ""),
    ),
    (
        "slots",
        "bool",
        (Shown::Plain, "`false`", 0),
        ("Expose the `/slots` introspection endpoint. Note: reveals prompt contents - avoid on network-reachable ports", Words::Nothing, ""),
    ),
    (
        "batch_size",
        "u32",
        (Shown::Plain, "none", 0),
        ("Context batch size (`-b`)", Words::Nothing, ""),
    ),
    (
        "ubatch_size",
        "u32",
        (Shown::Plain, "none", 0),
        ("Physical batch size (`-ub`)", Words::Nothing, ""),
    ),
    (
        "threads",
        "u32",
        (Shown::Plain, "none", 0),
        ("Number of CPU threads (`-t`)", Words::Nothing, ""),
    ),
    (
        "threads_batch",
        "u32",
        (Shown::Plain, "none", 0),
        ("Number of CPU threads for batch processing (`-tb`)", Words::Nothing, ""),
    ),
    (
        "numa",
        "string",
        (Shown::Plain, "none", 0),
        ("NUMA thread-and-memory placement strategy (`--numa`): ", Words::NumaStrategies, ". Unset leaves llama.cpp's default"),
    ),
    (
        "jinja",
        "bool",
        (Shown::Plain, "`false`", 0),
        ("Use Jinja chat templates", Words::Nothing, ""),
    ),
    (
        "chat_template_file",
        "path",
        (Shown::Plain, "none", 0),
        ("Path to a custom chat template file", Words::Nothing, ""),
    ),
    (
        "override_tensor",
        "array of string",
        (Shown::Plain, "none", 0),
        ("Manual tensor placement rules (e.g. `[ \".ffn_(up|down)_exps.=CPU\" ]`). Incompatible with sharded split modes (`row`/`tensor`)", Words::Nothing, ""),
    ),
    (
        "sampling",
        "table",
        (Shown::Plain, "none", 0),
        ("Sampling parameters (see [Sampling](#sampling))", Words::Nothing, ""),
    ),
    (
        "estimation",
        "table",
        (Shown::Plain, "none", 0),
        ("Estimator overrides (see [Estimation Overrides](#estimation-overrides))", Words::Nothing, ""),
    ),
    (
        "llama_server",
        "path",
        (Shown::Plain, "daemon's `llama_server` or `$PATH`", 0),
        ("Per-service override of the llama-server executable. Has no effect when `launcher` is set", Words::Nothing, ""),
    ),
    (
        "launcher",
        "array of string",
        (Shown::Plain, "none", 0),
        ("Full argv template that replaces the default `llama-server -m <model> ...` invocation (see [Custom llama-server Binary or Wrapper](#custom-llama-server-binary-or-wrapper))", Words::Nothing, ""),
    ),
];

/// The fields under "Estimation overrides".
pub const LLAMA_CPP_ESTIMATION: [Row; 2] = [
    (
        "compute_buffer_mb",
        "u32",
        (Shown::Plain, "none", 0),
        ("Override the estimated compute buffer size (MiB)", Words::Nothing, ""),
    ),
    (
        "safety_factor",
        "f32",
        (Shown::Plain, "none", 0),
        ("Multiplier applied to the estimated VRAM footprint", Words::Nothing, ""),
    ),
];

/// The fields under "Sampling".
pub const LLAMA_CPP_SAMPLING: [Row; 5] = [
    (
        "temperature",
        "f32",
        (Shown::Plain, "none", 0),
        ("Sampling temperature", Words::Nothing, ""),
    ),
    (
        "top_p",
        "f32",
        (Shown::Plain, "none", 0),
        ("Nucleus sampling threshold", Words::Nothing, ""),
    ),
    (
        "top_k",
        "u32",
        (Shown::Plain, "none", 0),
        ("Top-k sampling limit", Words::Nothing, ""),
    ),
    (
        "min_p",
        "f32",
        (Shown::Plain, "none", 0),
        ("Minimum-p sampling threshold", Words::Nothing, ""),
    ),
    (
        "repeat_penalty",
        "f32",
        (Shown::Plain, "none", 0),
        ("Repeat penalty applied to generated tokens", Words::Nothing, ""),
    ),
];

/// Whether `r` holds these sections.
pub open spec fn is_listed(r: Seq<SectionDoc>) -> bool {
    &&& r.len() == 3
    &&& crate::config::docs::shows_section(r[0], "llama_cpp"@, "llama-cpp field reference"@, LLAMA_CPP@)
    &&& crate::config::docs::shows_section(r[1], "llama_cpp_estimation"@, "Estimation overrides"@, LLAMA_CPP_ESTIMATION@)
    &&& crate::config::docs::shows_section(r[2], "llama_cpp_sampling"@, "Sampling"@, LLAMA_CPP_SAMPLING@)
}

/// The llama.cpp field reference, estimation and sampling sections.
pub fn sections() -> (r: Vec<SectionDoc>)
    ensures
        is_listed(r@),
{
    let mut r: Vec<SectionDoc> = Vec::new();
    r.push(section("llama_cpp", "llama-cpp field reference", &LLAMA_CPP));
    r.push(section("llama_cpp_estimation", "Estimation overrides", &LLAMA_CPP_ESTIMATION));
    r.push(section("llama_cpp_sampling", "Sampling", &LLAMA_CPP_SAMPLING));
    r
}

proof fn lemma_llama_cpp_filled()
    ensures
        LLAMA_CPP@.len() > 0,
        crate::config::docs::all_filled(LLAMA_CPP@),
{
    reveal_strlit("model");
    reveal_strlit("path");
    reveal_strlit("*required*");
    reveal_strlit("mmproj");
    reveal_strlit("none");
    reveal_strlit("context");
    reveal_strlit("u32");
    reveal_strlit("`4096` (estimator default)");
    reveal_strlit("n_gpu_layers");
    reveal_strlit("i32");
    reveal_strlit("`-1`");
    reveal_strlit("expert_offload");
    reveal_strlit("string or u32");
    reveal_strlit("`\"off\"`");
    reveal_strlit("runtime");
    reveal_strlit("table");
    reveal_strlit("mainline llama.cpp");
    reveal_strlit("flash_attn");
    reveal_strlit("bool");
    reveal_strlit("`false`");
    reveal_strlit("cache_type_k");
    reveal_strlit("string");
    reveal_strlit("`f16`");
    reveal_strlit("cache_type_v");
    reveal_strlit("mmap");
    reveal_strlit("`true`");
    reveal_strlit("mlock");
    reveal_strlit("parallel");
    reveal_strlit("`1`");
    reveal_strlit("spec_type");
    reveal_strlit("spec_draft_n_max");
    reveal_strlit("draft_model");
    reveal_strlit("kv_unified");
    reveal_strlit("cache_idle_slots");
    reveal_strlit("cache_ram_mb");
    reveal_strlit("int (MiB)");
    reveal_strlit("`8192`");
    reveal_strlit("metrics");
    reveal_strlit("`false`, but auto-enabled while the `generation_stall` watchdog is on");
    reveal_strlit("slots");
    reveal_strlit("batch_size");
    reveal_strlit("ubatch_size");
    reveal_strlit("threads");
    reveal_strlit("threads_batch");
    reveal_strlit("numa");
    reveal_strlit("jinja");
    reveal_strlit("chat_template_file");
    reveal_strlit("override_tensor");
    reveal_strlit("array of string");
    reveal_strlit("sampling");
    reveal_strlit("estimation");
    reveal_strlit("llama_server");
    reveal_strlit("daemon's `llama_server` or `$PATH`");
    reveal_strlit("launcher");
}

proof fn lemma_llama_cpp_estimation_filled()
    ensures
        LLAMA_CPP_ESTIMATION@.len() > 0,
        crate::config::docs::all_filled(LLAMA_CPP_ESTIMATION@),
{
    reveal_strlit("compute_buffer_mb");
    reveal_strlit("u32");
    reveal_strlit("none");
    reveal_strlit("safety_factor");
    reveal_strlit("f32");
}

proof fn lemma_llama_cpp_sampling_filled()
    ensures
        LLAMA_CPP_SAMPLING@.len() > 0,
        crate::config::docs::all_filled(LLAMA_CPP_SAMPLING@),
{
    reveal_strlit("temperature");
    reveal_strlit("f32");
    reveal_strlit("none");
    reveal_strlit("top_p");
    reveal_strlit("top_k");
    reveal_strlit("u32");
    reveal_strlit("min_p");
    reveal_strlit("repeat_penalty");
}

/// These sections are complete.
pub proof fn lemma_complete(r: Seq<SectionDoc>)
    requires
        is_listed(r),
    ensures
        forall|i: int| 0 <= i < r.len() ==> crate::config::docs::is_complete(#[trigger] r[i]),
{
    reveal_strlit("llama_cpp");
    reveal_strlit("llama-cpp field reference");
    lemma_llama_cpp_filled();
    crate::config::docs::lemma_section_complete(r[0], "llama_cpp"@, "llama-cpp field reference"@, LLAMA_CPP@);
    reveal_strlit("llama_cpp_estimation");
    reveal_strlit("Estimation overrides");
    lemma_llama_cpp_estimation_filled();
    crate::config::docs::lemma_section_complete(r[1], "llama_cpp_estimation"@, "Estimation overrides"@, LLAMA_CPP_ESTIMATION@);
    reveal_strlit("llama_cpp_sampling");
    reveal_strlit("Sampling");
    lemma_llama_cpp_sampling_filled();
    crate::config::docs::lemma_section_complete(r[2], "llama_cpp_sampling"@, "Sampling"@, LLAMA_CPP_SAMPLING@);
}

} // verus!
