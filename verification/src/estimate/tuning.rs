//! Constants the estimator rests on.
//!
//! What follows from how llama.cpp lays memory out is a constant here; what
//! was measured, and differs from one machine's calibration to the next, is
//! carried by [`Tuning`].

use crate::text;
use vstd::prelude::*;

verus! {

/// llama.cpp's physical batch size where none is configured.
pub const DEFAULT_UBATCH: u32 = 512;

/// llama.cpp's prompt-cache cap where none is configured, in MiB.
pub const DEFAULT_CACHE_RAM_MB: u32 = 8192;

/// Cells the KV cache is padded to a multiple of.
pub const KV_CACHE_PAD: u64 = 256;

/// Batch size, per expert, from which ik_llama ships expert ops to the GPU.
pub const IK_OP_OFFLOAD_MIN_BATCH: u64 = 32;

/// Rollback slots speculative decoding adds to the recurrent state.
pub const SPEC_RECURRENT_ROLLBACK_DEPTH: u64 = 3;

/// How often mainline holds the graph's masks under a layer split.
pub const MAINLINE_LAYER_SPLIT_MASK_COPIES: u64 = 4;

/// Pinned bytes per layer and batch token of a Gemma E-variant.
pub const GEMMA_E_VARIANT_BYTES_PER_LAYER_TOKEN: u64 = 1028;

/// Host MiB per 1024 context tokens that a draft context costs.
pub const MTP_HOST_MIB_PER_1K: u64 = 2;

/// Host bytes of each visible device beyond the first.
pub const PROCESS_BASE_BYTES_PER_DEVICE: u64 = 20971520;

/// Cache bytes per token of a compressed-attention layer at f16.
pub const DEEPSEEK4_CSA_KV_BYTES_PER_TOKEN_LAYER_F16: u64 = 317;

/// The compression ratio that marks a compressed-attention layer.
pub const DEEPSEEK4_CSA_RATIO: u32 = 4;

/// A measured rate for each key, and one for keys never measured.
#[derive(Debug)]
pub struct RateTable {
    pub rates: Vec<(String, u64)>,
    pub fallback: u64,
}

/// The rate of the first entry from `i` on whose key is `key`.
pub open spec fn rate_from(rates: Seq<(String, u64)>, i: int, key: Seq<char>, fallback: u64) -> u64
    decreases rates.len() - i,
{
    if i >= rates.len() {
        fallback
    } else if rates[i].0@ == key {
        rates[i].1
    } else {
        rate_from(rates, i + 1, key, fallback)
    }
}

impl RateTable {
    /// The rate of `key`.
    pub open spec fn rate(&self, key: Seq<char>) -> u64 {
        rate_from(self.rates@, 0, key, self.fallback)
    }

    /// The rate of `key`.
    pub fn lookup(&self, key: &str) -> (r: u64)
        ensures
            r == self.rate(key@),
    {
        for i in 0..self.rates.len()
            invariant
                self.rate(key@) == rate_from(self.rates@, i as int, key@, self.fallback),
        {
            if text::same(self.rates[i].0.as_str(), key) {
                return self.rates[i].1;
            }
        }
        self.fallback
    }
}

/// A measured correction, of either sign, for each key.
#[derive(Debug)]
pub struct OffsetTable {
    pub offsets: Vec<(String, i64)>,
    pub fallback: i64,
}

/// The correction of the first entry from `i` on whose key is `key`.
pub open spec fn offset_from(
    offsets: Seq<(String, i64)>,
    i: int,
    key: Seq<char>,
    fallback: i64,
) -> i64
    decreases offsets.len() - i,
{
    if i >= offsets.len() {
        fallback
    } else if offsets[i].0@ == key {
        offsets[i].1
    } else {
        offset_from(offsets, i + 1, key, fallback)
    }
}

impl OffsetTable {
    /// The correction of `key`.
    pub open spec fn offset(&self, key: Seq<char>) -> i64 {
        offset_from(self.offsets@, 0, key, self.fallback)
    }

    /// The correction of `key`.
    pub fn lookup(&self, key: &str) -> (r: i64)
        ensures
            r == self.offset(key@),
    {
        for i in 0..self.offsets.len()
            invariant
                self.offset(key@) == offset_from(self.offsets@, i as int, key@, self.fallback),
        {
            if text::same(self.offsets[i].0.as_str(), key) {
                return self.offsets[i].1;
            }
        }
        self.fallback
    }
}

/// The measured terms of the model.
#[derive(Debug)]
pub struct Tuning {
    /// Pinned bytes beside the graph arena.
    pub pinned_extra_bytes: u64,
    /// Host baseline of any process.
    pub process_base_bytes: u64,
    /// Host baseline per model block.
    pub process_base_bytes_per_layer: u64,
    /// Host baseline of a mixture of experts.
    pub process_base_bytes_moe: u64,
    /// Correction of the baseline, by architecture and variant.
    pub baseline_offset: OffsetTable,
    /// Host baseline a tensor split adds, by architecture.
    pub tensor_split_baseline: RateTable,
    /// Host bytes of a draft context on the model's own head.
    pub mtp_host_bytes_embedded: u64,
    /// Host bytes of a draft context on a separate model.
    pub mtp_host_bytes_separate_draft: u64,
    /// Pinned bytes per batch token without flash attention, by variant.
    pub no_flash_attn_rates: RateTable,
    /// Pinned bytes per batch token of a quantised cache, by architecture.
    pub quantised_cache_rates: RateTable,
    /// Pinned bytes per unit of hidden size and batch token of a mixture
    /// held on the host under a tensor split.
    pub mainline_tensor_moe_bytes_per_nembd: u64,
    /// The same on ik_llama, by architecture and device count.
    pub ik_moe_rates: RateTable,
    /// Host bytes of each busy slot beyond the first, by architecture.
    pub per_slot_host_bytes: RateTable,
    /// Host bytes of a slot's checkpoints, by variant.
    pub checkpoint_headroom_bytes: RateTable,
    /// Hundredths of a byte per unfused attention score, by architecture.
    pub no_flash_attn_score_centibytes: RateTable,
    /// Draft compute on the model's own head in MiB, by architecture.
    pub mtp_draft_compute_base_mib: RateTable,
    /// Its growth in thousandths of a MiB per 1024 tokens.
    pub mtp_draft_compute_mib_per_1k: RateTable,
    /// Draft compute of a separate model in MiB, by mechanism.
    pub draft_model_compute_mib: RateTable,
    /// Its growth in MiB per 1024 tokens.
    pub draft_model_compute_mib_per_1k: RateTable,
    /// Per-device remainder of a draft context that no log accounts for.
    pub mtp_unaccounted_mib_per_device: u64,
    /// Graph buffer of a vision projector.
    pub mmproj_graph_bytes: u64,
}

/// The rate of a key is that of the first entry with the key, whatever
/// stands behind it, and the fallback where no entry has it.
pub proof fn lemma_rate_of_first_entry(table: RateTable, key: Seq<char>)
    ensures
        (forall|i: int| 0 <= i < table.rates@.len() ==> (#[trigger] table.rates@[i]).0@ != key)
            ==> table.rate(key) == table.fallback,
        forall|i: int|
            0 <= i < table.rates@.len() && (#[trigger] table.rates@[i]).0@ == key && (forall|j: int|
                0 <= j < i ==> (#[trigger] table.rates@[j]).0@ != key) ==> table.rate(key)
                == table.rates@[i].1,
{
    lemma_rate_from(table.rates@, 0, key, table.fallback);
}

proof fn lemma_rate_from(rates: Seq<(String, u64)>, at: int, key: Seq<char>, fallback: u64)
    requires
        0 <= at,
    ensures
        (forall|i: int| at <= i < rates.len() ==> (#[trigger] rates[i]).0@ != key) ==> rate_from(
            rates,
            at,
            key,
            fallback,
        ) == fallback,
        forall|i: int|
            at <= i < rates.len() && (#[trigger] rates[i]).0@ == key && (forall|j: int|
                at <= j < i ==> (#[trigger] rates[j]).0@ != key) ==> rate_from(
                rates,
                at,
                key,
                fallback,
            ) == rates[i].1,
    decreases rates.len() - at,
{
    if at < rates.len() {
        lemma_rate_from(rates, at + 1, key, fallback);
    }
}

/// The correction of a key is that of the first entry with the key, and the
/// fallback where no entry has it.
pub proof fn lemma_offset_of_first_entry(table: OffsetTable, key: Seq<char>)
    ensures
        (forall|i: int| 0 <= i < table.offsets@.len() ==> (#[trigger] table.offsets@[i]).0@ != key)
            ==> table.offset(key) == table.fallback,
        forall|i: int|
            0 <= i < table.offsets@.len() && (#[trigger] table.offsets@[i]).0@ == key && (forall|
                j: int,
            |
                0 <= j < i ==> (#[trigger] table.offsets@[j]).0@ != key) ==> table.offset(key)
                == table.offsets@[i].1,
{
    lemma_offset_from(table.offsets@, 0, key, table.fallback);
}

proof fn lemma_offset_from(offsets: Seq<(String, i64)>, at: int, key: Seq<char>, fallback: i64)
    requires
        0 <= at,
    ensures
        (forall|i: int| at <= i < offsets.len() ==> (#[trigger] offsets[i]).0@ != key)
            ==> offset_from(offsets, at, key, fallback) == fallback,
        forall|i: int|
            at <= i < offsets.len() && (#[trigger] offsets[i]).0@ == key && (forall|j: int|
                at <= j < i ==> (#[trigger] offsets[j]).0@ != key) ==> offset_from(
                offsets,
                at,
                key,
                fallback,
            ) == offsets[i].1,
    decreases offsets.len() - at,
{
    if at < offsets.len() {
        lemma_offset_from(offsets, at + 1, key, fallback);
    }
}

/// Figures that llama.cpp and ik_llama fix.
pub proof fn lemma_fixed_figures()
    ensures
        PROCESS_BASE_BYTES_PER_DEVICE == 20 * 1024 * 1024,
        SPEC_RECURRENT_ROLLBACK_DEPTH == 3,
        MAINLINE_LAYER_SPLIT_MASK_COPIES == 4,
        GEMMA_E_VARIANT_BYTES_PER_LAYER_TOKEN == 1028,
        MTP_HOST_MIB_PER_1K == 2,
        IK_OP_OFFLOAD_MIN_BATCH == 32,
        DEEPSEEK4_CSA_KV_BYTES_PER_TOKEN_LAYER_F16 == 317,
        DEEPSEEK4_CSA_RATIO == 4,
{
}

} // verus!
