//! What an estimate is made from, and what it says.

use crate::estimate::arith;
use crate::estimate::device_bytes::DeviceBytes;
use crate::gguf::GgufType;
use vstd::prelude::*;

verus! {

/// How a model is split across GPUs.
#[derive(Debug, Clone, Copy, PartialEq, Eq, Structural)]
pub enum SplitMode {
    /// Whole layers, one device after the other.
    Layer,
    /// Tensor parallelism, llama.cpp's older implementation.
    Row,
    /// Tensor parallelism, llama.cpp's newer implementation.
    Tensor,
}

/// A place tensors can live.
#[derive(Debug, Clone, Copy, PartialEq, Eq, Structural)]
pub enum DeviceSlot {
    Cpu,
    Gpu(u32),
}

/// Which llama.cpp serves a child.
#[derive(Debug, Clone, Copy, PartialEq, Eq, Structural)]
pub enum Fork {
    Mainline,
    /// ik_llama.cpp; `dsa` is its sparse attention, which mainline has no
    /// equivalent of.
    Ik { dsa: bool },
}

impl Fork {
    /// Whether this is ik_llama.cpp.
    pub fn is_ik(self) -> (r: bool)
        ensures
            r == self is Ik,
    {
        matches!(self, Fork::Ik { .. })
    }

    /// Whether ik's sparse attention is on; never on mainline.
    pub open spec fn sparse(self) -> bool {
        self == Fork::Ik { dsa: true }
    }

    /// Whether ik's sparse attention is on; never on mainline.
    pub fn dsa(self) -> (r: bool)
        ensures
            r == self.sparse(),
    {
        match self {
            Fork::Ik { dsa } => dsa,
            Fork::Mainline => false,
        }
    }
}

/// Where a service's speculative-decoding draft head comes from.
#[derive(Debug, Clone, Copy)]
pub enum Speculation<'a> {
    /// No speculative decoding.
    Off,
    /// The target model's own head, present when it declares
    /// `nextn_predict_layers > 0`.
    EmbeddedMtp,
    /// A separate model at `path`, run by the mechanism `spec_type`.
    SeparateDraft { path: &'a str, spec_type: &'a str },
}

impl<'a> Speculation<'a> {
    /// Whether the child drafts at all.
    pub fn is_mtp(self) -> (r: bool)
        ensures
            r == !(self is Off),
    {
        match self {
            Speculation::Off => false,
            _ => true,
        }
    }

    /// The separate draft GGUF, where the head is not the target's own.
    pub open spec fn draft_path(self) -> Option<Seq<char>> {
        match self {
            Speculation::SeparateDraft { path, spec_type } => Some(path@),
            _ => None,
        }
    }

    /// The separate draft GGUF, where the head is not the target's own.
    pub fn draft_model(self) -> (r: Option<&'a str>)
        ensures
            match r {
                Some(p) => self.draft_path() == Some(p@),
                None => self.draft_path() is None,
            },
    {
        match self {
            Speculation::SeparateDraft { path, .. } => Some(path),
            _ => None,
        }
    }
}

/// What the estimator reads of a service.
#[derive(Debug, Clone, Copy)]
pub struct EstimatorInputs<'a> {
    /// Service name, for messages only.
    pub name: &'a str,
    /// Path of the first GGUF shard.
    pub model: &'a str,
    /// Path of a vision projector.
    pub mmproj: Option<&'a str>,
    /// Context window the child is launched with.
    pub context: u32,
    /// Physical batch size; llama.cpp's default where absent.
    pub ubatch: Option<u32>,
    /// How many CUDA devices the child sees.
    pub visible_devices: u32,
    /// Whether the child holds expert tensors on the host.
    pub host_resident_experts: bool,
    /// How the child splits the model across those devices.
    pub split_mode: SplitMode,
    /// Cache type of the keys; f16 where absent.
    pub cache_type_k: Option<GgufType>,
    /// Cache type of the values; f16 where absent.
    pub cache_type_v: Option<GgufType>,
    /// Rules that pin tensors to devices.
    pub override_tensor: &'a [String],
    /// Compute-buffer reservation that replaces the estimated one, in MiB.
    pub compute_buffer_mb: Option<u32>,
    /// Speculative decoding, and where the draft head comes from.
    pub speculation: Speculation<'a>,
    /// Number of parallel slots; one where absent.
    pub parallel: Option<u32>,
    /// Whether the child runs flash attention.
    pub flash_attn: Option<bool>,
    /// Whether the slots share one KV cache.
    pub kv_unified: Option<bool>,
    /// Which llama.cpp serves the child.
    pub fork: Fork,
    /// Prompt-cache cap in MiB; llama.cpp's default where absent.
    pub cache_ram_mb: Option<u32>,
}

impl<'a> EstimatorInputs<'a> {
    /// Number of parallel slots, at least one.
    pub open spec fn slots(&self) -> int {
        match self.parallel {
            Some(n) => arith::greatest(n as int, 1),
            None => 1,
        }
    }

    /// Whether the slots share one KV cache.
    pub open spec fn unified(&self) -> bool {
        self.kv_unified == Some(true)
    }

    /// How many separate KV caches the service runs.
    pub open spec fn stream_count(&self) -> int {
        if self.unified() {
            1
        } else {
            self.slots()
        }
    }

    /// The inputs for `model` with every setting at llama.cpp's default.
    pub fn empty(model: &'a str) -> (r: Self)
        ensures
            r.name@ == ""@,
            r.model@ == model@,
            r.mmproj is None,
            r.context == 0,
            r.ubatch is None,
            r.visible_devices == 1,
            !r.host_resident_experts,
            r.split_mode == SplitMode::Layer,
            r.cache_type_k is None,
            r.cache_type_v is None,
            r.override_tensor@.len() == 0,
            r.compute_buffer_mb is None,
            r.speculation is Off,
            r.parallel is None,
            r.flash_attn is None,
            r.kv_unified is None,
            r.fork == Fork::Mainline,
            r.cache_ram_mb is None,
    {
        EstimatorInputs {
            name: "",
            model,
            mmproj: None,
            context: 0,
            ubatch: None,
            visible_devices: 1,
            host_resident_experts: false,
            split_mode: SplitMode::Layer,
            cache_type_k: None,
            cache_type_v: None,
            override_tensor: &[],
            compute_buffer_mb: None,
            speculation: Speculation::Off,
            parallel: None,
            flash_attn: None,
            kv_unified: None,
            fork: Fork::Mainline,
            cache_ram_mb: None,
        }
    }

    /// Number of parallel slots, at least one.
    pub fn slot_count(&self) -> (r: u32)
        ensures
            r == self.slots(),
            r >= 1,
    {
        match self.parallel {
            Some(n) => if n >= 1 {
                n
            } else {
                1
            },
            None => 1,
        }
    }

    /// Whether the slots share one KV cache.
    pub fn is_unified(&self) -> (r: bool)
        ensures
            r == self.unified(),
    {
        match self.kv_unified {
            Some(b) => b,
            None => false,
        }
    }

    /// How many separate KV caches the service runs: one per slot, unless
    /// the slots share one.
    pub fn streams(&self) -> (r: u32)
        ensures
            r == self.stream_count(),
            r >= 1,
    {
        if self.is_unified() {
            1
        } else {
            self.slot_count()
        }
    }

    /// The same inputs for a child that sees `devices` devices.
    pub fn with_visible_devices(self, devices: u32) -> (r: Self)
        ensures
            r == (EstimatorInputs {
                visible_devices: if devices >= 1 {
                    devices
                } else {
                    1
                },
                ..self
            }),
    {
        let mut r = self;
        r.visible_devices = if devices >= 1 {
            devices
        } else {
            1
        };
        r
    }
}

/// The three expert projections a layer can carry.
#[derive(Debug, Clone, Copy, PartialEq, Eq, Structural)]
pub enum ExpertKind {
    Gate,
    Up,
    Down,
}

impl ExpertKind {
    /// Position of the projection in the order gate, up, down.
    pub open spec fn rank(self) -> int {
        match self {
            ExpertKind::Gate => 0,
            ExpertKind::Up => 1,
            ExpertKind::Down => 2,
        }
    }

    /// Position of the projection in the order gate, up, down.
    pub fn position(self) -> (r: u8)
        ensures
            r == self.rank(),
    {
        match self {
            ExpertKind::Gate => 0,
            ExpertKind::Up => 1,
            ExpertKind::Down => 2,
        }
    }

    /// The word that stands for the projection in tensor names and rules.
    pub open spec fn token(self) -> Seq<char> {
        match self {
            ExpertKind::Gate => "gate"@,
            ExpertKind::Up => "up"@,
            ExpertKind::Down => "down"@,
        }
    }

    /// The word that stands for the projection in tensor names and rules.
    pub fn tensor_token(self) -> (r: &'static str)
        ensures
            r@ == self.token(),
    {
        match self {
            ExpertKind::Gate => "gate",
            ExpertKind::Up => "up",
            ExpertKind::Down => "down",
        }
    }
}

/// One offloadable fused expert tensor.
#[derive(Debug, Clone, Copy, PartialEq, Eq, Structural)]
pub struct ExpertTensor {
    /// Block the tensor belongs to.
    pub layer: u32,
    /// Which projection it is.
    pub kind: ExpertKind,
    /// What moving it off a GPU frees.
    pub bytes: u64,
}

/// Tensors outside the blocks.
#[derive(Debug, Clone, Copy, PartialEq, Eq, Structural)]
pub struct NonLayer {
    /// Output head.
    pub output_head_bytes: u64,
    /// Token embeddings, with the per-layer stack of the E-variants.
    pub token_embd_bytes: u64,
    /// The token-embedding table alone, where it is the output head too.
    pub tied_head_bytes: u64,
    /// Everything else.
    pub other_bytes: u64,
}

/// What a service is expected to need, before any safety factor.
#[derive(Debug)]
pub struct Estimate {
    /// Weight bytes, with the projector's.
    pub weights_bytes: u64,
    /// Context bytes per token.
    pub kv_per_token: u64,
    /// Compute buffer of the head GPU in MiB.
    pub compute_buffer_mb: u32,
    /// What the head GPU holds beyond every other one.
    pub output_buffer_bytes: u64,
    /// Expert layers that belonged to a draft head that is not loaded.
    pub mtp_head_expert_layers: u32,
    /// Weights a tensor split holds on every card.
    pub tensor_split_replicated_bytes: u64,
    /// What the draft context takes.
    pub mtp_bytes: u64,
    /// The share of it that is tensors read from a GGUF.
    pub mtp_weight_bytes: u64,
    /// Graph buffer of the vision projector.
    pub mmproj_graph_bytes: u64,
    /// Host bytes that are neither weights nor cache.
    pub host_overhead_bytes: u64,
    /// Prompt-cache cap.
    pub host_cache_bytes: u64,
    /// Host bytes of busy slots beyond the first.
    pub host_slot_bytes: u64,
    /// Host bytes of context checkpoints.
    pub host_checkpoint_bytes: u64,
    /// Weight bytes by block; absent where a model is not placed by block, as
    /// one of the mamba family is not.
    pub per_layer_bytes: Option<Vec<u64>>,
    /// Blocks that carry a cache; all of them where absent.
    pub attention_layers: Option<Vec<u32>>,
    /// Tensors outside the blocks.
    pub non_layer: NonLayer,
    /// Bytes that rules pin to each device.
    pub override_tensor_bytes: DeviceBytes,
    /// Blocks that carry expert tensors.
    pub expert_layers: Vec<u32>,
    /// The offloadable expert tensors of a mixture of experts.
    pub expert_tensors: Option<Vec<ExpertTensor>>,
    /// Context the estimate was made for.
    pub context: u32,
    /// The model's architecture.
    pub architecture: String,
}

/// A service has as many slots as it asks for and never none; each slot has
/// a cache of its own unless the service says that they share one.
pub proof fn lemma_slots_and_streams(inputs: EstimatorInputs<'_>)
    ensures
        inputs.parallel is None ==> inputs.slots() == 1,
        inputs.parallel matches Some(n) ==> inputs.slots() == (if n == 0 {
            1
        } else {
            n as int
        }),
        inputs.kv_unified == Some(true) ==> inputs.unified() && inputs.stream_count() == 1,
        inputs.kv_unified != Some(true) ==> !inputs.unified() && inputs.stream_count()
            == inputs.slots(),
{
}

/// Sparse attention is ik's alone.
pub proof fn lemma_sparse_attention_is_iks(fork: Fork)
    ensures
        fork is Mainline ==> !fork.sparse(),
        fork matches Fork::Ik { dsa } ==> fork.sparse() == dsa,
{
    if let Fork::Ik { dsa } = fork {
        if dsa {
            assert(fork == Fork::Ik { dsa: true });
        }
    }
}

/// Only a separate draft has a file of its own.
pub proof fn lemma_draft_file(s: Speculation<'_>)
    ensures
        s matches Speculation::SeparateDraft { path, .. } ==> s.draft_path() == Some(path@),
        !(s is SeparateDraft) ==> s.draft_path() is None,
{
}

/// Gate comes before up and up before down, each under its own word.
pub proof fn lemma_projections_in_order(kind: ExpertKind)
    ensures
        kind is Gate ==> kind.rank() == 0 && kind.token() == "gate"@,
        kind is Up ==> kind.rank() == 1 && kind.token() == "up"@,
        kind is Down ==> kind.rank() == 2 && kind.token() == "down"@,
{
}

} // verus!
