//! What the estimator reads of a GGUF file: its tensor table and metadata.

use crate::text;
use crate::text_map::TextMap;
use vstd::prelude::*;
use vstd::string::*;

verus! {

/// Element types of GGUF tensors and caches. Types without a name of their
/// own here are `Unknown` with ggml's number.
#[derive(Debug, Clone, Copy, PartialEq, Eq, Structural)]
#[allow(non_camel_case_types)]
pub enum GgufType {
    F32,
    F16,
    BF16,
    Q4_0,
    Q4_1,
    Q5_0,
    Q5_1,
    Q8_0,
    Q4K,
    IQ4_NL,
    Q6_0,
    Q8_KV,
    Unknown(u32),
}

impl GgufType {
    /// The type that ggml spells `name`.
    pub open spec fn named(name: Seq<char>) -> Option<GgufType> {
        if name == "f32"@ {
            Some(GgufType::F32)
        } else if name == "f16"@ {
            Some(GgufType::F16)
        } else if name == "bf16"@ {
            Some(GgufType::BF16)
        } else if name == "q4_0"@ {
            Some(GgufType::Q4_0)
        } else if name == "q4_1"@ {
            Some(GgufType::Q4_1)
        } else if name == "q5_0"@ {
            Some(GgufType::Q5_0)
        } else if name == "q5_1"@ {
            Some(GgufType::Q5_1)
        } else if name == "q8_0"@ {
            Some(GgufType::Q8_0)
        } else if name == "q4_K"@ {
            Some(GgufType::Q4K)
        } else if name == "iq4_nl"@ {
            Some(GgufType::IQ4_NL)
        } else if name == "q6_0"@ {
            Some(GgufType::Q6_0)
        } else if name == "q8_KV"@ {
            Some(GgufType::Q8_KV)
        } else {
            None
        }
    }

    /// The type that ggml spells `name`.
    pub fn from_name(name: &str) -> (r: Option<GgufType>)
        ensures
            r == Self::named(name@),
    {
        if text::same(name, "f32") {
            Some(GgufType::F32)
        } else if text::same(name, "f16") {
            Some(GgufType::F16)
        } else if text::same(name, "bf16") {
            Some(GgufType::BF16)
        } else if text::same(name, "q4_0") {
            Some(GgufType::Q4_0)
        } else if text::same(name, "q4_1") {
            Some(GgufType::Q4_1)
        } else if text::same(name, "q5_0") {
            Some(GgufType::Q5_0)
        } else if text::same(name, "q5_1") {
            Some(GgufType::Q5_1)
        } else if text::same(name, "q8_0") {
            Some(GgufType::Q8_0)
        } else if text::same(name, "q4_K") {
            Some(GgufType::Q4K)
        } else if text::same(name, "iq4_nl") {
            Some(GgufType::IQ4_NL)
        } else if text::same(name, "q6_0") {
            Some(GgufType::Q6_0)
        } else if text::same(name, "q8_KV") {
            Some(GgufType::Q8_KV)
        } else {
            None
        }
    }
}

/// A metadata value.
#[derive(Debug)]
pub enum GgufValue {
    U32(u32),
    U64(u64),
    Bool(bool),
    String(String),
    Array(Vec<GgufValue>),
}

impl GgufValue {
    /// The value as a 32-bit count.
    pub open spec fn u32_view(&self) -> Option<u32> {
        match self {
            GgufValue::U32(v) => Some(*v),
            GgufValue::U64(v) => if *v <= u32::MAX {
                Some(*v as u32)
            } else {
                None
            },
            _ => None,
        }
    }

    /// The value as a 64-bit count.
    pub open spec fn u64_view(&self) -> Option<u64> {
        match self {
            GgufValue::U32(v) => Some(*v as u64),
            GgufValue::U64(v) => Some(*v),
            _ => None,
        }
    }

    /// The value as a list of counts; a scalar is a list of one.
    pub open spec fn u32s_view(&self) -> Option<Seq<u32>> {
        match self {
            GgufValue::Array(items) => if forall|i: int|
                0 <= i < items@.len() ==> (#[trigger] items@[i]).u32_view() is Some {
                Some(Seq::new(items@.len(), |i: int| items@[i].u32_view()->0))
            } else {
                None
            },
            _ => match self.u32_view() {
                Some(v) => Some(seq![v]),
                None => None,
            },
        }
    }

    /// The value as a list of flags; a scalar is a list of one.
    pub open spec fn bools_view(&self) -> Option<Seq<bool>> {
        match self {
            GgufValue::Array(items) => if forall|i: int|
                0 <= i < items@.len() ==> (#[trigger] items@[i]) is Bool {
                Some(Seq::new(items@.len(), |i: int| items@[i]->Bool_0))
            } else {
                None
            },
            GgufValue::Bool(b) => Some(seq![*b]),
            _ => None,
        }
    }

    /// The value as a 32-bit count.
    pub fn as_u32(&self) -> (r: Option<u32>)
        ensures
            r == self.u32_view(),
    {
        match self {
            GgufValue::U32(v) => Some(*v),
            GgufValue::U64(v) => if *v <= u32::MAX as u64 {
                Some(*v as u32)
            } else {
                None
            },
            _ => None,
        }
    }

    /// The value as a 64-bit count.
    pub fn as_u64(&self) -> (r: Option<u64>)
        ensures
            r == self.u64_view(),
    {
        match self {
            GgufValue::U32(v) => Some(*v as u64),
            GgufValue::U64(v) => Some(*v),
            _ => None,
        }
    }

    /// The value as a list of counts; a scalar is a list of one.
    pub fn as_u32_array(&self) -> (r: Option<Vec<u32>>)
        ensures
            match r {
                Some(v) => self.u32s_view() == Some(v@),
                None => self.u32s_view() is None,
            },
    {
        match self {
            GgufValue::Array(items) => {
                let mut out: Vec<u32> = Vec::new();
                for i in 0..items.len()
                    invariant
                        *self == GgufValue::Array(*items),
                        out@.len() == i,
                        forall|j: int|
                            0 <= j < i ==> (#[trigger] items@[j]).u32_view() == Some(out@[j]),
                {
                    match items[i].as_u32() {
                        Some(v) => out.push(v),
                        None => {
                            assert(items@[i as int].u32_view() is None);
                            return None;
                        },
                    }
                }
                assert(out@ =~= Seq::new(items@.len(), |i: int| items@[i].u32_view()->0));
                Some(out)
            },
            _ => match self.as_u32() {
                Some(v) => {
                    let mut out: Vec<u32> = Vec::new();
                    out.push(v);
                    assert(out@ =~= seq![v]);
                    Some(out)
                },
                None => None,
            },
        }
    }

    /// The value as a list of flags; a scalar is a list of one.
    pub fn as_bool_array(&self) -> (r: Option<Vec<bool>>)
        ensures
            match r {
                Some(v) => self.bools_view() == Some(v@),
                None => self.bools_view() is None,
            },
    {
        match self {
            GgufValue::Array(items) => {
                let mut out: Vec<bool> = Vec::new();
                for i in 0..items.len()
                    invariant
                        *self == GgufValue::Array(*items),
                        out@.len() == i,
                        forall|j: int|
                            0 <= j < i ==> (#[trigger] items@[j]) is Bool && items@[j]->Bool_0
                                == out@[j],
                {
                    match &items[i] {
                        GgufValue::Bool(b) => out.push(*b),
                        _ => {
                            assert(!(items@[i as int] is Bool));
                            return None;
                        },
                    }
                }
                assert(out@ =~= Seq::new(items@.len(), |i: int| items@[i]->Bool_0));
                Some(out)
            },
            GgufValue::Bool(b) => {
                let mut out: Vec<bool> = Vec::new();
                out.push(*b);
                assert(out@ =~= seq![*b]);
                Some(out)
            },
            _ => None,
        }
    }
}

/// One tensor of a GGUF file.
#[derive(Debug)]
pub struct GgufTensor {
    pub name: String,
    pub dtype: GgufType,
    pub shape: Vec<u64>,
    pub byte_size: u64,
    pub shard_idx: u32,
    pub offset: u64,
}

/// What is kept of a GGUF file: tensors by name, metadata by key, and the
/// facts every reader wants first.
#[derive(Debug)]
pub struct GgufSummary {
    pub path: String,
    pub total_tensor_bytes: u64,
    pub tensors: TextMap<GgufTensor>,
    pub metadata: TextMap<GgufValue>,
    pub block_count: Option<u32>,
    pub architecture: String,
    pub shards: Vec<String>,
}

/// The metadata key `suffix` has under the architecture `arch`.
pub open spec fn scoped(arch: Seq<char>, suffix: Seq<char>) -> Seq<char> {
    arch + "."@ + suffix
}

impl GgufSummary {
    /// The value stored for `suffix` under this model's architecture.
    pub open spec fn value(&self, suffix: Seq<char>) -> Option<GgufValue> {
        let key = scoped(self.architecture@, suffix);
        if self.metadata@.contains_key(key) {
            Some(self.metadata@[key])
        } else {
            None
        }
    }

    /// `value` as a 32-bit count.
    pub open spec fn u32_at(&self, suffix: Seq<char>) -> Option<u32> {
        match self.value(suffix) {
            Some(v) => v.u32_view(),
            None => None,
        }
    }

    /// `u32_at`, or `fallback` without one.
    pub open spec fn u32_or(&self, suffix: Seq<char>, fallback: int) -> int {
        match self.u32_at(suffix) {
            Some(v) => v as int,
            None => fallback,
        }
    }

    /// `value` as a 64-bit count.
    pub open spec fn u64_at(&self, suffix: Seq<char>) -> Option<u64> {
        match self.value(suffix) {
            Some(v) => v.u64_view(),
            None => None,
        }
    }

    /// `u64_at`, or zero without one.
    pub open spec fn u64_or_zero(&self, suffix: Seq<char>) -> int {
        match self.u64_at(suffix) {
            Some(v) => v as int,
            None => 0,
        }
    }

    /// How many blocks the model declares; none counts as zero.
    pub open spec fn blocks(&self) -> int {
        match self.block_count {
            Some(n) => n as int,
            None => 0,
        }
    }

    /// The value stored for `suffix` under this model's architecture.
    pub fn meta(&self, suffix: &str) -> (r: Option<&GgufValue>)
        ensures
            match r {
                Some(v) => self.value(suffix@) == Some(*v),
                None => self.value(suffix@) is None,
            },
    {
        let key = self.architecture.clone().concat(".").concat(suffix);
        self.metadata.get(key.as_str())
    }

    /// `meta` as a 32-bit count.
    pub fn meta_u32(&self, suffix: &str) -> (r: Option<u32>)
        ensures
            r == self.u32_at(suffix@),
    {
        match self.meta(suffix) {
            Some(v) => v.as_u32(),
            None => None,
        }
    }

    /// `meta_u32`, or `fallback` without one.
    pub fn meta_u32_or(&self, suffix: &str, fallback: u64) -> (r: u64)
        ensures
            r == self.u32_or(suffix@, fallback as int),
    {
        match self.meta_u32(suffix) {
            Some(v) => v as u64,
            None => fallback,
        }
    }

    /// `meta` as a 64-bit count.
    pub fn meta_u64(&self, suffix: &str) -> (r: Option<u64>)
        ensures
            r == self.u64_at(suffix@),
    {
        match self.meta(suffix) {
            Some(v) => v.as_u64(),
            None => None,
        }
    }

    /// `meta_u64`, or zero without one.
    pub fn meta_u64_or_zero(&self, suffix: &str) -> (r: u64)
        ensures
            r == self.u64_or_zero(suffix@),
    {
        match self.meta_u64(suffix) {
            Some(v) => v,
            None => 0,
        }
    }

    /// How many blocks the model declares; none counts as zero.
    pub fn block_total(&self) -> (r: u32)
        ensures
            r == self.blocks(),
    {
        match self.block_count {
            Some(n) => n,
            None => 0,
        }
    }
}

/// A setting of a model is what stands under its architecture, a dot and the
/// setting's name: a count as it stands, in either width where it fits, and
/// nothing where nothing stands or something else does.
pub proof fn lemma_settings_read(summary: GgufSummary, suffix: Seq<char>)
    ensures
        ({
            let key = summary.architecture@ + "."@ + suffix;
            let found = summary.metadata@.contains_key(key);
            &&& summary.value(suffix) is Some <==> found
            &&& found ==> summary.value(suffix)->0 == summary.metadata@[key]
            &&& !found ==> summary.u32_at(suffix) is None && summary.u64_at(suffix) is None
            &&& found ==> match summary.metadata@[key] {
                GgufValue::U32(v) => {
                    &&& summary.u32_at(suffix) == Some(v)
                    &&& summary.u64_at(suffix) == Some(v as u64)
                },
                GgufValue::U64(v) => {
                    &&& summary.u64_at(suffix) == Some(v)
                    &&& summary.u32_at(suffix) is Some <==> v <= u32::MAX
                    &&& summary.u32_at(suffix) matches Some(w) ==> w == v
                },
                _ => summary.u32_at(suffix) is None && summary.u64_at(suffix) is None,
            }
        }),
{
}

/// A count that is absent is the fallback, or nothing.
pub proof fn lemma_settings_by_default(summary: GgufSummary, suffix: Seq<char>, fallback: int)
    ensures
        summary.u32_at(suffix) matches Some(v) ==> summary.u32_or(suffix, fallback) == v,
        summary.u32_at(suffix) is None ==> summary.u32_or(suffix, fallback) == fallback,
        summary.u64_at(suffix) matches Some(v) ==> summary.u64_or_zero(suffix) == v,
        summary.u64_at(suffix) is None ==> summary.u64_or_zero(suffix) == 0,
{
}

/// A list is read entry by entry and only where every entry is of the kind
/// that is asked for; one value alone is a list of one.
pub proof fn lemma_lists_read(v: GgufValue)
    ensures
        v matches GgufValue::U32(n) ==> v.u32s_view() is Some && v.u32s_view()->0.len() == 1
            && v.u32s_view()->0[0] == n && v.bools_view() is None,
        v matches GgufValue::Bool(b) ==> v.bools_view() is Some && v.bools_view()->0.len() == 1
            && v.bools_view()->0[0] == b && v.u32s_view() is None,
        v matches GgufValue::Array(items) ==> {
            &&& v.u32s_view() is Some <==> forall|i: int|
                0 <= i < items@.len() ==> match #[trigger] items@[i] {
                    GgufValue::U32(_) => true,
                    GgufValue::U64(n) => n <= u32::MAX,
                    _ => false,
                }
            &&& v.u32s_view() matches Some(list) ==> list.len() == items@.len() && forall|i: int|
                0 <= i < items@.len() ==> match #[trigger] items@[i] {
                    GgufValue::U32(n) => list[i] == n,
                    GgufValue::U64(n) => list[i] == n,
                    _ => false,
                }
            &&& v.bools_view() is Some <==> forall|i: int|
                0 <= i < items@.len() ==> #[trigger] items@[i] is Bool
            &&& v.bools_view() matches Some(list) ==> list.len() == items@.len() && forall|i: int|
                0 <= i < items@.len() ==> #[trigger] items@[i] == GgufValue::Bool(list[i])
        },
        v is String ==> v.u32s_view() is None && v.bools_view() is None && v.u32_view() is None
            && v.u64_view() is None,
{
    if let GgufValue::Array(items) = v {
        if forall|i: int|
            0 <= i < items@.len() ==> match #[trigger] items@[i] {
                GgufValue::U32(_) => true,
                GgufValue::U64(n) => n <= u32::MAX,
                _ => false,
            } {
            assert forall|i: int| 0 <= i < items@.len() implies (#[trigger] items@[i]).u32_view()
                is Some by {}
        }
        if v.u32s_view() is Some {
            assert forall|i: int| 0 <= i < items@.len() implies match #[trigger] items@[i] {
                GgufValue::U32(_) => true,
                GgufValue::U64(n) => n <= u32::MAX,
                _ => false,
            } by {
                assert(items@[i].u32_view() is Some);
            }
        }
    }
}

/// Each type is read from the word that spells it, and from no other.
pub proof fn lemma_types_spelled(name: Seq<char>)
    ensures
        GgufType::named(name) == Some(GgufType::F32) <==> name == "f32"@,
        GgufType::named(name) == Some(GgufType::F16) <==> name == "f16"@,
        GgufType::named(name) == Some(GgufType::BF16) <==> name == "bf16"@,
        GgufType::named(name) == Some(GgufType::Q4_0) <==> name == "q4_0"@,
        GgufType::named(name) == Some(GgufType::Q4_1) <==> name == "q4_1"@,
        GgufType::named(name) == Some(GgufType::Q5_0) <==> name == "q5_0"@,
        GgufType::named(name) == Some(GgufType::Q5_1) <==> name == "q5_1"@,
        GgufType::named(name) == Some(GgufType::Q8_0) <==> name == "q8_0"@,
        GgufType::named(name) == Some(GgufType::Q4K) <==> name == "q4_K"@,
        GgufType::named(name) == Some(GgufType::IQ4_NL) <==> name == "iq4_nl"@,
        GgufType::named(name) == Some(GgufType::Q6_0) <==> name == "q6_0"@,
        GgufType::named(name) == Some(GgufType::Q8_KV) <==> name == "q8_KV"@,
        !(GgufType::named(name) matches Some(GgufType::Unknown(_))),
{
    reveal_strlit("f32");
    reveal_strlit("f16");
    reveal_strlit("bf16");
    reveal_strlit("q4_0");
    reveal_strlit("q4_1");
    reveal_strlit("q5_0");
    reveal_strlit("q5_1");
    reveal_strlit("q8_0");
    reveal_strlit("q4_K");
    reveal_strlit("iq4_nl");
    reveal_strlit("q6_0");
    reveal_strlit("q8_KV");
    assert("f32"@[1] == '3' && "f16"@[1] == '1');
    assert("f32"@.len() == 3 && "f16"@.len() == 3);
    assert("bf16"@.len() == 4 && "bf16"@[0] == 'b');
    assert("q4_0"@.len() == 4 && "q4_0"@[0] == 'q' && "q4_0"@[1] == '4' && "q4_0"@[3] == '0');
    assert("q4_1"@.len() == 4 && "q4_1"@[0] == 'q' && "q4_1"@[1] == '4' && "q4_1"@[3] == '1');
    assert("q5_0"@.len() == 4 && "q5_0"@[0] == 'q' && "q5_0"@[1] == '5' && "q5_0"@[3] == '0');
    assert("q5_1"@.len() == 4 && "q5_1"@[0] == 'q' && "q5_1"@[1] == '5' && "q5_1"@[3] == '1');
    assert("q8_0"@.len() == 4 && "q8_0"@[0] == 'q' && "q8_0"@[1] == '8');
    assert("q4_K"@.len() == 4 && "q4_K"@[0] == 'q' && "q4_K"@[1] == '4' && "q4_K"@[3] == 'K');
    assert("iq4_nl"@.len() == 6);
    assert("q6_0"@.len() == 4 && "q6_0"@[0] == 'q' && "q6_0"@[1] == '6');
    assert("q8_KV"@.len() == 5);
}

/// A model has the blocks that it declares, and none where it declares none.
pub proof fn lemma_blocks_declared(summary: GgufSummary)
    ensures
        summary.block_count is None ==> summary.blocks() == 0,
        summary.block_count matches Some(n) ==> summary.blocks() == n,
{
}

} // verus!
