//! A fingerprint of the settings an estimate was made with.

use crate::estimate::types::{EstimatorInputs, Fork, Speculation, SplitMode};
use crate::gguf::GgufType;
use std::collections::hash_map::DefaultHasher;
use std::hash::Hasher;
use vstd::bytes::*;
use vstd::prelude::*;
use vstd::std_specs::hash::*;
use vstd::string::*;

verus! {

/// Bytes of an optional number.
pub open spec fn opt_number(n: Option<u32>) -> Seq<u8> {
    match n {
        None => seq![0u8],
        Some(v) => seq![1u8] + spec_u32_to_le_bytes(v),
    }
}

/// Bytes of an optional flag.
pub open spec fn opt_flag(b: Option<bool>) -> Seq<u8> {
    match b {
        None => seq![0u8],
        Some(false) => seq![1u8],
        Some(true) => seq![2u8],
    }
}

/// Bytes of a flag.
pub open spec fn flag(b: bool) -> Seq<u8> {
    if b {
        seq![1u8]
    } else {
        seq![0u8]
    }
}

/// A number for each cache type that has a name.
pub open spec fn type_code(t: GgufType) -> u8 {
    match t {
        GgufType::F32 => 1,
        GgufType::F16 => 2,
        GgufType::BF16 => 3,
        GgufType::Q4_0 => 4,
        GgufType::Q4_1 => 5,
        GgufType::Q5_0 => 6,
        GgufType::Q5_1 => 7,
        GgufType::Q8_0 => 8,
        GgufType::Q4K => 9,
        GgufType::IQ4_NL => 10,
        GgufType::Q6_0 => 11,
        GgufType::Q8_KV => 12,
        GgufType::Unknown(_) => 13,
    }
}

/// Bytes of an optional cache type.
pub open spec fn opt_type(t: Option<GgufType>) -> Seq<u8> {
    match t {
        None => seq![0u8],
        Some(GgufType::Unknown(n)) => seq![13u8] + spec_u32_to_le_bytes(n),
        Some(t) => seq![type_code(t)],
    }
}

/// Bytes of a split mode.
pub open spec fn split_bytes(s: SplitMode) -> Seq<u8> {
    match s {
        SplitMode::Layer => seq![0u8],
        SplitMode::Row => seq![1u8],
        SplitMode::Tensor => seq![2u8],
    }
}

/// Bytes of a fork.
pub open spec fn fork_bytes(f: Fork) -> Seq<u8> {
    match f {
        Fork::Mainline => seq![0u8],
        Fork::Ik { dsa: false } => seq![1u8],
        Fork::Ik { dsa: true } => seq![2u8],
    }
}

/// Bytes of a text, behind their number.
pub open spec fn framed(s: Seq<char>) -> Seq<u8> {
    let bytes = vstd::utf8::encode_utf8(s);
    spec_u64_to_le_bytes(bytes.len() as u64) + bytes
}

/// What kind of speculation there is.
pub open spec fn speculation_kind(s: Speculation<'_>) -> Seq<u8> {
    match s {
        Speculation::Off => seq![0u8],
        Speculation::EmbeddedMtp => seq![1u8],
        Speculation::SeparateDraft { path, spec_type } => seq![2u8],
    }
}

/// The separate draft's path.
pub open spec fn speculation_path(s: Speculation<'_>) -> Seq<u8> {
    match s {
        Speculation::SeparateDraft { path, spec_type } => framed(path@),
        _ => Seq::empty(),
    }
}

/// The separate draft's mechanism.
pub open spec fn speculation_type(s: Speculation<'_>) -> Seq<u8> {
    match s {
        Speculation::SeparateDraft { path, spec_type } => framed(spec_type@),
        _ => Seq::empty(),
    }
}

/// The settings of a service other than its rules, each as bytes.
pub open spec fn fixed_parts(inputs: EstimatorInputs<'_>) -> Seq<Seq<u8>> {
    seq![
        spec_u32_to_le_bytes(inputs.context),
        opt_number(inputs.ubatch),
        opt_type(inputs.cache_type_k),
        opt_type(inputs.cache_type_v),
        opt_number(inputs.compute_buffer_mb),
        speculation_kind(inputs.speculation),
        speculation_path(inputs.speculation),
        speculation_type(inputs.speculation),
        fork_bytes(inputs.fork),
        opt_number(inputs.parallel),
        opt_flag(inputs.flash_attn),
        opt_flag(inputs.kv_unified),
        opt_number(inputs.cache_ram_mb),
        spec_u32_to_le_bytes(inputs.visible_devices),
        flag(inputs.host_resident_experts),
        split_bytes(inputs.split_mode),
    ]
}

/// The rules of a service, each as bytes.
pub open spec fn rule_parts(inputs: EstimatorInputs<'_>) -> Seq<Seq<u8>> {
    Seq::new(inputs.override_tensor@.len(), |i: int| framed(inputs.override_tensor@[i]@))
}

/// Everything that goes into the fingerprint, in order.
pub open spec fn parts(inputs: EstimatorInputs<'_>) -> Seq<Seq<u8>> {
    fixed_parts(inputs) + rule_parts(inputs)
}

fn number_bytes(n: Option<u32>) -> (r: Vec<u8>)
    ensures
        r@ == opt_number(n),
{
    let mut r: Vec<u8> = Vec::new();
    match n {
        None => {
            r.push(0);
        },
        Some(v) => {
            r.push(1);
            let mut bytes: Vec<u8> = u32_to_le_bytes(v);
            r.append(&mut bytes);
        },
    }
    assert(r@ =~= opt_number(n));
    r
}

fn one_byte(b: u8) -> (r: Vec<u8>)
    ensures
        r@ == seq![b],
{
    let mut r: Vec<u8> = Vec::new();
    r.push(b);
    assert(r@ =~= seq![b]);
    r
}

fn flag_bytes(b: Option<bool>) -> (r: Vec<u8>)
    ensures
        r@ == opt_flag(b),
{
    match b {
        None => one_byte(0),
        Some(on) => if on {
            one_byte(2)
        } else {
            one_byte(1)
        },
    }
}

fn type_bytes(t: Option<GgufType>) -> (r: Vec<u8>)
    ensures
        r@ == opt_type(t),
{
    match t {
        None => one_byte(0),
        Some(t) => match t {
            GgufType::F32 => one_byte(1),
            GgufType::F16 => one_byte(2),
            GgufType::BF16 => one_byte(3),
            GgufType::Q4_0 => one_byte(4),
            GgufType::Q4_1 => one_byte(5),
            GgufType::Q5_0 => one_byte(6),
            GgufType::Q5_1 => one_byte(7),
            GgufType::Q8_0 => one_byte(8),
            GgufType::Q4K => one_byte(9),
            GgufType::IQ4_NL => one_byte(10),
            GgufType::Q6_0 => one_byte(11),
            GgufType::Q8_KV => one_byte(12),
            GgufType::Unknown(n) => {
                let mut r: Vec<u8> = one_byte(13);
                let mut bytes: Vec<u8> = u32_to_le_bytes(n);
                r.append(&mut bytes);
                assert(r@ =~= opt_type(Some(t)));
                r
            },
        },
    }
}

fn text_bytes(s: &str) -> (r: Vec<u8>)
    ensures
        r@ == framed(s@),
{
    let bytes: &[u8] = s.as_bytes();
    let mut r: Vec<u8> = u64_to_le_bytes(bytes.len() as u64);
    r.extend_from_slice(bytes);
    assert(r@ =~= framed(s@));
    r
}

/// A hasher that has taken in one more part.
fn take_in(hasher: DefaultHasher, part: Vec<u8>) -> (r: DefaultHasher)
    ensures
        r@ == hasher@.push(part@),
{
    let mut r = hasher;
    r.write(part.as_slice());
    r
}

impl<'a> EstimatorInputs<'a> {
    /// A hash of every setting that would change the estimate, so that a
    /// kept estimate is known to be stale when one was edited.
    ///
    /// The model and the projector are not part of it: another path is
    /// another model. Neither is the name, which no figure depends on.
    pub fn config_fingerprint(&self) -> (r: u64)
        ensures
            r == DefaultHasher::spec_finish(parts(*self)),
    {
        let fork: u8 = match self.fork {
            Fork::Mainline => 0,
            Fork::Ik { dsa } => if dsa {
                2
            } else {
                1
            },
        };
        let split: u8 = match self.split_mode {
            SplitMode::Layer => 0,
            SplitMode::Row => 1,
            SplitMode::Tensor => 2,
        };
        let (kind, path, mechanism): (u8, Vec<u8>, Vec<u8>) = match self.speculation {
            Speculation::Off => (0, Vec::new(), Vec::new()),
            Speculation::EmbeddedMtp => (1, Vec::new(), Vec::new()),
            Speculation::SeparateDraft { path, spec_type } => (
                2,
                text_bytes(path),
                text_bytes(spec_type),
            ),
        };
        let h = DefaultHasher::new();
        let h = take_in(h, u32_to_le_bytes(self.context));
        let h = take_in(h, number_bytes(self.ubatch));
        let h = take_in(h, type_bytes(self.cache_type_k));
        let h = take_in(h, type_bytes(self.cache_type_v));
        let h = take_in(h, number_bytes(self.compute_buffer_mb));
        let h = take_in(h, one_byte(kind));
        let h = take_in(h, path);
        let h = take_in(h, mechanism);
        let h = take_in(h, one_byte(fork));
        let h = take_in(h, number_bytes(self.parallel));
        let h = take_in(h, flag_bytes(self.flash_attn));
        let h = take_in(h, flag_bytes(self.kv_unified));
        let h = take_in(h, number_bytes(self.cache_ram_mb));
        let h = take_in(h, u32_to_le_bytes(self.visible_devices));
        let h = take_in(
            h,
            one_byte(
                if self.host_resident_experts {
                    1
                } else {
                    0
                },
            ),
        );
        let mut h = take_in(h, one_byte(split));
        proof {
            assert(path@ =~= speculation_path(self.speculation));
            assert(mechanism@ =~= speculation_type(self.speculation));
            assert(h@ =~= fixed_parts(*self));
            assert(h@ + rule_parts(*self).take(0) =~= h@);
        }
        for i in 0..self.override_tensor.len()
            invariant
                h@ == fixed_parts(*self) + rule_parts(*self).take(i as int),
        {
            h = take_in(h, text_bytes(self.override_tensor[i].as_str()));
            assert(h@ =~= fixed_parts(*self) + rule_parts(*self).take(i + 1));
        }
        assert(rule_parts(*self).take(rule_parts(*self).len() as int) =~= rule_parts(*self));
        h.finish()
    }
}

/// Whether two kinds of speculation are the same, draft and mechanism
/// included.
pub open spec fn same_speculation(a: Speculation<'_>, b: Speculation<'_>) -> bool {
    match (a, b) {
        (Speculation::Off, Speculation::Off) => true,
        (Speculation::EmbeddedMtp, Speculation::EmbeddedMtp) => true,
        (
            Speculation::SeparateDraft { path: p, spec_type: s },
            Speculation::SeparateDraft { path: q, spec_type: t },
        ) => p@ == q@ && s@ == t@,
        _ => false,
    }
}

/// Whether two sets of inputs agree in everything but the name and the
/// paths of model and projector.
pub open spec fn same_settings(a: EstimatorInputs<'_>, b: EstimatorInputs<'_>) -> bool {
    &&& a.context == b.context
    &&& a.ubatch == b.ubatch
    &&& a.cache_type_k == b.cache_type_k
    &&& a.cache_type_v == b.cache_type_v
    &&& a.compute_buffer_mb == b.compute_buffer_mb
    &&& same_speculation(a.speculation, b.speculation)
    &&& a.fork == b.fork
    &&& a.parallel == b.parallel
    &&& a.flash_attn == b.flash_attn
    &&& a.kv_unified == b.kv_unified
    &&& a.cache_ram_mb == b.cache_ram_mb
    &&& a.visible_devices == b.visible_devices
    &&& a.host_resident_experts == b.host_resident_experts
    &&& a.split_mode == b.split_mode
    &&& a.override_tensor@.len() == b.override_tensor@.len()
    &&& forall|i: int|
        0 <= i < a.override_tensor@.len() ==> (#[trigger] a.override_tensor@[i])@
            == b.override_tensor@[i]@
}

proof fn lemma_number_injective(a: u32, b: u32)
    requires
        spec_u32_to_le_bytes(a) == spec_u32_to_le_bytes(b),
    ensures
        a == b,
{
    lemma_auto_spec_u32_to_from_le_bytes();
    assert(spec_u32_to_le_bytes(a).len() == 4);
    assert(spec_u32_to_le_bytes(b).len() == 4);
}

proof fn lemma_tail(tag: u8, a: Seq<u8>, b: Seq<u8>)
    requires
        seq![tag] + a == seq![tag] + b,
    ensures
        a == b,
{
    assert((seq![tag] + a).skip(1) =~= a);
    assert((seq![tag] + b).skip(1) =~= b);
}

proof fn lemma_opt_number_injective(a: Option<u32>, b: Option<u32>)
    requires
        opt_number(a) == opt_number(b),
    ensures
        a == b,
{
    let x = opt_number(a);
    let y = opt_number(b);
    assert(x[0] == y[0]);
    assert(x[0] == if a is Some {
        1u8
    } else {
        0
    });
    assert(y[0] == if b is Some {
        1u8
    } else {
        0
    });
    if let (Some(v), Some(w)) = (a, b) {
        lemma_tail(1, spec_u32_to_le_bytes(v), spec_u32_to_le_bytes(w));
        lemma_number_injective(v, w);
    }
}

proof fn lemma_opt_type_injective(a: Option<GgufType>, b: Option<GgufType>)
    requires
        opt_type(a) == opt_type(b),
    ensures
        a == b,
{
    let x = opt_type(a);
    let y = opt_type(b);
    assert(x[0] == y[0]);
    assert(a is Some ==> x[0] == type_code(a->0));
    assert(b is Some ==> y[0] == type_code(b->0));
    if let (Some(GgufType::Unknown(v)), Some(GgufType::Unknown(w))) = (a, b) {
        lemma_tail(13, spec_u32_to_le_bytes(v), spec_u32_to_le_bytes(w));
        lemma_number_injective(v, w);
    }
}

proof fn lemma_framed_injective(a: Seq<char>, b: Seq<char>)
    requires
        framed(a) == framed(b),
    ensures
        a == b,
{
    lemma_auto_spec_u64_to_from_le_bytes();
    let x = vstd::utf8::encode_utf8(a);
    let y = vstd::utf8::encode_utf8(b);
    assert(framed(a).skip(8) =~= x);
    assert(framed(b).skip(8) =~= y);
    vstd::utf8::encode_utf8_decode_utf8(a);
    vstd::utf8::encode_utf8_decode_utf8(b);
}

/// What is hashed is the same exactly where the settings are: no setting is
/// left out, and none is taken for another.
pub proof fn lemma_parts_tell_settings_apart(a: EstimatorInputs<'_>, b: EstimatorInputs<'_>)
    ensures
        parts(a) == parts(b) <==> same_settings(a, b),
{
    let x = parts(a);
    let y = parts(b);
    let fa = fixed_parts(a);
    let fb = fixed_parts(b);
    if x == y {
        assert(fa.len() == 16 && fb.len() == 16);
        assert(x.len() == 16 + a.override_tensor@.len());
        assert(y.len() == 16 + b.override_tensor@.len());
        assert forall|k: int| 0 <= k < 16 implies fa[k] == fb[k] by {
            assert(x[k] == fa[k]);
            assert(y[k] == fb[k]);
        }
        lemma_fixed_parts_injective(a, b);
        assert forall|i: int| 0 <= i < a.override_tensor@.len() implies (
        #[trigger] a.override_tensor@[i])@ == b.override_tensor@[i]@ by {
            assert(x[16 + i] == framed(a.override_tensor@[i]@));
            assert(y[16 + i] == framed(b.override_tensor@[i]@));
            lemma_framed_injective(a.override_tensor@[i]@, b.override_tensor@[i]@);
        }
    }
    if same_settings(a, b) {
        assert(fa =~= fb);
        assert(rule_parts(a) =~= rule_parts(b));
    }
}

proof fn lemma_fixed_parts_injective(a: EstimatorInputs<'_>, b: EstimatorInputs<'_>)
    requires
        forall|k: int| 0 <= k < 16 ==> fixed_parts(a)[k] == fixed_parts(b)[k],
    ensures
        a.context == b.context,
        a.ubatch == b.ubatch,
        a.cache_type_k == b.cache_type_k,
        a.cache_type_v == b.cache_type_v,
        a.compute_buffer_mb == b.compute_buffer_mb,
        same_speculation(a.speculation, b.speculation),
        a.fork == b.fork,
        a.parallel == b.parallel,
        a.flash_attn == b.flash_attn,
        a.kv_unified == b.kv_unified,
        a.cache_ram_mb == b.cache_ram_mb,
        a.visible_devices == b.visible_devices,
        a.host_resident_experts == b.host_resident_experts,
        a.split_mode == b.split_mode,
{
    let fa = fixed_parts(a);
    let fb = fixed_parts(b);
    assert(fa[0] == fb[0]);
    lemma_number_injective(a.context, b.context);
    assert(fa[1] == fb[1]);
    lemma_opt_number_injective(a.ubatch, b.ubatch);
    assert(fa[2] == fb[2]);
    lemma_opt_type_injective(a.cache_type_k, b.cache_type_k);
    assert(fa[3] == fb[3]);
    lemma_opt_type_injective(a.cache_type_v, b.cache_type_v);
    assert(fa[4] == fb[4]);
    lemma_opt_number_injective(a.compute_buffer_mb, b.compute_buffer_mb);
    assert(fa[5][0] == fb[5][0]);
    assert(fa[6] == fb[6]);
    assert(fa[7] == fb[7]);
    if let (
        Speculation::SeparateDraft { path: p, spec_type: s },
        Speculation::SeparateDraft { path: q, spec_type: t },
    ) = (a.speculation, b.speculation) {
        lemma_framed_injective(p@, q@);
        lemma_framed_injective(s@, t@);
    }
    assert(fa[8][0] == fb[8][0]);
    assert(fa[9] == fb[9]);
    lemma_opt_number_injective(a.parallel, b.parallel);
    assert(fa[10][0] == fb[10][0]);
    assert(fa[11][0] == fb[11][0]);
    assert(fa[12] == fb[12]);
    lemma_opt_number_injective(a.cache_ram_mb, b.cache_ram_mb);
    assert(fa[13] == fb[13]);
    lemma_number_injective(a.visible_devices, b.visible_devices);
    assert(fa[14][0] == fb[14][0]);
    assert(fa[15][0] == fb[15][0]);
}

/// An edit of any one setting that a figure depends on changes what is
/// hashed.
pub proof fn lemma_every_edit_is_hashed(a: EstimatorInputs<'_>, b: EstimatorInputs<'_>, i: int)
    ensures
        a.context != b.context ==> parts(a) != parts(b),
        a.ubatch != b.ubatch ==> parts(a) != parts(b),
        a.cache_type_k != b.cache_type_k ==> parts(a) != parts(b),
        a.cache_type_v != b.cache_type_v ==> parts(a) != parts(b),
        a.compute_buffer_mb != b.compute_buffer_mb ==> parts(a) != parts(b),
        a.speculation is Off != b.speculation is Off ==> parts(a) != parts(b),
        a.speculation is EmbeddedMtp != b.speculation is EmbeddedMtp ==> parts(a) != parts(b),
        a.speculation matches Speculation::SeparateDraft { path: p, spec_type: s } ==> (
        b.speculation matches Speculation::SeparateDraft { path: q, spec_type: t } ==> (p@ != q@
            || s@ != t@ ==> parts(a) != parts(b))),
        a.fork != b.fork ==> parts(a) != parts(b),
        a.parallel != b.parallel ==> parts(a) != parts(b),
        a.flash_attn != b.flash_attn ==> parts(a) != parts(b),
        a.kv_unified != b.kv_unified ==> parts(a) != parts(b),
        a.cache_ram_mb != b.cache_ram_mb ==> parts(a) != parts(b),
        a.visible_devices != b.visible_devices ==> parts(a) != parts(b),
        a.host_resident_experts != b.host_resident_experts ==> parts(a) != parts(b),
        a.split_mode != b.split_mode ==> parts(a) != parts(b),
        a.override_tensor@.len() != b.override_tensor@.len() ==> parts(a) != parts(b),
        0 <= i < a.override_tensor@.len() && a.override_tensor@.len() == b.override_tensor@.len()
            && a.override_tensor@[i]@ != b.override_tensor@[i]@ ==> parts(a) != parts(b),
{
    lemma_parts_tell_settings_apart(a, b);
}

/// What no figure depends on is not hashed: the name, and the paths of model
/// and projector.
pub proof fn lemma_paths_are_not_hashed(a: EstimatorInputs<'_>, b: EstimatorInputs<'_>)
    requires
        b == (EstimatorInputs { name: b.name, model: b.model, mmproj: b.mmproj, ..a }),
    ensures
        parts(a) == parts(b),
{
    assert(parts(a) =~= parts(b));
}

} // verus!
