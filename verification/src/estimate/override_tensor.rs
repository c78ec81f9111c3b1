//! Rules that pin tensors to devices.
//!
//! A rule is `<regex>=<device>`. Rules apply in order and the first that
//! matches a tensor wins. A matched tensor's bytes leave the accounting by
//! block and are charged to the rule's device.

use crate::config::merge::text_of;
use crate::estimate::arith;
use crate::estimate::device_bytes::DeviceBytes;
use crate::estimate::layers;
use crate::estimate::types::{DeviceSlot, Estimate, ExpertTensor, NonLayer};
use crate::gguf::{GgufSummary, GgufTensor};
use crate::text;
use crate::text_map::TextMap;
use vstd::arithmetic::overflow::CheckedU64;
use vstd::prelude::*;
use vstd::string::*;

verus! {

/// The complaint of `regex::Regex::new` about a pattern, where it has one.
pub uninterp spec fn regex_complaint(pattern: Seq<char>) -> Option<Seq<char>>;

/// Whether `regex::Regex::is_match` finds a match of a pattern anywhere in a
/// text.
pub uninterp spec fn regex_finds(pattern: Seq<char>, text: Seq<char>) -> bool;

/// Calls `regex::Regex::new` on `pattern`: the error's text where the
/// pattern is not a regular expression within the crate's limits, nothing
/// where it is. Claims only that the outcome is a function of the pattern.
#[verifier::external_body]
fn compile(pattern: &str) -> (r: Option<String>)
    ensures
        match r {
            Some(e) => regex_complaint(pattern@) == Some(e@),
            None => regex_complaint(pattern@) is None,
        },
{
    match regex::Regex::new(pattern) {
        Ok(_) => None,
        Err(e) => Some(e.to_string()),
    }
}

/// Calls `regex::Regex::is_match` with the expression `pattern` on `text`.
/// Claims only that the answer is a function of the two; the pattern has to
/// be one that compiles.
#[verifier::external_body]
fn is_match(pattern: &str, text: &str) -> (r: bool)
    requires
        regex_complaint(pattern@) is None,
    ensures
        r == regex_finds(pattern@, text@),
{
    regex::Regex::new(pattern).expect("a pattern that compiles").is_match(text)
}

/// A rule whose pattern compiles and whose device is known.
#[derive(Debug)]
pub struct OverrideRule {
    pattern: String,
    target: DeviceSlot,
}

/// Why a rule was refused.
#[derive(Debug)]
pub struct ParseError(pub String);

impl OverrideRule {
    /// The pattern, left of the last `=`.
    pub closed spec fn regex(&self) -> Seq<char> {
        self.pattern@
    }

    /// The device, right of the last `=`.
    pub closed spec fn device(&self) -> DeviceSlot {
        self.target
    }

    #[verifier::type_invariant]
    spec fn compiles(self) -> bool {
        regex_complaint(self.pattern@) is None
    }

    /// The device the rule pins to.
    pub fn target(&self) -> (r: DeviceSlot)
        ensures
            r == self.device(),
    {
        self.target
    }

    /// Whether the rule matches a tensor.
    pub fn matches(&self, name: &str) -> (r: bool)
        ensures
            r == regex_finds(self.regex(), name@),
    {
        proof {
            use_type_invariant(self);
        }
        is_match(self.pattern.as_str(), name)
    }
}

/// The device a rule names: `CPU`, or `GPU` and a number, in any case.
pub open spec fn device_named(name: Seq<char>) -> Option<DeviceSlot> {
    if text::alike(name, "CPU"@) {
        Some(DeviceSlot::Cpu)
    } else if name.len() >= 3 && text::alike(name.take(3), "GPU"@) {
        match text::number(name.skip(3)) {
            Some(n) => Some(DeviceSlot::Gpu(n)),
            None => None,
        }
    } else {
        None
    }
}

fn parse_device(name: &str) -> (r: Option<DeviceSlot>)
    ensures
        r == device_named(name@),
{
    if text::same_ignoring_case(name, "CPU") {
        return Some(DeviceSlot::Cpu);
    }
    let n: usize = name.unicode_len();
    if n >= 3 {
        let head = name.substring_char(0, 3);
        let tail = name.substring_char(3, n);
        proof {
            assert(head@ =~= name@.take(3));
            assert(tail@ =~= name@.skip(3));
        }
        if text::same_ignoring_case(head, "GPU") {
            return match text::parse_u32(tail) {
                Some(id) => Some(DeviceSlot::Gpu(id)),
                None => None,
            };
        }
    }
    None
}

/// Why a rule as written is refused, where `complaint` is what is wrong with
/// its pattern.
pub open spec fn fault_given(rule: Seq<char>, complaint: Option<Seq<char>>) -> Option<Seq<char>> {
    match text::rsplit_once_at(rule, '=') {
        None => Some("missing '=' in rule `"@ + rule + "`"@),
        Some(parts) => match complaint {
            Some(e) => Some("regex `"@ + parts.0 + "`: "@ + e),
            None => match device_named(text::trimmed(parts.1)) {
                Some(_) => None,
                None => Some("unknown device `"@ + parts.1 + "` in rule `"@ + rule + "`"@),
            },
        },
    }
}

/// The device of a rule, right of its last `=`.
pub open spec fn rule_device(rule: Seq<char>) -> Option<DeviceSlot> {
    match text::rsplit_once_at(rule, '=') {
        None => None,
        Some(parts) => device_named(text::trimmed(parts.1)),
    }
}

/// What is wrong with the pattern of a rule, left of its last `=`.
pub open spec fn pattern_complaint(rule: Seq<char>) -> Option<Seq<char>> {
    match text::rsplit_once_at(rule, '=') {
        None => None,
        Some(parts) => regex_complaint(parts.0),
    }
}

/// Why a rule as written is refused, if it is.
pub open spec fn rule_fault(rule: Seq<char>) -> Option<Seq<char>> {
    fault_given(rule, pattern_complaint(rule))
}

/// Whether a parsed rule says what the written one does.
pub open spec fn rule_agrees(rule: OverrideRule, written: Seq<char>) -> bool {
    &&& text::rsplit_once_at(written, '=') matches Some(parts) && rule.regex() == parts.0
    &&& rule_device(written) == Some(rule.device())
}

/// The device of a rule as written, where `complaint` is what is wrong with
/// its pattern; or why the rule is refused.
pub fn check_rule(written: &str, complaint: Option<String>) -> (r: Result<DeviceSlot, ParseError>)
    ensures
        match r {
            Ok(slot) => fault_given(written@, text_of(complaint)) is None && rule_device(written@)
                == Some(slot),
            Err(e) => fault_given(written@, text_of(complaint)) == Some(e.0@),
        },
{
    match text::rsplit_once(written, '=') {
        None => Err(
            ParseError("missing '=' in rule `".to_owned().concat(written).concat("`")),
        ),
        Some((pattern, device)) => match complaint {
            Some(e) => Err(
                ParseError("regex `".to_owned().concat(pattern).concat("`: ").concat(e.as_str())),
            ),
            None => match parse_device(text::trim(device)) {
                Some(slot) => Ok(slot),
                None => Err(
                    ParseError(
                        "unknown device `".to_owned().concat(device).concat("` in rule `").concat(
                            written,
                        ).concat("`"),
                    ),
                ),
            },
        },
    }
}

fn parse_rule(written: &str) -> (r: Result<OverrideRule, ParseError>)
    ensures
        match r {
            Ok(rule) => rule_fault(written@) is None && rule_agrees(rule, written@),
            Err(e) => rule_fault(written@) == Some(e.0@),
        },
{
    let parts: Option<(&str, &str)> = text::rsplit_once(written, '=');
    let complaint: Option<String> = match parts {
        Some((pattern, _)) => compile(pattern),
        None => None,
    };
    match check_rule(written, complaint) {
        Ok(target) => {
            let pattern: String = match parts {
                Some((pattern, _)) => pattern.to_owned(),
                None => String::new(),
            };
            Ok(OverrideRule { pattern, target })
        },
        Err(e) => Err(e),
    }
}

/// Parses rules as written. The first faulty one is reported.
pub fn parse_rules(rules: &[String]) -> (r: Result<Vec<OverrideRule>, ParseError>)
    ensures
        match r {
            Ok(out) => {
                &&& out@.len() == rules@.len()
                &&& forall|i: int|
                    0 <= i < rules@.len() ==> rule_fault((#[trigger] rules@[i])@) is None
                        && rule_agrees(out@[i], rules@[i]@)
            },
            Err(e) => exists|i: int|
                0 <= i < rules@.len() && rule_fault((#[trigger] rules@[i])@) == Some(e.0@) && forall|
                    j: int,
                |
                    0 <= j < i ==> rule_fault((#[trigger] rules@[j])@) is None,
        },
{
    let mut out: Vec<OverrideRule> = Vec::new();
    for i in 0..rules.len()
        invariant
            out@.len() == i,
            forall|j: int|
                0 <= j < i ==> rule_fault((#[trigger] rules@[j])@) is None && rule_agrees(
                    out@[j],
                    rules@[j]@,
                ),
    {
        match parse_rule(rules[i].as_str()) {
            Ok(rule) => out.push(rule),
            Err(e) => {
                assert(rule_fault(rules@[i as int]@) == Some(e.0@));
                return Err(e);
            },
        }
    }
    Ok(out)
}

/// The device of the first rule from `i` on that matches a tensor.
pub open spec fn first_match(rules: Seq<OverrideRule>, i: int, name: Seq<char>) -> Option<DeviceSlot>
    decreases rules.len() - i,
{
    if i >= rules.len() {
        None
    } else if regex_finds(rules[i].regex(), name) {
        Some(rules[i].device())
    } else {
        first_match(rules, i + 1, name)
    }
}

/// The device of the first rule from `i` on of which `matched` holds.
pub open spec fn first_of(rules: Seq<OverrideRule>, matched: Seq<bool>, i: int) -> Option<DeviceSlot>
    decreases rules.len() - i,
{
    if i >= rules.len() {
        None
    } else if matched[i] {
        Some(rules[i].device())
    } else {
        first_of(rules, matched, i + 1)
    }
}

/// The device of the first rule of which `matched` holds.
pub fn first_matched(rules: &[OverrideRule], matched: &[bool]) -> (r: Option<DeviceSlot>)
    requires
        matched@.len() == rules@.len(),
    ensures
        r == first_of(rules@, matched@, 0),
{
    for i in 0..rules.len()
        invariant
            matched@.len() == rules@.len(),
            first_of(rules@, matched@, 0) == first_of(rules@, matched@, i as int),
    {
        if matched[i] {
            return Some(rules[i].target());
        }
    }
    None
}

proof fn lemma_first_of(rules: Seq<OverrideRule>, matched: Seq<bool>, i: int, name: Seq<char>)
    requires
        0 <= i,
        matched.len() == rules.len(),
        forall|j: int|
            0 <= j < rules.len() ==> #[trigger] matched[j] == regex_finds(rules[j].regex(), name),
    ensures
        first_of(rules, matched, i) == first_match(rules, i, name),
    decreases rules.len() - i,
{
    if i < rules.len() {
        assert(matched[i] == regex_finds(rules[i].regex(), name));
        lemma_first_of(rules, matched, i + 1, name);
    }
}

fn find_target(rules: &[OverrideRule], name: &str) -> (r: Option<DeviceSlot>)
    ensures
        r == first_match(rules@, 0, name@),
{
    let mut matched: Vec<bool> = Vec::new();
    for i in 0..rules.len()
        invariant
            matched@.len() == i,
            forall|j: int|
                0 <= j < i ==> #[trigger] matched@[j] == regex_finds(rules@[j].regex(), name@),
    {
        matched.push(rules[i].matches(name));
    }
    proof {
        lemma_first_of(rules@, matched@, 0, name@);
    }
    first_matched(rules, matched.as_slice())
}

/// Whether `f`, which names the device a tensor is sent to, has one for it.
pub open spec fn is_pinned(f: spec_fn(Seq<char>) -> Option<DeviceSlot>, t: (Seq<char>, GgufTensor)) -> bool {
    f(t.1.name@) is Some
}

/// Selects the tensors that are sent to some device.
pub open spec fn pinned(f: spec_fn(Seq<char>) -> Option<DeviceSlot>) -> spec_fn((Seq<char>, GgufTensor)) -> bool {
    |t: (Seq<char>, GgufTensor)| is_pinned(f, t)
}

/// Selects the tensors that are sent to `slot`.
pub open spec fn pinned_to(f: spec_fn(Seq<char>) -> Option<DeviceSlot>, slot: DeviceSlot) -> spec_fn(
    (Seq<char>, GgufTensor),
) -> bool {
    |t: (Seq<char>, GgufTensor)| f(t.1.name@) == Some(slot)
}

/// Selects the matched tensors of block `i`.
pub open spec fn pinned_in_block(f: spec_fn(Seq<char>) -> Option<DeviceSlot>, i: int) -> spec_fn(
    (Seq<char>, GgufTensor),
) -> bool {
    |t: (Seq<char>, GgufTensor)|
        is_pinned(f, t) && layers::block_index(t.1.name@) == Some(i as u32)
}

/// Selects the matched tensors outside the blocks that are accounted under
/// `kind`, which is where they are taken out.
pub open spec fn pinned_outside(f: spec_fn(Seq<char>) -> Option<DeviceSlot>, kind: int) -> spec_fn(
    (Seq<char>, GgufTensor),
) -> bool {
    |t: (Seq<char>, GgufTensor)|
        is_pinned(f, t) && layers::block_index(t.1.name@) is None && layers::outside_kind(
            t.1.name@,
        ) == kind
}

/// Whether some matched tensor is the expert `e`.
pub open spec fn expert_pinned(
    tensors: Seq<(Seq<char>, GgufTensor)>,
    f: spec_fn(Seq<char>) -> Option<DeviceSlot>,
    e: ExpertTensor,
) -> bool {
    exists|i: int|
        0 <= i < tensors.len() && is_pinned(f, #[trigger] tensors[i]) && layers::block_index(
            tensors[i].1.name@,
        ) == Some(e.layer) && layers::expert_of(tensors[i].1.name@) == Some(e.kind)
}

/// The experts of a list that no matched tensor is.
pub open spec fn experts_left(
    list: Seq<ExpertTensor>,
    tensors: Seq<(Seq<char>, GgufTensor)>,
    f: spec_fn(Seq<char>) -> Option<DeviceSlot>,
) -> Seq<ExpertTensor>
    decreases list.len(),
{
    if list.len() == 0 {
        Seq::empty()
    } else {
        let rest = experts_left(list.drop_last(), tensors, f);
        if expert_pinned(tensors, f, list.last()) {
            rest
        } else {
            rest.push(list.last())
        }
    }
}

/// The experts of a list other than projection `kind` of block `layer`.
pub open spec fn without(list: Seq<ExpertTensor>, e: ExpertTensor) -> Seq<ExpertTensor>
    decreases list.len(),
{
    if list.len() == 0 {
        Seq::empty()
    } else if list.last().layer == e.layer && list.last().kind == e.kind {
        without(list.drop_last(), e)
    } else {
        without(list.drop_last(), e).push(list.last())
    }
}

/// Bytes of a model's accounted weights.
pub open spec fn accounted(sizes: Seq<u64>, outside: NonLayer) -> int {
    layers::total(sizes) + outside.output_head_bytes + outside.token_embd_bytes
        + outside.other_bytes
}

/// Whether the weights of `e` can be counted.
pub open spec fn countable(e: Estimate) -> bool {
    e.per_layer_bytes matches Some(sizes) ==> accounted(sizes@, e.non_layer) <= u64::MAX
}

/// Whether the weights of an estimate can be counted.
pub fn is_countable(e: &Estimate) -> (r: bool)
    ensures
        r == countable(*e),
{
    match &e.per_layer_bytes {
        Some(sizes) => {
            let mut total: CheckedU64 = CheckedU64::new(0);
            for i in 0..sizes.len()
                invariant
                    total@ == layers::total(sizes@.take(i as int)),
            {
                proof {
                    assert(sizes@.take(i + 1).drop_last() =~= sizes@.take(i as int));
                }
                total = total.add_value(sizes[i]);
            }
            assert(sizes@.take(sizes@.len() as int) =~= sizes@);
            !total.add_value(e.non_layer.output_head_bytes).add_value(
                e.non_layer.token_embd_bytes,
            ).add_value(e.non_layer.other_bytes).is_overflowed()
        },
        None => true,
    }
}

/// Whether `after` charges every device with the tensors pinned to it.
pub open spec fn charged(
    after: DeviceBytes,
    tensors: Seq<(Seq<char>, GgufTensor)>,
    f: spec_fn(Seq<char>) -> Option<DeviceSlot>,
) -> bool {
    &&& forall|slot: DeviceSlot|
        #![trigger after.bytes_on(slot)]
        after.bytes_on(slot) == layers::sum_where(tensors, pinned_to(f, slot))
    &&& forall|slot: DeviceSlot|
        #![trigger after.holds(slot)]
        after.holds(slot) == exists|i: int|
            0 <= i < tensors.len() && f((#[trigger] tensors[i]).1.name@)
                == Some(slot)
    &&& after.sum() == layers::sum_where(tensors, pinned(f))
}

/// Whether `after` is `before` with the matched tensors of each block taken
/// out of it.
pub open spec fn blocks_reduced(
    after: Seq<u64>,
    before: Seq<u64>,
    tensors: Seq<(Seq<char>, GgufTensor)>,
    f: spec_fn(Seq<char>) -> Option<DeviceSlot>,
) -> bool {
    &&& after.len() == before.len()
    &&& forall|i: int|
        0 <= i < before.len() && i <= u32::MAX ==> #[trigger] after[i] == arith::reduced(
            before[i] as int,
            layers::sum_where(tensors, pinned_in_block(f, i)),
        )
    &&& forall|i: int| 0 <= i < before.len() && i > u32::MAX ==> #[trigger] after[i] == before[i]
}

/// Whether `after` is `before` with the matched tensors outside the blocks
/// taken out of it.
pub open spec fn outside_reduced(
    after: NonLayer,
    before: NonLayer,
    tensors: Seq<(Seq<char>, GgufTensor)>,
    f: spec_fn(Seq<char>) -> Option<DeviceSlot>,
) -> bool {
    &&& after.output_head_bytes == arith::reduced(
        before.output_head_bytes as int,
        layers::sum_where(tensors, pinned_outside(f, 0)),
    )
    &&& after.token_embd_bytes == arith::reduced(
        before.token_embd_bytes as int,
        layers::sum_where(tensors, pinned_outside(f, 1)),
    )
    &&& after.other_bytes == arith::reduced(
        before.other_bytes as int,
        layers::sum_where(tensors, pinned_outside(f, 2)),
    )
    &&& after.tied_head_bytes == before.tied_head_bytes
}

/// Whether two estimates agree in everything that rules do not touch.
pub open spec fn untouched(a: Estimate, b: Estimate) -> bool {
    &&& a.kv_per_token == b.kv_per_token
    &&& a.compute_buffer_mb == b.compute_buffer_mb
    &&& a.output_buffer_bytes == b.output_buffer_bytes
    &&& a.mtp_head_expert_layers == b.mtp_head_expert_layers
    &&& a.tensor_split_replicated_bytes == b.tensor_split_replicated_bytes
    &&& a.mtp_bytes == b.mtp_bytes
    &&& a.mtp_weight_bytes == b.mtp_weight_bytes
    &&& a.mmproj_graph_bytes == b.mmproj_graph_bytes
    &&& a.host_overhead_bytes == b.host_overhead_bytes
    &&& a.host_cache_bytes == b.host_cache_bytes
    &&& a.host_slot_bytes == b.host_slot_bytes
    &&& a.host_checkpoint_bytes == b.host_checkpoint_bytes
    &&& a.attention_layers == b.attention_layers
    &&& a.expert_layers == b.expert_layers
    &&& a.context == b.context
    &&& a.architecture == b.architecture
}

/// Whether `after` is `before` with every tensor that `f` has a device for
/// moved there.
pub open spec fn applied(
    after: Estimate,
    before: Estimate,
    tensors: Seq<(Seq<char>, GgufTensor)>,
    f: spec_fn(Seq<char>) -> Option<DeviceSlot>,
) -> bool {
    &&& untouched(after, before)
    &&& charged(after.override_tensor_bytes, tensors, f)
    &&& outside_reduced(after.non_layer, before.non_layer, tensors, f)
    &&& match (after.expert_tensors, before.expert_tensors) {
        (Some(a), Some(b)) => a@ == experts_left(b@, tensors, f),
        (None, None) => true,
        _ => false,
    }
    &&& match (after.per_layer_bytes, before.per_layer_bytes) {
        (Some(a), Some(b)) => blocks_reduced(a@, b@, tensors, f) && after.weights_bytes
            == accounted(a@, after.non_layer),
        (None, None) => after.weights_bytes == arith::reduced(
            before.weights_bytes as int,
            layers::sum_where(tensors, pinned(f)),
        ),
        _ => false,
    }
}

proof fn lemma_without_step(
    list: Seq<ExpertTensor>,
    tensors: Seq<(Seq<char>, GgufTensor)>,
    f: spec_fn(Seq<char>) -> Option<DeviceSlot>,
    e: ExpertTensor,
)
    requires
        tensors.len() > 0,
        is_pinned(f, tensors.last()),
        layers::block_index(tensors.last().1.name@) == Some(e.layer),
        layers::expert_of(tensors.last().1.name@) == Some(e.kind),
    ensures
        experts_left(list, tensors, f) == without(
            experts_left(list, tensors.drop_last(), f),
            e,
        ),
    decreases list.len(),
{
    if list.len() > 0 {
        let rest = list.drop_last();
        let x = list.last();
        lemma_without_step(rest, tensors, f, e);
        lemma_expert_pinned_step(tensors, f, x);
        let before = experts_left(rest, tensors.drop_last(), f);
        assert(before.push(x).drop_last() =~= before);
    }
}

proof fn lemma_expert_pinned_step(
    tensors: Seq<(Seq<char>, GgufTensor)>,
    f: spec_fn(Seq<char>) -> Option<DeviceSlot>,
    e: ExpertTensor,
)
    requires
        tensors.len() > 0,
    ensures
        expert_pinned(tensors, f, e) == (expert_pinned(tensors.drop_last(), f, e) || (
        is_pinned(f, tensors.last()) && layers::block_index(tensors.last().1.name@) == Some(
            e.layer,
        ) && layers::expert_of(tensors.last().1.name@) == Some(e.kind))),
{
    let rest = tensors.drop_last();
    if expert_pinned(rest, f, e) {
        let i = choose|i: int|
            0 <= i < rest.len() && is_pinned(f, #[trigger] rest[i]) && layers::block_index(
                rest[i].1.name@,
            ) == Some(e.layer) && layers::expert_of(rest[i].1.name@) == Some(e.kind);
        assert(is_pinned(f, tensors[i]));
    }
    if expert_pinned(tensors, f, e) {
        let i = choose|i: int|
            0 <= i < tensors.len() && is_pinned(f, #[trigger] tensors[i])
                && layers::block_index(tensors[i].1.name@) == Some(e.layer) && layers::expert_of(
                tensors[i].1.name@,
            ) == Some(e.kind);
        if i < rest.len() {
            assert(is_pinned(f, rest[i]));
        }
    }
    if is_pinned(f, tensors.last()) {
        assert(is_pinned(f, tensors[tensors.len() - 1]));
    }
}

proof fn lemma_nothing_left_out(
    list: Seq<ExpertTensor>,
    tensors: Seq<(Seq<char>, GgufTensor)>,
    f: spec_fn(Seq<char>) -> Option<DeviceSlot>,
)
    requires
        tensors.len() > 0,
        !is_pinned(f, tensors.last()) || layers::block_index(tensors.last().1.name@) is None
            || layers::expert_of(tensors.last().1.name@) is None,
    ensures
        experts_left(list, tensors, f) == experts_left(list, tensors.drop_last(), f),
    decreases list.len(),
{
    if list.len() > 0 {
        lemma_nothing_left_out(list.drop_last(), tensors, f);
        lemma_expert_pinned_step(tensors, f, list.last());
    }
}

proof fn lemma_all_left(list: Seq<ExpertTensor>, f: spec_fn(Seq<char>) -> Option<DeviceSlot>)
    ensures
        experts_left(list, Seq::empty(), f) == list,
    decreases list.len(),
{
    if list.len() > 0 {
        lemma_all_left(list.drop_last(), f);
        assert(list.drop_last().push(list.last()) =~= list);
    }
}

proof fn lemma_reduced_total(after: Seq<u64>, before: Seq<u64>)
    requires
        after.len() == before.len(),
        forall|i: int| 0 <= i < after.len() ==> after[i] <= #[trigger] before[i],
    ensures
        0 <= layers::total(after) <= layers::total(before),
    decreases after.len(),
{
    if after.len() > 0 {
        assert forall|i: int| 0 <= i < after.len() - 1 implies after.drop_last()[i]
            <= #[trigger] before.drop_last()[i] by {
            assert(after[i] <= before[i]);
        }
        lemma_reduced_total(after.drop_last(), before.drop_last());
        assert(after[after.len() - 1] <= before[before.len() - 1]);
    }
}

fn remove_expert(list: &Vec<ExpertTensor>, e: ExpertTensor) -> (r: Vec<ExpertTensor>)
    ensures
        r@ == without(list@, e),
{
    let mut r: Vec<ExpertTensor> = Vec::new();
    assert(list@.take(0) =~= Seq::empty());
    for i in 0..list.len()
        invariant
            r@ == without(list@.take(i as int), e),
    {
        proof {
            assert(list@.take(i + 1).drop_last() =~= list@.take(i as int));
            assert(list@.take(i + 1).last() == list@[i as int]);
        }
        let x: ExpertTensor = list[i];
        if !(x.layer == e.layer && x.kind == e.kind) {
            r.push(x);
        }
    }
    assert(list@.take(list@.len() as int) =~= list@);
    r
}

fn target_named(targets: &TextMap<DeviceSlot>, name: &str) -> (r: Option<DeviceSlot>)
    ensures
        r == by_name(targets@)(name@),
{
    match targets.get(name) {
        Some(slot) => Some(*slot),
        None => None,
    }
}

/// The device that a table names for each tensor, by the tensor's name.
pub open spec fn by_name(targets: Map<Seq<char>, DeviceSlot>) -> spec_fn(Seq<char>) -> Option<
    DeviceSlot,
> {
    |name: Seq<char>|
        if targets.contains_key(name) {
            Some(targets[name])
        } else {
            None
        }
}

/// The device of the first rule that matches each tensor.
pub open spec fn by_rules(rules: Seq<OverrideRule>) -> spec_fn(Seq<char>) -> Option<DeviceSlot> {
    |name: Seq<char>| first_match(rules, 0, name)
}

/// Sends the tensors that `targets` names to the devices it names: they leave
/// the blocks, the tensors outside them and the list of experts, and are
/// charged to the devices. An estimate without blocks keeps its total less
/// what was sent away.
#[verifier::rlimit(60)]
pub fn apply_targets(estimate: &mut Estimate, summary: &GgufSummary, targets: &TextMap<DeviceSlot>)
    requires
        layers::sum_where(summary.tensors.pairs(), layers::every()) <= u64::MAX,
        countable(*old(estimate)),
    ensures
        applied(*final(estimate), *old(estimate), summary.tensors.pairs(), by_name(targets@)),
{
    let ghost f = by_name(targets@);
    let ghost tensors = summary.tensors.pairs();
    let ghost sizes0 = estimate.per_layer_bytes;
    let ghost experts0 = estimate.expert_tensors;
    let ghost outside0 = estimate.non_layer;
    let mut devices = DeviceBytes::new();
    let mut sizes: Option<Vec<u64>> = estimate.per_layer_bytes.take();
    let mut experts: Option<Vec<ExpertTensor>> = estimate.expert_tensors.take();
    let mut outside: NonLayer = estimate.non_layer;
    let n: usize = summary.tensors.len();
    proof {
        assert(tensors.take(0) =~= Seq::empty());
        if experts is Some {
            lemma_all_left(experts->0@, f);
        }
    }
    for k in 0..n
        invariant
            n == tensors.len(),
            f == by_name(targets@),
            tensors == summary.tensors.pairs(),
            layers::sum_where(tensors, layers::every()) <= u64::MAX,
            charged(devices, tensors.take(k as int), f),
            outside_reduced(outside, outside0, tensors.take(k as int), f),
            match (sizes, sizes0) {
                (Some(a), Some(b)) => blocks_reduced(a@, b@, tensors.take(k as int), f),
                (None, None) => true,
                _ => false,
            },
            match (experts, experts0) {
                (Some(a), Some(b)) => a@ == experts_left(b@, tensors.take(k as int), f),
                (None, None) => true,
                _ => false,
            },
    {
        let ghost part = tensors.take(k as int);
        let ghost next = tensors.take(k + 1);
        let ghost devices_before = devices;
        proof {
            assert(next.drop_last() =~= part);
            assert(next.last() == tensors[k as int]);
        }
        let tensor: &GgufTensor = summary.tensors.value_at(k);
        let name: &str = tensor.name.as_str();
        let bytes: u64 = tensor.byte_size;
        match target_named(targets, name) {
            None => {
                proof {
                    lemma_charged_skip(devices, next, f);
                    if experts0 is Some {
                        lemma_nothing_left_out(experts0->0@, next, f);
                    }
                }
            },
            Some(slot) => {
                proof {
                    layers::lemma_sum_bounded(tensors, k + 1, pinned_to(f, slot));
                }
                devices.charge(slot, bytes);
                proof {
                    lemma_charged_step(devices_before, devices, next, f, slot);
                }
                let index: Option<u32> = layers::layer_index(name);
                match index {
                    Some(idx) => {
                        if let Some(v) = &mut sizes {
                            if (idx as usize) < v.len() {
                                let was: u64 = v[idx as usize];
                                v[idx as usize] = was.saturating_sub(bytes);
                            }
                        }
                        let kind = layers::expert_kind(name);
                        if let Some(kind) = kind {
                            let gone = ExpertTensor { layer: idx, kind, bytes };
                            if let Some(list) = &experts {
                                proof {
                                    lemma_without_step(experts0->0@, next, f, gone);
                                }
                                experts = Some(remove_expert(list, gone));
                            }
                        } else {
                            proof {
                                if experts0 is Some {
                                    lemma_nothing_left_out(experts0->0@, next, f);
                                }
                            }
                        }
                    },
                    None => {
                        if text::same(name, "output.weight") {
                            outside.output_head_bytes = outside.output_head_bytes.saturating_sub(
                                bytes,
                            );
                        } else if text::same(name, "token_embd.weight") || text::same(
                            name,
                            "per_layer_token_embd.weight",
                        ) {
                            outside.token_embd_bytes = outside.token_embd_bytes.saturating_sub(
                                bytes,
                            );
                        } else {
                            outside.other_bytes = outside.other_bytes.saturating_sub(bytes);
                        }
                        proof {
                            if experts0 is Some {
                                lemma_nothing_left_out(experts0->0@, next, f);
                            }
                        }
                    },
                }
            },
        }
    }
    proof {
        assert(tensors.take(n as int) =~= tensors);
        layers::lemma_sum_narrower(tensors, pinned(f), layers::every());
        layers::lemma_sum_narrower(tensors, pinned_outside(f, 0), layers::every());
        layers::lemma_sum_narrower(tensors, pinned_outside(f, 1), layers::every());
        layers::lemma_sum_narrower(tensors, pinned_outside(f, 2), layers::every());
    }
    let moved: u64 = devices.total();
    match &sizes {
        Some(v) => {
            proof {
                assert forall|i: int| 0 <= i < v@.len() implies v@[i]
                    <= #[trigger] sizes0->0@[i] by {
                    layers::lemma_sum_narrower(
                        tensors,
                        pinned_in_block(f, i),
                        layers::every(),
                    );
                    assert(v@[i] <= sizes0->0@[i]);
                }
                lemma_reduced_total(v@, sizes0->0@);
            }
            estimate.weights_bytes = layers::sum(v) + outside.output_head_bytes
                + outside.token_embd_bytes + outside.other_bytes;
        },
        None => {
            estimate.weights_bytes = estimate.weights_bytes.saturating_sub(moved);
        },
    }
    estimate.per_layer_bytes = sizes;
    estimate.expert_tensors = experts;
    estimate.non_layer = outside;
    estimate.override_tensor_bytes = devices;
}

proof fn lemma_charged_skip(
    devices: DeviceBytes,
    next: Seq<(Seq<char>, GgufTensor)>,
    f: spec_fn(Seq<char>) -> Option<DeviceSlot>,
)
    requires
        next.len() > 0,
        charged(devices, next.drop_last(), f),
        !is_pinned(f, next.last()),
    ensures
        charged(devices, next, f),
{
    let part = next.drop_last();
    assert forall|slot: DeviceSlot| #![trigger devices.holds(slot)]
        devices.holds(slot) == exists|i: int|
            0 <= i < next.len() && f((#[trigger] next[i]).1.name@) == Some(
                slot,
            ) by {
        lemma_some_pinned_step(next, f, slot);
    }
}

proof fn lemma_some_pinned_step(
    next: Seq<(Seq<char>, GgufTensor)>,
    f: spec_fn(Seq<char>) -> Option<DeviceSlot>,
    slot: DeviceSlot,
)
    requires
        next.len() > 0,
    ensures
        (exists|i: int|
            0 <= i < next.len() && f((#[trigger] next[i]).1.name@) == Some(
                slot,
            )) == ((exists|i: int|
            0 <= i < next.drop_last().len() && f((#[trigger] next.drop_last()[i]).1.name@,
            ) == Some(slot)) || f(next.last().1.name@) == Some(slot)),
{
    let part = next.drop_last();
    if exists|i: int|
        0 <= i < next.len() && f((#[trigger] next[i]).1.name@) == Some(slot) {
        let i = choose|i: int|
            0 <= i < next.len() && f((#[trigger] next[i]).1.name@) == Some(
                slot,
            );
        if i < part.len() {
            assert(f(part[i].1.name@) == Some(slot));
        }
    }
    if exists|i: int|
        0 <= i < part.len() && f((#[trigger] part[i]).1.name@) == Some(slot) {
        let i = choose|i: int|
            0 <= i < part.len() && f((#[trigger] part[i]).1.name@) == Some(
                slot,
            );
        assert(f(next[i].1.name@) == Some(slot));
    }
    if f(next.last().1.name@) == Some(slot) {
        assert(f(next[next.len() - 1].1.name@) == Some(slot));
    }
}

proof fn lemma_charged_step(
    before: DeviceBytes,
    after: DeviceBytes,
    next: Seq<(Seq<char>, GgufTensor)>,
    f: spec_fn(Seq<char>) -> Option<DeviceSlot>,
    slot: DeviceSlot,
)
    requires
        next.len() > 0,
        charged(before, next.drop_last(), f),
        f(next.last().1.name@) == Some(slot),
        after.holds(slot),
        after.bytes_on(slot) == before.bytes_on(slot) + next.last().1.byte_size,
        forall|s: DeviceSlot|
            s != slot ==> after.holds(s) == before.holds(s) && after.bytes_on(s) == before.bytes_on(
                s,
            ),
        after.sum() == before.sum() + next.last().1.byte_size,
    ensures
        charged(after, next, f),
{
    assert forall|s: DeviceSlot| #![trigger after.bytes_on(s)]
        after.bytes_on(s) == layers::sum_where(next, pinned_to(f, s)) by {
        assert(before.bytes_on(s) == layers::sum_where(next.drop_last(), pinned_to(f, s)));
    }
    assert forall|s: DeviceSlot| #![trigger after.holds(s)]
        after.holds(s) == exists|i: int|
            0 <= i < next.len() && f((#[trigger] next[i]).1.name@) == Some(s) by {
        lemma_some_pinned_step(next, f, s);
        assert(before.holds(s) == exists|i: int|
            0 <= i < next.drop_last().len() && f((#[trigger] next.drop_last()[i]).1.name@,
            ) == Some(s));
    }
}

/// Whether two choices of devices agree on a model's tensors.
pub open spec fn agree_on(
    f: spec_fn(Seq<char>) -> Option<DeviceSlot>,
    g: spec_fn(Seq<char>) -> Option<DeviceSlot>,
    tensors: Seq<(Seq<char>, GgufTensor)>,
) -> bool {
    forall|i: int|
        0 <= i < tensors.len() ==> f((#[trigger] tensors[i]).1.name@) == g(tensors[i].1.name@)
}

proof fn lemma_same_sum(
    tensors: Seq<(Seq<char>, GgufTensor)>,
    a: spec_fn((Seq<char>, GgufTensor)) -> bool,
    b: spec_fn((Seq<char>, GgufTensor)) -> bool,
)
    requires
        forall|i: int| 0 <= i < tensors.len() ==> a(#[trigger] tensors[i]) == b(tensors[i]),
    ensures
        layers::sum_where(tensors, a) == layers::sum_where(tensors, b),
{
    lemma_part_of(tensors, a, b);
    lemma_part_of(tensors, b, a);
}

proof fn lemma_same_experts(
    list: Seq<ExpertTensor>,
    tensors: Seq<(Seq<char>, GgufTensor)>,
    f: spec_fn(Seq<char>) -> Option<DeviceSlot>,
    g: spec_fn(Seq<char>) -> Option<DeviceSlot>,
)
    requires
        agree_on(f, g, tensors),
    ensures
        experts_left(list, tensors, f) == experts_left(list, tensors, g),
    decreases list.len(),
{
    if list.len() > 0 {
        lemma_same_experts(list.drop_last(), tensors, f, g);
        let e = list.last();
        if expert_pinned(tensors, f, e) {
            let i = choose|i: int|
                0 <= i < tensors.len() && is_pinned(f, #[trigger] tensors[i])
                    && layers::block_index(tensors[i].1.name@) == Some(e.layer)
                    && layers::expert_of(tensors[i].1.name@) == Some(e.kind);
            assert(is_pinned(g, tensors[i]));
        }
        if expert_pinned(tensors, g, e) {
            let i = choose|i: int|
                0 <= i < tensors.len() && is_pinned(g, #[trigger] tensors[i])
                    && layers::block_index(tensors[i].1.name@) == Some(e.layer)
                    && layers::expert_of(tensors[i].1.name@) == Some(e.kind);
            assert(is_pinned(f, tensors[i]));
        }
    }
}

/// What is applied depends on the devices of the model's own tensors alone.
proof fn lemma_same_applied(
    after: Estimate,
    before: Estimate,
    tensors: Seq<(Seq<char>, GgufTensor)>,
    f: spec_fn(Seq<char>) -> Option<DeviceSlot>,
    g: spec_fn(Seq<char>) -> Option<DeviceSlot>,
)
    requires
        agree_on(f, g, tensors),
        applied(after, before, tensors, f),
    ensures
        applied(after, before, tensors, g),
{
    let devices = after.override_tensor_bytes;
    assert forall|slot: DeviceSlot| #![trigger devices.bytes_on(slot)]
        devices.bytes_on(slot) == layers::sum_where(tensors, pinned_to(g, slot)) by {
        lemma_same_sum(tensors, pinned_to(f, slot), pinned_to(g, slot));
    }
    assert forall|slot: DeviceSlot| #![trigger devices.holds(slot)]
        devices.holds(slot) == exists|i: int|
            0 <= i < tensors.len() && g((#[trigger] tensors[i]).1.name@) == Some(slot) by {
        assert(devices.holds(slot) == exists|i: int|
            0 <= i < tensors.len() && f((#[trigger] tensors[i]).1.name@) == Some(slot));
    }
    lemma_same_sum(tensors, pinned(f), pinned(g));
    lemma_same_sum(tensors, pinned_outside(f, 0), pinned_outside(g, 0));
    lemma_same_sum(tensors, pinned_outside(f, 1), pinned_outside(g, 1));
    lemma_same_sum(tensors, pinned_outside(f, 2), pinned_outside(g, 2));
    if before.expert_tensors is Some {
        lemma_same_experts(before.expert_tensors->0@, tensors, f, g);
    }
    if before.per_layer_bytes is Some {
        let b = before.per_layer_bytes->0@;
        assert forall|i: int| 0 <= i < b.len() && i <= u32::MAX implies #[trigger] after.per_layer_bytes->0@[i]
            == arith::reduced(b[i] as int, layers::sum_where(tensors, pinned_in_block(g, i))) by {
            lemma_same_sum(tensors, pinned_in_block(f, i), pinned_in_block(g, i));
        }
    }
}

/// Applies rules to an estimate: what they match leaves the blocks, the
/// tensors outside them and the list of experts, and is charged to the
/// rules' devices. Without rules nothing changes.
pub fn apply(estimate: &mut Estimate, summary: &GgufSummary, rules: &[OverrideRule])
    requires
        layers::sum_where(summary.tensors.pairs(), layers::every()) <= u64::MAX,
        countable(*old(estimate)),
    ensures
        rules@.len() == 0 ==> *final(estimate) == *old(estimate),
        rules@.len() > 0 ==> applied(
            *final(estimate),
            *old(estimate),
            summary.tensors.pairs(),
            by_rules(rules@),
        ),
{
    if rules.len() == 0 {
        return;
    }
    let ghost tensors = summary.tensors.pairs();
    let ghost before = *estimate;
    let mut targets: TextMap<DeviceSlot> = TextMap::new();
    let n: usize = summary.tensors.len();
    for k in 0..n
        invariant
            n == tensors.len(),
            tensors == summary.tensors.pairs(),
            forall|name: Seq<char>| #[trigger]
                targets@.contains_key(name) ==> first_match(rules@, 0, name) == Some(targets@[name]),
            agree_on(by_name(targets@), by_rules(rules@), tensors.take(k as int)),
    {
        let name: &str = summary.tensors.value_at(k).name.as_str();
        let ghost known = targets@;
        if let Some(slot) = find_target(rules, name) {
            targets.insert(name.to_owned(), slot);
        }
        proof {
            let next = tensors.take(k + 1);
            assert forall|i: int| 0 <= i < next.len() implies by_name(targets@)(
                (#[trigger] next[i]).1.name@,
            ) == by_rules(rules@)(next[i].1.name@) by {
                if i < k {
                    let part = tensors.take(k as int);
                    assert(part[i] == next[i]);
                    assert(by_name(known)(part[i].1.name@) == by_rules(rules@)(part[i].1.name@));
                }
            }
        }
    }
    proof {
        assert(tensors.take(n as int) =~= tensors);
    }
    apply_targets(estimate, summary, &targets);
    proof {
        lemma_same_applied(*estimate, before, tensors, by_name(targets@), by_rules(rules@));
    }
}

/// Whether `fault` is that of the first faulty rule.
pub open spec fn first_fault(rules: Seq<String>, fault: Seq<char>) -> bool {
    exists|i: int|
        0 <= i < rules.len() && rule_fault((#[trigger] rules[i])@) == Some(fault) && forall|j: int|
            0 <= j < i ==> rule_fault((#[trigger] rules[j])@) is None
}

/// Whether parsed rules say what the written ones do, one for one.
pub open spec fn rules_agree(rules: Seq<OverrideRule>, written: Seq<String>) -> bool {
    &&& rules.len() == written.len()
    &&& forall|i: int|
        0 <= i < written.len() ==> rule_fault((#[trigger] written[i])@) is None && rule_agrees(
            rules[i],
            written[i]@,
        )
}

/// Whether `after` is `before` with the written rules applied, or `before`
/// where there are none.
pub open spec fn written_applied(
    after: Estimate,
    before: Estimate,
    tensors: Seq<(Seq<char>, GgufTensor)>,
    written: Seq<String>,
) -> bool {
    if written.len() == 0 {
        after == before
    } else {
        exists|rules: Seq<OverrideRule>|
            #[trigger] rules_agree(rules, written) && applied(after, before, tensors, by_rules(rules))
    }
}

/// Parses rules and applies them. Faulty rules change nothing: the first
/// fault is handed back, and the estimate stands as it was.
pub fn parse_and_apply(estimate: &mut Estimate, summary: &GgufSummary, rules: &[String]) -> (r:
    Option<ParseError>)
    requires
        layers::sum_where(summary.tensors.pairs(), layers::every()) <= u64::MAX,
        countable(*old(estimate)),
    ensures
        match r {
            Some(e) => first_fault(rules@, e.0@) && *final(estimate) == *old(estimate),
            None => written_applied(
                *final(estimate),
                *old(estimate),
                summary.tensors.pairs(),
                rules@,
            ),
        },
{
    match parse_rules(rules) {
        Ok(parsed) => {
            apply(estimate, summary, &parsed);
            proof {
                assert(rules_agree(parsed@, rules@));
            }
            None
        },
        Err(e) => Some(e),
    }
}

/// A rule behind others never changes where they send a tensor.
pub proof fn lemma_earlier_rule_wins(
    rules: Seq<OverrideRule>,
    more: Seq<OverrideRule>,
    i: int,
    name: Seq<char>,
)
    requires
        0 <= i,
        first_match(rules, i, name) is Some,
    ensures
        first_match(rules + more, i, name) == first_match(rules, i, name),
    decreases rules.len() - i,
{
    if i < rules.len() {
        assert((rules + more)[i] == rules[i]);
        if !regex_finds(rules[i].regex(), name) {
            lemma_earlier_rule_wins(rules, more, i + 1, name);
        }
    }
}

/// Matched bytes of the first `n` blocks.
spec fn pinned_blocks_sum(
    tensors: Seq<(Seq<char>, GgufTensor)>,
    f: spec_fn(Seq<char>) -> Option<DeviceSlot>,
    n: int,
) -> int
    decreases n,
{
    if n <= 0 {
        0
    } else {
        pinned_blocks_sum(tensors, f, n - 1) + layers::sum_where(
            tensors,
            pinned_in_block(f, n - 1),
        )
    }
}

proof fn lemma_pinned_blocks_step(
    tensors: Seq<(Seq<char>, GgufTensor)>,
    f: spec_fn(Seq<char>) -> Option<DeviceSlot>,
    n: int,
)
    requires
        tensors.len() > 0,
        0 <= n <= u32::MAX,
    ensures
        pinned_blocks_sum(tensors, f, n) == pinned_blocks_sum(tensors.drop_last(), f, n) + (
        if is_pinned(f, tensors.last()) {
            match layers::block_index(tensors.last().1.name@) {
                Some(i) => if i < n {
                    tensors.last().1.byte_size as int
                } else {
                    0
                },
                None => 0,
            }
        } else {
            0
        }),
    decreases n,
{
    if n > 0 {
        lemma_pinned_blocks_step(tensors, f, n - 1);
    }
}

proof fn lemma_pinned_blocks_empty(
    tensors: Seq<(Seq<char>, GgufTensor)>,
    f: spec_fn(Seq<char>) -> Option<DeviceSlot>,
    n: int,
)
    requires
        tensors.len() == 0,
    ensures
        pinned_blocks_sum(tensors, f, n) == 0,
    decreases n,
{
    if n > 0 {
        lemma_pinned_blocks_empty(tensors, f, n - 1);
    }
}

/// No tensor that a rule matches lies in a block beyond the `n`-th.
pub open spec fn pinned_within(
    tensors: Seq<(Seq<char>, GgufTensor)>,
    f: spec_fn(Seq<char>) -> Option<DeviceSlot>,
    n: int,
) -> bool {
    forall|i: int|
        0 <= i < tensors.len() && is_pinned(f, #[trigger] tensors[i]) ==> match layers::block_index(
            tensors[i].1.name@,
        ) {
            Some(b) => b < n,
            None => true,
        }
}

proof fn lemma_pinned_partition(
    tensors: Seq<(Seq<char>, GgufTensor)>,
    f: spec_fn(Seq<char>) -> Option<DeviceSlot>,
    n: int,
)
    requires
        0 <= n <= u32::MAX,
        pinned_within(tensors, f, n),
    ensures
        pinned_blocks_sum(tensors, f, n) + layers::sum_where(tensors, pinned_outside(f, 0))
            + layers::sum_where(tensors, pinned_outside(f, 1)) + layers::sum_where(
            tensors,
            pinned_outside(f, 2),
        ) == layers::sum_where(tensors, pinned(f)),
    decreases tensors.len(),
{
    if tensors.len() == 0 {
        lemma_pinned_blocks_empty(tensors, f, n);
    } else {
        let rest = tensors.drop_last();
        assert forall|i: int| 0 <= i < rest.len() && is_pinned(
            f,
            #[trigger] rest[i],
        ) implies match layers::block_index(rest[i].1.name@) {
            Some(b) => b < n,
            None => true,
        } by {
            assert(is_pinned(f, tensors[i]));
        }
        lemma_pinned_partition(rest, f, n);
        lemma_pinned_blocks_step(tensors, f, n);
        assert(tensors.last() == tensors[tensors.len() - 1]);
    }
}

/// Whether each tensor stands under its own name.
pub open spec fn named_alike(tensors: Seq<(Seq<char>, GgufTensor)>) -> bool {
    forall|i: int| 0 <= i < tensors.len() ==> (#[trigger] tensors[i]).1.name@ == tensors[i].0
}

proof fn lemma_part_of(
    tensors: Seq<(Seq<char>, GgufTensor)>,
    narrow: spec_fn((Seq<char>, GgufTensor)) -> bool,
    wide: spec_fn((Seq<char>, GgufTensor)) -> bool,
)
    requires
        forall|i: int|
            0 <= i < tensors.len() && narrow(#[trigger] tensors[i]) ==> wide(tensors[i]),
    ensures
        0 <= layers::sum_where(tensors, narrow) <= layers::sum_where(tensors, wide),
    decreases tensors.len(),
{
    if tensors.len() > 0 {
        let rest = tensors.drop_last();
        assert forall|i: int| 0 <= i < rest.len() && narrow(#[trigger] rest[i]) implies wide(
            rest[i],
        ) by {
            assert(narrow(tensors[i]));
        }
        lemma_part_of(rest, narrow, wide);
        assert(tensors.last() == tensors[tensors.len() - 1]);
    }
}

proof fn lemma_blocks_conserved(
    after: Seq<u64>,
    before: Seq<u64>,
    tensors: Seq<(Seq<char>, GgufTensor)>,
    f: spec_fn(Seq<char>) -> Option<DeviceSlot>,
    k: int,
)
    requires
        0 <= k <= before.len() <= u32::MAX,
        named_alike(tensors),
        layers::sizes_blocks(before, tensors, before.len() as int),
        blocks_reduced(after, before, tensors, f),
    ensures
        layers::total(after.take(k)) + pinned_blocks_sum(tensors, f, k) == layers::total(
            before.take(k),
        ),
    decreases k,
{
    if k > 0 {
        lemma_blocks_conserved(after, before, tensors, f, k - 1);
        assert(after.take(k).drop_last() =~= after.take(k - 1));
        assert(before.take(k).drop_last() =~= before.take(k - 1));
        assert(after.take(k).last() == after[k - 1]);
        assert(before.take(k).last() == before[k - 1]);
        assert forall|i: int| 0 <= i < tensors.len() && pinned_in_block(f, k - 1)(
            #[trigger] tensors[i],
        ) implies layers::in_block(k - 1)(tensors[i]) by {
            assert(tensors[i].1.name@ == tensors[i].0);
        }
        lemma_part_of(tensors, pinned_in_block(f, k - 1), layers::in_block(k - 1));
    }
}

/// Rules move bytes and lose none: what is left of the weights and what the
/// devices are charged add up to the weights before.
///
/// The tensors have to stand under their own names, and a rule that matches
/// a tensor of a block beyond the last charges bytes that were never counted.
pub proof fn lemma_overrides_conserve_weights(
    after: Estimate,
    before: Estimate,
    summary: GgufSummary,
    rules: Seq<OverrideRule>,
)
    requires
        crate::estimate::family::weighs(before, summary),
        applied(after, before, summary.tensors.pairs(), by_rules(rules)),
        named_alike(summary.tensors.pairs()),
        pinned_within(summary.tensors.pairs(), by_rules(rules), summary.blocks()),
    ensures
        after.weights_bytes + after.override_tensor_bytes.sum() == before.weights_bytes,
{
    let f = by_rules(rules);
    let tensors = summary.tensors.pairs();
    let n = summary.blocks();
    let a = after.per_layer_bytes->0@;
    let b = before.per_layer_bytes->0@;
    lemma_blocks_conserved(a, b, tensors, f, n);
    assert(a.take(n) =~= a);
    assert(b.take(n) =~= b);
    layers::lemma_sizes_total(b, tensors, n);
    layers::lemma_weights_partition(tensors, n);
    lemma_pinned_partition(tensors, f, n);
    assert forall|i: int| 0 <= i < tensors.len() && pinned_outside(f, 0)(
        #[trigger] tensors[i],
    ) implies layers::outside(0)(tensors[i]) by {
        assert(tensors[i].1.name@ == tensors[i].0);
    }
    assert forall|i: int| 0 <= i < tensors.len() && pinned_outside(f, 1)(
        #[trigger] tensors[i],
    ) implies layers::outside(1)(tensors[i]) by {
        assert(tensors[i].1.name@ == tensors[i].0);
    }
    assert forall|i: int| 0 <= i < tensors.len() && pinned_outside(f, 2)(
        #[trigger] tensors[i],
    ) implies layers::outside(2)(tensors[i]) by {
        assert(tensors[i].1.name@ == tensors[i].0);
    }
    lemma_part_of(tensors, pinned_outside(f, 0), layers::outside(0));
    lemma_part_of(tensors, pinned_outside(f, 1), layers::outside(1));
    lemma_part_of(tensors, pinned_outside(f, 2), layers::outside(2));
}

/// A rule is read at its last `=`: the pattern stands before it as it is,
/// and the device behind it, `CPU` or `GPU` and a number, in any case and
/// with white space around it. A rule without `=`, with a pattern that does
/// not compile or with another device is refused.
pub proof fn lemma_rule_read(pattern: Seq<char>, device: Seq<char>, rule: OverrideRule, n: u32)
    requires
        !device.contains('='),
    ensures
        ({
            let written = pattern.push('=') + device;
            &&& rule_agrees(rule, written) ==> rule.regex() == pattern && Some(rule.device())
                == rule_device(written)
            &&& text::alike(text::trimmed(device), "cpu"@) ==> rule_device(written) == Some(
                DeviceSlot::Cpu,
            )
            &&& text::trimmed(device) == "GPU"@ + text::digits(n as nat) ==> rule_device(written)
                == Some(DeviceSlot::Gpu(n))
            &&& rule_fault(written) is None <==> regex_complaint(pattern) is None && rule_device(
                written,
            ) is Some
            &&& rule_fault(device) is Some
        }),
{
    text::lemma_parts_at_last(pattern, device, '=');
    let d = text::trimmed(device);
    reveal_strlit("CPU");
    reveal_strlit("cpu");
    reveal_strlit("GPU");
    if text::alike(d, "cpu"@) {
        assert forall|i: int| 0 <= i < d.len() implies text::lower(#[trigger] d[i]) == text::lower(
            "CPU"@[i],
        ) by {
            assert(text::lower(d[i]) == text::lower("cpu"@[i]));
            assert(text::lower("CPU"@[i]) == text::lower("cpu"@[i])) by {
                assert(text::lower('C') == 'c' && text::lower('P') == 'p' && text::lower('U')
                    == 'u');
            }
        }
    }
    if d == "GPU"@ + text::digits(n as nat) {
        text::lemma_digits_read(n as nat);
        text::lemma_number_read(n, d);
        assert(d.take(3) =~= "GPU"@);
        assert(d.skip(3) =~= text::digits(n as nat));
        text::lemma_alike("GPU"@, "GPU"@);
        if text::alike(d, "CPU"@) {
            assert(d.len() > 3);
        }
    }
}

/// Rules that are applied send a tensor to the device of the first rule
/// whose pattern finds it, and leave one that none finds.
pub proof fn lemma_first_rule_decides(rules: Seq<OverrideRule>, name: Seq<char>, k: int)
    ensures
        0 <= k < rules.len() && regex_finds(rules[k].regex(), name) && (forall|j: int|
            0 <= j < k ==> !regex_finds((#[trigger] rules[j]).regex(), name)) ==> by_rules(rules)(
            name,
        ) == Some(rules[k].device()),
        (forall|j: int| 0 <= j < rules.len() ==> !regex_finds((#[trigger] rules[j]).regex(), name))
            ==> by_rules(rules)(name) is None,
{
    lemma_first_found(rules, 0, name, k);
}

proof fn lemma_first_found(rules: Seq<OverrideRule>, i: int, name: Seq<char>, k: int)
    requires
        0 <= i,
    ensures
        i <= k < rules.len() && regex_finds(rules[k].regex(), name) && (forall|j: int|
            i <= j < k ==> !regex_finds((#[trigger] rules[j]).regex(), name)) ==> first_match(
            rules,
            i,
            name,
        ) == Some(rules[k].device()),
        (forall|j: int| i <= j < rules.len() ==> !regex_finds((#[trigger] rules[j]).regex(), name))
            ==> first_match(rules, i, name) is None,
    decreases rules.len() - i,
{
    if i < rules.len() {
        lemma_first_found(rules, i + 1, name, k);
    }
}

/// What one more tensor that is sent to a device moves: its bytes, to that
/// device and to no other, out of its block or out of what it counts as
/// outside the blocks. One that is sent nowhere moves nothing.
pub proof fn lemma_tensor_moves_its_bytes(
    before: Estimate,
    fewer: Estimate,
    more: Estimate,
    tensors: Seq<(Seq<char>, GgufTensor)>,
    entry: (Seq<char>, GgufTensor),
    f: spec_fn(Seq<char>) -> Option<DeviceSlot>,
)
    requires
        applied(fewer, before, tensors, f),
        applied(more, before, tensors.push(entry), f),
    ensures
        forall|slot: DeviceSlot|
            #![trigger more.override_tensor_bytes.bytes_on(slot)]
            more.override_tensor_bytes.bytes_on(slot) == fewer.override_tensor_bytes.bytes_on(slot)
                + (if f(entry.1.name@) == Some(slot) {
                entry.1.byte_size as int
            } else {
                0
            }),
        f(entry.1.name@) is Some ==> more.override_tensor_bytes.sum()
            == fewer.override_tensor_bytes.sum() + entry.1.byte_size,
        f(entry.1.name@) is None ==> more.override_tensor_bytes.sum()
            == fewer.override_tensor_bytes.sum() && more.weights_bytes == fewer.weights_bytes,
        f(entry.1.name@) is Some ==> (layers::block_index(entry.1.name@) matches Some(i) ==> (
        fewer.per_layer_bytes is Some && i < fewer.per_layer_bytes->0@.len()
            && fewer.per_layer_bytes->0@[i as int] >= entry.1.byte_size ==> more.per_layer_bytes
            is Some && more.per_layer_bytes->0@[i as int] == fewer.per_layer_bytes->0@[i as int]
            - entry.1.byte_size)),
        f(entry.1.name@) is Some && entry.1.name@ == "output.weight"@ && layers::block_index(
            entry.1.name@,
        ) is None && fewer.non_layer.output_head_bytes >= entry.1.byte_size
            ==> more.non_layer.output_head_bytes == fewer.non_layer.output_head_bytes
            - entry.1.byte_size,
        f(entry.1.name@) is Some && entry.1.name@ == "token_embd.weight"@ && layers::block_index(
            entry.1.name@,
        ) is None && fewer.non_layer.token_embd_bytes >= entry.1.byte_size
            ==> more.non_layer.token_embd_bytes == fewer.non_layer.token_embd_bytes
            - entry.1.byte_size,
        before.per_layer_bytes is None && f(entry.1.name@) is Some && fewer.weights_bytes
            >= entry.1.byte_size ==> more.weights_bytes == fewer.weights_bytes
            - entry.1.byte_size,
        more.kv_per_token == before.kv_per_token,
        more.compute_buffer_mb == before.compute_buffer_mb,
        more.context == before.context,
{
    let longer = tensors.push(entry);
    assert(longer.drop_last() =~= tensors);
    reveal_strlit("output.weight");
    reveal_strlit("token_embd.weight");
    assert("output.weight"@.len() != "token_embd.weight"@.len());
    assert forall|slot: DeviceSlot|
        #![trigger more.override_tensor_bytes.bytes_on(slot)]
        more.override_tensor_bytes.bytes_on(slot) == fewer.override_tensor_bytes.bytes_on(slot) + (
        if f(entry.1.name@) == Some(slot) {
            entry.1.byte_size as int
        } else {
            0
        }) by {
        let p = pinned_to(f, slot);
        assert(more.override_tensor_bytes.bytes_on(slot) == layers::sum_where(longer, p));
        assert(fewer.override_tensor_bytes.bytes_on(slot) == layers::sum_where(tensors, p));
    }
    assert(layers::sum_where(longer, pinned(f)) == layers::sum_where(tensors, pinned(f)) + (
    if f(entry.1.name@) is Some {
        entry.1.byte_size as int
    } else {
        0
    }));
    if before.per_layer_bytes is Some {
        let a = fewer.per_layer_bytes->0@;
        let b = more.per_layer_bytes->0@;
        assert forall|i: int| 0 <= i < a.len() && i <= u32::MAX implies #[trigger] b[i]
            == arith::reduced(
            before.per_layer_bytes->0@[i] as int,
            layers::sum_where(tensors, pinned_in_block(f, i)) + (if pinned_in_block(f, i)(entry) {
                entry.1.byte_size as int
            } else {
                0
            }),
        ) by {
            assert(b[i] == arith::reduced(
                before.per_layer_bytes->0@[i] as int,
                layers::sum_where(longer, pinned_in_block(f, i)),
            ));
        }
        if f(entry.1.name@) is None {
            assert forall|i: int| 0 <= i < a.len() implies b[i] == a[i] by {
                if i <= u32::MAX {
                    assert(a[i] == arith::reduced(
                        before.per_layer_bytes->0@[i] as int,
                        layers::sum_where(tensors, pinned_in_block(f, i)),
                    ));
                } else {
                    assert(a[i] == before.per_layer_bytes->0@[i]);
                }
            }
            assert(a =~= b);
        } else if let Some(k) = layers::block_index(entry.1.name@) {
            if k < a.len() {
                let i = k as int;
                assert(a[i] == arith::reduced(
                    before.per_layer_bytes->0@[i] as int,
                    layers::sum_where(tensors, pinned_in_block(f, i)),
                ));
                lemma_sums_nonnegative(tensors, pinned_in_block(f, i));
            }
        }
    }
    lemma_sums_nonnegative(tensors, pinned_outside(f, 0));
    lemma_sums_nonnegative(tensors, pinned_outside(f, 1));
    lemma_sums_nonnegative(tensors, pinned(f));
}

proof fn lemma_sums_nonnegative(
    tensors: Seq<(Seq<char>, GgufTensor)>,
    filter: spec_fn((Seq<char>, GgufTensor)) -> bool,
)
    ensures
        layers::sum_where(tensors, filter) >= 0,
    decreases tensors.len(),
{
    if tensors.len() > 0 {
        lemma_sums_nonnegative(tensors.drop_last(), filter);
    }
}

/// What is read of a rule that is refused: that it has no `=`, what is wrong
/// with its pattern, or which device is not known.
pub proof fn lemma_rule_fault_told(pattern: Seq<char>, device: Seq<char>)
    requires
        !device.contains('='),
    ensures
        ({
            let written = pattern.push('=') + device;
            &&& rule_fault(device) == Some("missing '=' in rule `"@ + device + "`"@)
            &&& regex_complaint(pattern) matches Some(e) ==> rule_fault(written) == Some(
                "regex `"@ + pattern + "`: "@ + e,
            )
            &&& regex_complaint(pattern) is None && device_named(text::trimmed(device)) is None
                ==> rule_fault(written) == Some(
                "unknown device `"@ + device + "` in rule `"@ + written + "`"@,
            )
        }),
{
    text::lemma_parts_at_last(pattern, device, '=');
}

/// Rules move bytes and change nothing else: an estimate keeps its blocks,
/// its experts stay listed where they were, and one that is not by block
/// loses from its weights just what is moved.
pub proof fn lemma_rules_keep_the_shape(
    after: Estimate,
    before: Estimate,
    tensors: Seq<(Seq<char>, GgufTensor)>,
    f: spec_fn(Seq<char>) -> Option<DeviceSlot>,
)
    requires
        applied(after, before, tensors, f),
    ensures
        after.expert_tensors is Some <==> before.expert_tensors is Some,
        after.per_layer_bytes is Some <==> before.per_layer_bytes is Some,
        before.per_layer_bytes matches Some(b) ==> after.per_layer_bytes->0@.len() == b@.len(),
        before.per_layer_bytes is None ==> ({
            let moved = layers::sum_where(
                tensors,
                |t: (Seq<char>, GgufTensor)| f(t.1.name@) is Some,
            );
            after.weights_bytes == (if before.weights_bytes >= moved {
                before.weights_bytes - moved
            } else {
                0
            })
        }),
        after.kv_per_token == before.kv_per_token,
        after.compute_buffer_mb == before.compute_buffer_mb,
        after.mtp_bytes == before.mtp_bytes,
        after.host_overhead_bytes == before.host_overhead_bytes,
        after.context == before.context,
        after.expert_layers == before.expert_layers,
{
    let g = |t: (Seq<char>, GgufTensor)| f(t.1.name@) is Some;
    assert(g =~= pinned(f));
}

} // verus!
