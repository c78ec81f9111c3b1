//! What is read of an upstream's answer. A field that is not of the expected
//! type is left out, and costs no other field.

use crate::config::value::{Float64, JsonValue};
use crate::text;
use vstd::prelude::*;
use vstd::string::*;

verus! {

/// A chunk of a streamed answer, or a whole one.
#[derive(Debug)]
pub struct ChatCompletionChunk {
    pub choices: Option<Vec<Choice>>,
    /// Token counts.
    pub usage: Option<Usage>,
    /// llama.cpp's own timings.
    pub timings: Option<Timings>,
}

/// One candidate: a streamed one has `delta`, a whole one `message`.
#[derive(Debug)]
pub struct Choice {
    pub delta: Option<MessageBody>,
    pub message: Option<MessageBody>,
}

/// The text of a candidate.
#[derive(Debug)]
pub struct MessageBody {
    /// The answer.
    pub content: Option<String>,
    /// The reasoning before it.
    pub reasoning_content: Option<String>,
    /// The same under the key that other engines use.
    pub reasoning: Option<String>,
}

/// Token counts.
#[derive(Debug, Clone, Copy, PartialEq, Eq, Structural)]
pub struct Usage {
    /// Tokens of the prompt, cached ones too.
    pub prompt_tokens: Option<i64>,
    /// Tokens of the answer.
    pub completion_tokens: Option<i64>,
}

/// llama.cpp's own timings.
#[derive(Debug, Clone, Copy, PartialEq, Eq, Structural)]
pub struct Timings {
    /// Milliseconds of the prompt.
    pub prompt_ms: Option<JsonNumber>,
    /// Milliseconds of the answer.
    pub predicted_ms: Option<JsonNumber>,
    /// Tokens of the prompt that were evaluated.
    pub prompt_n: Option<i64>,
    /// Tokens that were drafted.
    pub draft_n: Option<i64>,
    /// Drafted tokens that were accepted.
    pub draft_n_accepted: Option<i64>,
}

/// A number as it is written: with a fraction or exponent, or without.
#[derive(Debug, Clone, Copy, PartialEq, Eq, Structural)]
pub enum JsonNumber {
    Integer(i64),
    Unsigned(u64),
    Float(Float64),
}

impl MessageBody {
    /// The reasoning, under whichever key it stands.
    pub open spec fn reasoning_view(&self) -> Option<Seq<char>> {
        match self.reasoning_content {
            Some(t) => Some(t@),
            None => match self.reasoning {
                Some(t) => Some(t@),
                None => None,
            },
        }
    }

    /// The reasoning, under whichever key it stands.
    pub fn reasoning_text(&self) -> (r: Option<&str>)
        ensures
            shown(r) == self.reasoning_view(),
    {
        match &self.reasoning_content {
            Some(t) => Some(t.as_str()),
            None => match &self.reasoning {
                Some(t) => Some(t.as_str()),
                None => None,
            },
        }
    }

    /// Any text: the answer, or the reasoning before it.
    pub fn any_text(&self) -> (r: Option<&str>)
        ensures
            shown(r) == (match self.content {
                Some(t) => Some(t@),
                None => self.reasoning_view(),
            }),
    {
        match &self.content {
            Some(t) => Some(t.as_str()),
            None => self.reasoning_text(),
        }
    }
}

/// The text of an optional reference.
pub open spec fn shown(s: Option<&str>) -> Option<Seq<char>> {
    match s {
        Some(t) => Some(t@),
        None => None,
    }
}

impl ChatCompletionChunk {
    /// The first candidate.
    pub open spec fn first_view(&self) -> Option<&Choice> {
        match self.choices {
            Some(list) => if list@.len() > 0 {
                Some(&list@[0])
            } else {
                None
            },
            None => None,
        }
    }

    /// The first candidate.
    pub fn first_choice(&self) -> (r: Option<&Choice>)
        ensures
            r == self.first_view(),
    {
        match &self.choices {
            Some(list) => if list.len() > 0 {
                Some(&list[0])
            } else {
                None
            },
            None => None,
        }
    }

    /// What the first candidate adds, in a streamed answer.
    pub fn delta(&self) -> (r: Option<&MessageBody>)
        ensures
            match self.first_view() {
                Some(c) => match c.delta {
                    Some(body) => r == Some(&body),
                    None => r is None,
                },
                None => r is None,
            },
    {
        match self.first_choice() {
            Some(c) => match &c.delta {
                Some(body) => Some(body),
                None => None,
            },
            None => None,
        }
    }

    /// What the first candidate says, in a whole answer.
    pub fn message(&self) -> (r: Option<&MessageBody>)
        ensures
            match self.first_view() {
                Some(c) => match c.message {
                    Some(body) => r == Some(&body),
                    None => r is None,
                },
                None => r is None,
            },
    {
        match self.first_choice() {
            Some(c) => match &c.message {
                Some(body) => Some(body),
                None => None,
            },
            None => None,
        }
    }
}

/// The value of the last entry under `key`.
pub open spec fn entry_of(entries: Seq<(String, JsonValue)>, key: Seq<char>) -> Option<JsonValue>
    decreases entries.len(),
{
    if entries.len() == 0 {
        None
    } else if entries.last().0@ == key {
        Some(entries.last().1)
    } else {
        entry_of(entries.drop_last(), key)
    }
}

/// Whether `v` can be read as a record of `n` fields: an object, or a list
/// of the fields in order, from which those at the end may be missing.
pub open spec fn is_record(v: JsonValue, n: nat) -> bool {
    match v {
        JsonValue::Object(_) => true,
        JsonValue::Array(items) => items@.len() <= n,
        _ => false,
    }
}

/// The field of a record under `key`, which is its field number `at`.
pub open spec fn member_of(v: JsonValue, key: Seq<char>, at: int) -> Option<JsonValue> {
    match v {
        JsonValue::Object(entries) => entry_of(entries@, key),
        JsonValue::Array(items) => if 0 <= at < items@.len() {
            Some(items@[at])
        } else {
            None
        },
        _ => None,
    }
}

fn entry<'a>(entries: &'a Vec<(String, JsonValue)>, key: &str) -> (r: Option<&'a JsonValue>)
    ensures
        match r {
            Some(v) => entry_of(entries@, key@) == Some(*v),
            None => entry_of(entries@, key@) is None,
        },
{
    let mut i: usize = entries.len();
    assert(entries@.take(i as int) =~= entries@);
    while i > 0
        invariant
            i <= entries@.len(),
            entry_of(entries@, key@) == entry_of(entries@.take(i as int), key@),
        decreases i,
    {
        i -= 1;
        assert(entries@.take(i + 1).drop_last() =~= entries@.take(i as int));
        if text::same(entries[i].0.as_str(), key) {
            return Some(&entries[i].1);
        }
    }
    None
}

fn member<'a>(v: &'a JsonValue, key: &str, at: usize) -> (r: Option<&'a JsonValue>)
    ensures
        match r {
            Some(x) => member_of(*v, key@, at as int) == Some(*x),
            None => member_of(*v, key@, at as int) is None,
        },
{
    match v {
        JsonValue::Object(entries) => entry(entries, key),
        JsonValue::Array(items) => if at < items.len() {
            Some(&items[at])
        } else {
            None
        },
        _ => None,
    }
}

fn record(v: &JsonValue, n: usize) -> (r: bool)
    ensures
        r == is_record(*v, n as nat),
{
    match v {
        JsonValue::Object(_) => true,
        JsonValue::Array(items) => items.len() <= n,
        _ => false,
    }
}

/// A text, where the field is one.
pub open spec fn text_in(v: Option<JsonValue>) -> Option<Seq<char>> {
    match v {
        Some(JsonValue::String(t)) => Some(t@),
        _ => None,
    }
}

/// A signed integer, where the field is one.
pub open spec fn integer_in(v: Option<JsonValue>) -> Option<i64> {
    match v {
        Some(JsonValue::Integer(n)) => Some(n),
        Some(JsonValue::Unsigned(n)) => if n <= i64::MAX {
            Some(n as i64)
        } else {
            None
        },
        _ => None,
    }
}

/// A number, where the field is one.
pub open spec fn number_in(v: Option<JsonValue>) -> Option<JsonNumber> {
    match v {
        Some(JsonValue::Integer(n)) => Some(JsonNumber::Integer(n)),
        Some(JsonValue::Unsigned(n)) => Some(JsonNumber::Unsigned(n)),
        Some(JsonValue::Float(x)) => Some(JsonNumber::Float(x)),
        _ => None,
    }
}

/// Whether a field holds `v`.
pub open spec fn holds(field: Option<&JsonValue>, v: Option<JsonValue>) -> bool {
    match field {
        Some(x) => v == Some(*x),
        None => v is None,
    }
}

fn read_text(v: Option<&JsonValue>) -> (r: Option<String>)
    ensures
        forall|x: Option<JsonValue>| #[trigger]
            holds(v, x) ==> crate::config::merge::text_of(r) == text_in(x),
{
    match v {
        Some(JsonValue::String(t)) => Some(t.clone()),
        _ => None,
    }
}

fn read_integer(v: Option<&JsonValue>) -> (r: Option<i64>)
    ensures
        forall|x: Option<JsonValue>| #[trigger] holds(v, x) ==> r == integer_in(x),
{
    match v {
        Some(JsonValue::Integer(n)) => Some(*n),
        Some(JsonValue::Unsigned(n)) => if *n <= i64::MAX as u64 {
            Some(*n as i64)
        } else {
            None
        },
        _ => None,
    }
}

fn read_number(v: Option<&JsonValue>) -> (r: Option<JsonNumber>)
    ensures
        forall|x: Option<JsonValue>| #[trigger] holds(v, x) ==> r == number_in(x),
{
    match v {
        Some(JsonValue::Integer(n)) => Some(JsonNumber::Integer(*n)),
        Some(JsonValue::Unsigned(n)) => Some(JsonNumber::Unsigned(*n)),
        Some(JsonValue::Float(x)) => Some(JsonNumber::Float(*x)),
        _ => None,
    }
}

/// Token counts, where the field is a record.
pub open spec fn usage_in(v: Option<JsonValue>) -> Option<Usage> {
    match v {
        Some(x) => if is_record(x, 2) {
            Some(
                Usage {
                    prompt_tokens: integer_in(member_of(x, "prompt_tokens"@, 0)),
                    completion_tokens: integer_in(member_of(x, "completion_tokens"@, 1)),
                },
            )
        } else {
            None
        },
        None => None,
    }
}

/// Timings, where the field is a record.
pub open spec fn timings_in(v: Option<JsonValue>) -> Option<Timings> {
    match v {
        Some(x) => if is_record(x, 5) {
            Some(
                Timings {
                    prompt_ms: number_in(member_of(x, "prompt_ms"@, 0)),
                    predicted_ms: number_in(member_of(x, "predicted_ms"@, 1)),
                    prompt_n: integer_in(member_of(x, "prompt_n"@, 2)),
                    draft_n: integer_in(member_of(x, "draft_n"@, 3)),
                    draft_n_accepted: integer_in(member_of(x, "draft_n_accepted"@, 4)),
                },
            )
        } else {
            None
        },
        None => None,
    }
}

/// Whether `body` is the text of a candidate that the field holds; none
/// where it is no record.
pub open spec fn is_body(body: Option<MessageBody>, v: Option<JsonValue>) -> bool {
    match body {
        Some(b) => v matches Some(x) && {
            &&& is_record(x, 3)
            &&& crate::config::merge::text_of(b.content) == text_in(member_of(x, "content"@, 0))
            &&& crate::config::merge::text_of(b.reasoning_content) == text_in(
                member_of(x, "reasoning_content"@, 1),
            )
            &&& crate::config::merge::text_of(b.reasoning) == text_in(
                member_of(x, "reasoning"@, 2),
            )
        },
        None => v matches Some(x) ==> !is_record(x, 3),
    }
}

/// Whether `c` is the candidate that `v` holds.
pub open spec fn is_choice(c: Choice, v: JsonValue) -> bool {
    &&& is_record(v, 2)
    &&& is_body(c.delta, member_of(v, "delta"@, 0))
    &&& is_body(c.message, member_of(v, "message"@, 1))
}

/// Whether `items` are all records of a candidate.
pub open spec fn all_choices(items: Seq<JsonValue>) -> bool {
    forall|i: int| 0 <= i < items.len() ==> is_record(#[trigger] items[i], 2)
}

/// Whether `list` are the candidates that the field holds; none where it is
/// no list of records.
pub open spec fn is_choices(list: Option<Vec<Choice>>, v: Option<JsonValue>) -> bool {
    match list {
        Some(l) => v matches Some(JsonValue::Array(items)) && {
            &&& l@.len() == items@.len()
            &&& forall|i: int| 0 <= i < items@.len() ==> is_choice(#[trigger] l@[i], items@[i])
        },
        None => v matches Some(JsonValue::Array(items)) ==> !all_choices(items@),
    }
}

/// Whether `c` is what is read of the answer `v`.
pub open spec fn is_chunk(c: ChatCompletionChunk, v: JsonValue) -> bool {
    &&& is_record(v, 3)
    &&& is_choices(c.choices, member_of(v, "choices"@, 0))
    &&& c.usage == usage_in(member_of(v, "usage"@, 1))
    &&& c.timings == timings_in(member_of(v, "timings"@, 2))
}

fn read_usage(v: Option<&JsonValue>) -> (r: Option<Usage>)
    ensures
        forall|x: Option<JsonValue>| #[trigger] holds(v, x) ==> r == usage_in(x),
{
    match v {
        Some(x) => if record(x, 2) {
            let prompt = member(x, "prompt_tokens", 0);
            let completion = member(x, "completion_tokens", 1);
            assert(holds(prompt, member_of(*x, "prompt_tokens"@, 0)));
            assert(holds(completion, member_of(*x, "completion_tokens"@, 1)));
            Some(
                Usage {
                    prompt_tokens: read_integer(prompt),
                    completion_tokens: read_integer(completion),
                },
            )
        } else {
            None
        },
        None => None,
    }
}

fn read_timings(v: Option<&JsonValue>) -> (r: Option<Timings>)
    ensures
        forall|x: Option<JsonValue>| #[trigger] holds(v, x) ==> r == timings_in(x),
{
    match v {
        Some(x) => if record(x, 5) {
            let prompt_ms = member(x, "prompt_ms", 0);
            let predicted_ms = member(x, "predicted_ms", 1);
            let prompt_n = member(x, "prompt_n", 2);
            let draft_n = member(x, "draft_n", 3);
            let accepted = member(x, "draft_n_accepted", 4);
            assert(holds(prompt_ms, member_of(*x, "prompt_ms"@, 0)));
            assert(holds(predicted_ms, member_of(*x, "predicted_ms"@, 1)));
            assert(holds(prompt_n, member_of(*x, "prompt_n"@, 2)));
            assert(holds(draft_n, member_of(*x, "draft_n"@, 3)));
            assert(holds(accepted, member_of(*x, "draft_n_accepted"@, 4)));
            Some(
                Timings {
                    prompt_ms: read_number(prompt_ms),
                    predicted_ms: read_number(predicted_ms),
                    prompt_n: read_integer(prompt_n),
                    draft_n: read_integer(draft_n),
                    draft_n_accepted: read_integer(accepted),
                },
            )
        } else {
            None
        },
        None => None,
    }
}

fn read_body(v: Option<&JsonValue>) -> (r: Option<MessageBody>)
    ensures
        forall|x: Option<JsonValue>| #[trigger] holds(v, x) ==> is_body(r, x),
{
    match v {
        Some(x) => if record(x, 3) {
            let content = member(x, "content", 0);
            let reasoning_content = member(x, "reasoning_content", 1);
            let reasoning = member(x, "reasoning", 2);
            assert(holds(content, member_of(*x, "content"@, 0)));
            assert(holds(reasoning_content, member_of(*x, "reasoning_content"@, 1)));
            assert(holds(reasoning, member_of(*x, "reasoning"@, 2)));
            Some(
                MessageBody {
                    content: read_text(content),
                    reasoning_content: read_text(reasoning_content),
                    reasoning: read_text(reasoning),
                },
            )
        } else {
            None
        },
        None => None,
    }
}

fn read_choices(v: Option<&JsonValue>) -> (r: Option<Vec<Choice>>)
    ensures
        forall|x: Option<JsonValue>| #[trigger] holds(v, x) ==> is_choices(r, x),
{
    let items: &Vec<JsonValue> = match v {
        Some(JsonValue::Array(items)) => items,
        _ => {
            return None;
        },
    };
    let mut list: Vec<Choice> = Vec::new();
    for i in 0..items.len()
        invariant
            v == Some(&JsonValue::Array(*items)),
            list@.len() == i,
            forall|j: int| 0 <= j < i ==> is_choice(#[trigger] list@[j], items@[j]),
    {
        if !record(&items[i], 2) {
            assert(!all_choices(items@));
            return None;
        }
        let delta = member(&items[i], "delta", 0);
        let message = member(&items[i], "message", 1);
        assert(holds(delta, member_of(items@[i as int], "delta"@, 0)));
        assert(holds(message, member_of(items@[i as int], "message"@, 1)));
        list.push(Choice { delta: read_body(delta), message: read_body(message) });
    }
    Some(list)
}

/// What is read of an upstream's answer; nothing where it is no record.
pub fn read_chunk(v: &JsonValue) -> (r: Option<ChatCompletionChunk>)
    ensures
        match r {
            Some(c) => is_chunk(c, *v),
            None => !is_record(*v, 3),
        },
{
    if !record(v, 3) {
        return None;
    }
    let choices = member(v, "choices", 0);
    let usage = member(v, "usage", 1);
    let timings = member(v, "timings", 2);
    assert(holds(choices, member_of(*v, "choices"@, 0)));
    assert(holds(usage, member_of(*v, "usage"@, 1)));
    assert(holds(timings, member_of(*v, "timings"@, 2)));
    Some(
        ChatCompletionChunk {
            choices: read_choices(choices),
            usage: read_usage(usage),
            timings: read_timings(timings),
        },
    )
}

/// A field costs only itself: two answers that agree on one field read the
/// same there, whatever stands in the others. Answers that are records are
/// always read.
pub proof fn lemma_fields_cost_only_themselves(
    a: JsonValue,
    b: JsonValue,
    read_a: ChatCompletionChunk,
    read_b: ChatCompletionChunk,
)
    requires
        is_chunk(read_a, a),
        is_chunk(read_b, b),
    ensures
        member_of(a, "usage"@, 1) == member_of(b, "usage"@, 1) ==> read_a.usage == read_b.usage,
        member_of(a, "timings"@, 2) == member_of(b, "timings"@, 2) ==> read_a.timings
            == read_b.timings,
        member_of(a, "choices"@, 0) == member_of(b, "choices"@, 0) ==> is_choices(
            read_a.choices,
            member_of(b, "choices"@, 0),
        ),
{
}

/// A count of the wrong type costs only itself: the other count of the same
/// record is read as it stands.
pub proof fn lemma_counts_cost_only_themselves(a: JsonValue, b: JsonValue)
    requires
        is_record(a, 2),
        is_record(b, 2),
    ensures
        usage_in(Some(a)) matches Some(x) && usage_in(Some(b)) matches Some(y) && {
            &&& member_of(a, "prompt_tokens"@, 0) == member_of(b, "prompt_tokens"@, 0)
                ==> x.prompt_tokens == y.prompt_tokens
            &&& member_of(a, "completion_tokens"@, 1) == member_of(b, "completion_tokens"@, 1)
                ==> x.completion_tokens == y.completion_tokens
        },
{
}

/// A timing of the wrong type costs only itself.
pub proof fn lemma_timings_cost_only_themselves(a: JsonValue, b: JsonValue)
    requires
        is_record(a, 5),
        is_record(b, 5),
    ensures
        timings_in(Some(a)) matches Some(x) && timings_in(Some(b)) matches Some(y) && {
            &&& member_of(a, "prompt_ms"@, 0) == member_of(b, "prompt_ms"@, 0) ==> x.prompt_ms
                == y.prompt_ms
            &&& member_of(a, "predicted_ms"@, 1) == member_of(b, "predicted_ms"@, 1)
                ==> x.predicted_ms == y.predicted_ms
            &&& member_of(a, "prompt_n"@, 2) == member_of(b, "prompt_n"@, 2) ==> x.prompt_n
                == y.prompt_n
            &&& member_of(a, "draft_n"@, 3) == member_of(b, "draft_n"@, 3) ==> x.draft_n
                == y.draft_n
            &&& member_of(a, "draft_n_accepted"@, 4) == member_of(b, "draft_n_accepted"@, 4)
                ==> x.draft_n_accepted == y.draft_n_accepted
        },
{
}

/// A text of the wrong type costs only itself: two bodies that agree on one
/// field read the same there.
pub proof fn lemma_texts_cost_only_themselves(
    a: JsonValue,
    b: JsonValue,
    read_a: MessageBody,
    read_b: MessageBody,
)
    requires
        is_body(Some(read_a), Some(a)),
        is_body(Some(read_b), Some(b)),
    ensures
        member_of(a, "content"@, 0) == member_of(b, "content"@, 0) ==> crate::config::merge::text_of(
            read_a.content,
        ) == crate::config::merge::text_of(read_b.content),
        member_of(a, "reasoning_content"@, 1) == member_of(b, "reasoning_content"@, 1)
            ==> crate::config::merge::text_of(read_a.reasoning_content)
            == crate::config::merge::text_of(read_b.reasoning_content),
        member_of(a, "reasoning"@, 2) == member_of(b, "reasoning"@, 2)
            ==> crate::config::merge::text_of(read_a.reasoning) == crate::config::merge::text_of(
            read_b.reasoning,
        ),
{
}

} // verus!
