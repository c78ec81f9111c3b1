//! What clients are told, field by field.

use crate::api::errors::{ApiErrorCodeSlug, ApiErrorKind};
use crate::api::event::Event;
use crate::api::openai::response;
use crate::api::openai::response::{
    ChatCompletionChunk, Choice, JsonNumber, MessageBody, Timings, Usage,
};
use crate::api::restarts;
use crate::api::restarts::ServiceRestartEntry;
use crate::config::value::JsonValue;
use crate::db::models::ServiceRestart;
use vstd::prelude::*;
use vstd::string::*;

verus! {

/// Each event is told by a word of its own.
pub proof fn lemma_event_words(e: Event)
    ensures
        e is StateChanged <==> e.tag_view() == "state_changed"@,
        e is AllocationChanged <==> e.tag_view() == "allocation_changed"@,
        e is ConfigReloaded <==> e.tag_view() == "config_reloaded"@,
        e is EstimatorDrift <==> e.tag_view() == "estimator_drift"@,
        e is AutoRestarted <==> e.tag_view() == "auto_restarted"@,
        e is Overflow <==> e.tag_view() == "overflow"@,
{
    reveal_strlit("state_changed");
    reveal_strlit("allocation_changed");
    reveal_strlit("config_reloaded");
    reveal_strlit("estimator_drift");
    reveal_strlit("auto_restarted");
    reveal_strlit("overflow");
    assert("state_changed"@.len() == 13);
    assert("allocation_changed"@.len() == 18);
    assert("config_reloaded"@.len() == 15 && "config_reloaded"@[0] == 'c');
    assert("estimator_drift"@.len() == 15 && "estimator_drift"@[0] == 'e');
    assert("auto_restarted"@.len() == 14);
    assert("overflow"@.len() == 8);
}

/// Each code is the word that names it, and a word that names none is read
/// as one this version does not know.
pub proof fn lemma_code_words(word: Seq<char>)
    ensures
        ({
            let read = ApiErrorCodeSlug::meant_by(word);
            &&& read is ModelNotFound <==> word == "model_not_found"@
            &&& read is ServiceNotFound <==> word == "service_not_found"@
            &&& read is ServiceDisabled <==> word == "service_disabled"@
            &&& read is StartQueueFull <==> word == "start_queue_full"@
            &&& read is StartFailed <==> word == "start_failed"@
            &&& read is InsufficientCapacity <==> word == "insufficient_capacity"@
            &&& read is ServiceBlocked <==> word == "service_blocked"@
            &&& read is UpstreamUnavailable <==> word == "upstream_unavailable"@
            &&& read is ProxyInternal <==> word == "proxy_internal"@
            &&& read is NotImplemented <==> word == "not_implemented"@
            &&& read is InvalidCursor <==> word == "invalid_cursor"@
            &&& read is IfMatchRequired <==> word == "if_match_required"@
            &&& read is HashMismatch <==> word == "hash_mismatch"@
            &&& read is PersistFailed <==> word == "persist_failed"@
            &&& read is InvalidRequest <==> word == "invalid_request_error"@
        }),
        !(ApiErrorCodeSlug::meant_by(word) is Other) ==> ApiErrorCodeSlug::meant_by(word).word()
            == word,
{
    reveal_strlit("model_not_found");
    reveal_strlit("service_not_found");
    reveal_strlit("service_disabled");
    reveal_strlit("start_queue_full");
    reveal_strlit("start_failed");
    reveal_strlit("insufficient_capacity");
    reveal_strlit("service_blocked");
    reveal_strlit("upstream_unavailable");
    reveal_strlit("proxy_internal");
    reveal_strlit("not_implemented");
    reveal_strlit("invalid_cursor");
    reveal_strlit("if_match_required");
    reveal_strlit("hash_mismatch");
    reveal_strlit("persist_failed");
    reveal_strlit("invalid_request_error");
    assert("model_not_found"@.len() == 15 && "model_not_found"@[2] == 'd');
    assert("service_not_found"@.len() == 17 && "service_not_found"@[2] == 'r');
    assert("service_disabled"@.len() == 16 && "service_disabled"@[2] == 'r');
    assert("start_queue_full"@.len() == 16 && "start_queue_full"@[2] == 'a');
    assert("start_failed"@.len() == 12);
    assert("insufficient_capacity"@.len() == 21 && "insufficient_capacity"@[2] == 's');
    assert("service_blocked"@.len() == 15 && "service_blocked"@[2] == 'r');
    assert("upstream_unavailable"@.len() == 20);
    assert("proxy_internal"@.len() == 14 && "proxy_internal"@[2] == 'o');
    assert("not_implemented"@.len() == 15 && "not_implemented"@[2] == 't');
    assert("invalid_cursor"@.len() == 14 && "invalid_cursor"@[2] == 'v');
    assert("if_match_required"@.len() == 17 && "if_match_required"@[2] == '_');
    assert("hash_mismatch"@.len() == 13);
    assert("persist_failed"@.len() == 14 && "persist_failed"@[2] == 'r');
    assert("invalid_request_error"@.len() == 21 && "invalid_request_error"@[2] == 'v');
}

/// Each kind of error is the word that names it, and a word that names none
/// is read as one this version does not know.
pub proof fn lemma_kind_words(word: Seq<char>)
    ensures
        ApiErrorKind::meant_by(word) is ServerError <==> word == "server_error"@,
        ApiErrorKind::meant_by(word) is InvalidRequestError <==> word == "invalid_request_error"@,
        !(ApiErrorKind::meant_by(word) is Other) ==> ApiErrorKind::meant_by(word).word() == word,
{
    reveal_strlit("server_error");
    reveal_strlit("invalid_request_error");
    assert("server_error"@.len() == 12);
    assert("invalid_request_error"@.len() == 21);
}

/// What clients are told of a restart is what was recorded of it.
pub proof fn lemma_restart_told(
    entry: ServiceRestartEntry,
    service: Seq<char>,
    row: ServiceRestart,
)
    requires
        restarts::tells(entry, service, row),
    ensures
        entry.service@ == service,
        entry.at_ms == row.at_ms,
        entry.trigger@ == row.trigger@,
        entry.detail@ == row.detail@,
        entry.run_id == row.run_id,
{
}

/// The reasoning of a message is under the first of its two keys where both
/// are there.
pub proof fn lemma_reasoning_under_either_key(m: MessageBody)
    ensures
        m.reasoning_content matches Some(t) ==> m.reasoning_view() == Some(t@),
        m.reasoning_content is None ==> (m.reasoning matches Some(t) ==> m.reasoning_view() == Some(
            t@,
        )),
        m.reasoning_view() is None <==> m.reasoning_content is None && m.reasoning is None,
{
}

/// The first candidate is the one at the head of the list.
pub proof fn lemma_first_candidate(c: ChatCompletionChunk)
    ensures
        c.first_view() matches Some(x) ==> c.choices is Some && c.choices->0@.len() > 0
            && c.choices->0@[0] == *x,
        c.first_view() is None <==> c.choices is None || c.choices->0@.len() == 0,
{
}

/// Of two entries under one key the later is read, and an entry under
/// another key is passed over.
pub proof fn lemma_last_entry_read(
    entries: Seq<(String, JsonValue)>,
    entry: (String, JsonValue),
    key: Seq<char>,
)
    ensures
        response::entry_of(Seq::<(String, JsonValue)>::empty(), key) is None,
        response::entry_of(entries.push(entry), key) == (if entry.0@ == key {
            Some(entry.1)
        } else {
            response::entry_of(entries, key)
        }),
{
    assert(entries.push(entry).drop_last() =~= entries);
}

/// A record is an object, read by key, or a list that is not too long, read
/// by position.
pub proof fn lemma_record_read(v: JsonValue, n: nat, key: Seq<char>, at: nat)
    ensures
        v matches JsonValue::Object(entries) ==> response::is_record(v, n) && response::member_of(
            v,
            key,
            at as int,
        ) == response::entry_of(entries@, key),
        v matches JsonValue::Array(items) ==> (response::is_record(v, n) <==> items@.len() <= n),
        v matches JsonValue::Array(items) ==> (at < items@.len() ==> response::member_of(
            v,
            key,
            at as int,
        ) == Some(items@[at as int])),
        v matches JsonValue::Array(items) ==> (at >= items@.len() ==> response::member_of(
            v,
            key,
            at as int,
        ) is None),
        !(v is Object) && !(v is Array) ==> !response::is_record(v, n),
{
}

/// What is read of a single field: a text or a number as it is written, and
/// nothing of any other type. A count must fit a signed number.
pub proof fn lemma_field_read(v: Option<JsonValue>)
    ensures
        v matches Some(JsonValue::String(t)) ==> response::text_in(v) == Some(t@),
        !(v matches Some(JsonValue::String(_))) ==> response::text_in(v) is None,
        v matches Some(JsonValue::Integer(n)) ==> response::integer_in(v) == Some(n)
            && response::number_in(v) == Some(JsonNumber::Integer(n)),
        v matches Some(JsonValue::Unsigned(n)) ==> response::number_in(v) == Some(
            JsonNumber::Unsigned(n),
        ) && (if n <= 0x7fff_ffff_ffff_ffff {
            response::integer_in(v) is Some && response::integer_in(v)->0 == n
        } else {
            response::integer_in(v) is None
        }),
        v matches Some(JsonValue::Float(x)) ==> response::number_in(v) == Some(
            JsonNumber::Float(x),
        ) && response::integer_in(v) is None,
        v is None || v->0 is Null || v->0 is Bool || v->0 is String || v->0 is Array
            || v->0 is Object ==> response::integer_in(v) is None && response::number_in(v) is None,
{
}

/// An object's fields are read under their own keys.
pub proof fn lemma_fields_read_by_key(
    c: ChatCompletionChunk,
    entries: Vec<(String, JsonValue)>,
    usage: Vec<(String, JsonValue)>,
    timings: Vec<(String, JsonValue)>,
)
    requires
        response::is_chunk(c, JsonValue::Object(entries)),
    ensures
        response::entry_of(entries@, "usage"@) == Some(JsonValue::Object(usage)) ==> c.usage
            == Some(
            (Usage {
                prompt_tokens: response::integer_in(
                    response::entry_of(usage@, "prompt_tokens"@),
                ),
                completion_tokens: response::integer_in(
                    response::entry_of(usage@, "completion_tokens"@),
                ),
            }),
        ),
        response::entry_of(entries@, "usage"@) is None ==> c.usage is None,
        response::entry_of(entries@, "timings"@) == Some(JsonValue::Object(timings)) ==> c.timings
            == Some(
            (Timings {
                prompt_ms: response::number_in(response::entry_of(timings@, "prompt_ms"@)),
                predicted_ms: response::number_in(response::entry_of(timings@, "predicted_ms"@)),
                prompt_n: response::integer_in(response::entry_of(timings@, "prompt_n"@)),
                draft_n: response::integer_in(response::entry_of(timings@, "draft_n"@)),
                draft_n_accepted: response::integer_in(
                    response::entry_of(timings@, "draft_n_accepted"@),
                ),
            }),
        ),
        response::entry_of(entries@, "timings"@) is None ==> c.timings is None,
        response::entry_of(entries@, "choices"@) matches Some(JsonValue::Array(items)) ==> (
        c.choices matches Some(list) ==> list@.len() == items@.len() && forall|i: int|
            0 <= i < items@.len() ==> response::is_choice(#[trigger] list@[i], items@[i])),
        response::entry_of(entries@, "choices"@) matches Some(JsonValue::Array(items)) ==> (
        c.choices is Some <==> forall|i: int|
            0 <= i < items@.len() ==> response::is_record(#[trigger] items@[i], 2)),
        !(response::entry_of(entries@, "choices"@) matches Some(JsonValue::Array(_)))
            ==> c.choices is None,
{
    if let Some(JsonValue::Array(items)) = response::entry_of(entries@, "choices"@) {
        if let Some(list) = c.choices {
            assert forall|i: int| 0 <= i < items@.len() implies response::is_record(
                #[trigger] items@[i],
                2,
            ) by {
                assert(response::is_choice(list@[i], items@[i]));
            }
        }
    }
}

/// A candidate's two bodies and their texts are read under their own keys.
pub proof fn lemma_candidate_read_by_key(
    c: Choice,
    entries: Vec<(String, JsonValue)>,
    body: Vec<(String, JsonValue)>,
)
    requires
        response::is_choice(c, JsonValue::Object(entries)),
    ensures
        response::entry_of(entries@, "delta"@) == Some(JsonValue::Object(body)) ==> (c.delta matches
            Some(b) && told(b, body@)),
        response::entry_of(entries@, "message"@) == Some(JsonValue::Object(body)) ==> (
        c.message matches Some(b) && told(b, body@)),
        response::entry_of(entries@, "delta"@) is None ==> c.delta is None,
        response::entry_of(entries@, "message"@) is None ==> c.message is None,
{
}

/// Whether the texts of `b` stand in `body`, each under its key.
pub open spec fn told(b: MessageBody, body: Seq<(String, JsonValue)>) -> bool {
    &&& stands(b.content, response::entry_of(body, "content"@))
    &&& stands(b.reasoning_content, response::entry_of(body, "reasoning_content"@))
    &&& stands(b.reasoning, response::entry_of(body, "reasoning"@))
}

/// Whether `text` is the text of a field, absent where the field has none.
pub open spec fn stands(text: Option<String>, field: Option<JsonValue>) -> bool {
    match field {
        Some(JsonValue::String(t)) => text is Some && text->0@ == t@,
        _ => text is None,
    }
}

} // verus!
