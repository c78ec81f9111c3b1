//! What goes over the wire.

use ananke::api::errors::{ApiErrorBody, ApiErrorCodeSlug, ApiErrorKind};
use ananke::api::event::Event;
use ananke::api::openai::models::{Modality, ModelListing, ModelsResponse};
use ananke::api::openai::response::{read_chunk, ChatCompletionChunk, JsonNumber};
use ananke::api::restarts::RestartsResponse;
use ananke::api::services::{DisableResponse, EnableResponse, StartResponse, StopResponse};
use ananke::config::value::{Float64, JsonValue};
use ananke::db::models::ServiceRestart;
use ananke::text_map::TextMap;

fn json(v: &serde_json::Value) -> JsonValue {
    match v {
        serde_json::Value::Null => JsonValue::Null,
        serde_json::Value::Bool(b) => JsonValue::Bool(*b),
        serde_json::Value::Number(n) => {
            if let Some(i) = n.as_i64() {
                JsonValue::Integer(i)
            } else if let Some(u) = n.as_u64() {
                JsonValue::Unsigned(u)
            } else {
                JsonValue::Float(Float64 {
                    bits: n.as_f64().unwrap().to_bits(),
                })
            }
        }
        serde_json::Value::String(s) => JsonValue::String(s.clone()),
        serde_json::Value::Array(a) => JsonValue::Array(a.iter().map(json).collect()),
        serde_json::Value::Object(o) => {
            JsonValue::Object(o.iter().map(|(k, x)| (k.clone(), json(x))).collect())
        }
    }
}

fn chunk(text: &str) -> ChatCompletionChunk {
    let value: serde_json::Value = serde_json::from_str(text).unwrap();
    read_chunk(&json(&value)).unwrap()
}

#[test]
fn a_chunk_missing_every_optional_field_still_parses() {
    let chunk = chunk(r#"{"id":"x","object":"y"}"#);
    assert!(chunk.first_choice().is_none());
    assert!(chunk.usage.is_none());
    assert!(chunk.timings.is_none());
}

#[test]
fn reasoning_falls_back_to_the_plain_key() {
    let chunk = chunk(r#"{"choices":[{"delta":{"reasoning":"hm"}}]}"#);
    assert_eq!(chunk.delta().unwrap().reasoning_text(), Some("hm"));
}

#[test]
fn an_unknown_timings_counter_does_not_discard_the_known_ones() {
    let chunk = chunk(r#"{"timings":{"prompt_n":12,"future_counter":3}}"#);
    let timings = chunk.timings.unwrap();
    assert_eq!(timings.prompt_n, Some(12));
    assert_eq!(timings.draft_n, None);
}

#[test]
fn a_null_field_is_read_as_absent() {
    let chunk = chunk(r#"{"choices":null,"usage":null,"timings":null}"#);
    assert!(chunk.first_choice().is_none());
    assert!(chunk.usage.is_none());
    assert!(chunk.timings.is_none());
}

#[test]
fn a_wrongly_typed_field_does_not_poison_the_rest_of_the_body() {
    let cases = [
        r#"{"timings":"n/a","usage":{"prompt_tokens":7,"completion_tokens":2}}"#,
        r#"{"timings":123,"usage":{"prompt_tokens":7,"completion_tokens":2}}"#,
        r#"{"choices":"nope","usage":{"prompt_tokens":7,"completion_tokens":2}}"#,
        r#"{"choices":[{"delta":"hi"}],"usage":{"prompt_tokens":7,"completion_tokens":2}}"#,
        r#"{"usage":{"prompt_tokens":7,"completion_tokens":2,"extra":{"nested":[1]}}}"#,
    ];
    for case in cases {
        let chunk = chunk(case);
        let usage = chunk
            .usage
            .unwrap_or_else(|| panic!("usage lost by: {case}"));
        assert_eq!(usage.prompt_tokens, Some(7), "{case}");
        assert_eq!(usage.completion_tokens, Some(2), "{case}");
    }
}

#[test]
fn a_wrongly_typed_counter_costs_only_itself() {
    let chunk = chunk(
        r#"{"usage":{"prompt_tokens":10.5,"completion_tokens":3},
                "timings":{"prompt_ms":50.0,"prompt_n":"eight"}}"#,
    );
    let usage = chunk.usage.unwrap();
    assert_eq!(usage.prompt_tokens, None);
    assert_eq!(usage.completion_tokens, Some(3));
    let timings = chunk.timings.unwrap();
    assert_eq!(
        timings.prompt_ms,
        Some(JsonNumber::Float(Float64 {
            bits: 50.0f64.to_bits()
        }))
    );
    assert_eq!(timings.prompt_n, None);
}

#[test]
fn structured_content_parts_leave_the_rest_intact() {
    let chunk = chunk(
        r#"{"choices":[{"delta":{"content":[{"type":"text","text":"hi"}]}}],
                "usage":{"prompt_tokens":1,"completion_tokens":1}}"#,
    );
    assert_eq!(chunk.delta().unwrap().content, None);
    assert_eq!(chunk.usage.unwrap().prompt_tokens, Some(1));
}

#[test]
fn whole_answers_and_any_text_are_read() {
    let whole = chunk(r#"{"choices":[{"message":{"content":"hi","reasoning_content":"so"}}]}"#);
    assert!(whole.delta().is_none());
    let body = whole.message().unwrap();
    assert_eq!(body.any_text(), Some("hi"));
    assert_eq!(body.reasoning_text(), Some("so"));
    let thinking = chunk(r#"{"choices":[{"delta":{"reasoning_content":"so","reasoning":"no"}}]}"#);
    assert_eq!(thinking.delta().unwrap().any_text(), Some("so"));
    let silent = chunk(r#"{"choices":[{"delta":{}}]}"#);
    assert_eq!(silent.delta().unwrap().any_text(), None);
    assert!(chunk(r#"{"choices":[]}"#).first_choice().is_none());
    // One candidate that is no record costs the list.
    assert!(chunk(r#"{"choices":[{},7]}"#).choices.is_none());
}

#[test]
fn numbers_are_read_as_written() {
    let c = chunk(
        r#"{"usage":{"prompt_tokens":18446744073709551615,"completion_tokens":-1},
            "timings":{"prompt_ms":50,"predicted_ms":18446744073709551615,"draft_n":4,"draft_n_accepted":0}}"#,
    );
    let usage = c.usage.unwrap();
    assert_eq!(usage.prompt_tokens, None);
    assert_eq!(usage.completion_tokens, Some(-1));
    let t = c.timings.unwrap();
    assert_eq!(t.prompt_ms, Some(JsonNumber::Integer(50)));
    assert_eq!(t.predicted_ms, Some(JsonNumber::Unsigned(u64::MAX)));
    assert_eq!(t.draft_n, Some(4));
    assert_eq!(t.draft_n_accepted, Some(0));
}

#[test]
fn a_list_is_read_as_a_record_in_order() {
    let c = chunk(r#"{"usage":[7,2]}"#);
    assert_eq!(c.usage.unwrap().completion_tokens, Some(2));
    assert!(chunk(r#"{"usage":[7,2,3]}"#).usage.is_none());
    assert!(read_chunk(&JsonValue::Integer(3)).is_none());
}

#[test]
fn a_listing_round_trips_through_an_owned_body() {
    let listing = ModelListing::new("qwen".to_string(), Modality::default(), vec![]);
    let back = ModelsResponse::new(vec![listing]);
    assert_eq!(back.object, "list");
    assert_eq!(back.data[0].id, "qwen");
    assert_eq!(back.data[0].object, "model");
    assert_eq!(back.data[0].owned_by, "ananke");
    assert_eq!(back.data[0].created, 0);
    assert!(back.data[0].modality.is_chat());
    assert!(!Modality::Embedding.is_chat());
}

#[test]
fn event_state_changed_tag() {
    let v = Event::StateChanged {
        service: "demo".to_string(),
        from: "idle".to_string(),
        to: "starting".to_string(),
        at_ms: 1,
    };
    assert_eq!(v.tag(), "state_changed");
    assert!(matches!(&v, Event::StateChanged { service, .. } if service == "demo"));
    assert_eq!(v.at_ms(), Some(1));
    let held = Event::AllocationChanged {
        service: "demo".to_string(),
        reservations: TextMap::new(),
        at_ms: 2,
    };
    assert_eq!(held.tag(), "allocation_changed");
    assert_eq!(Event::Overflow { dropped: 3 }.at_ms(), None);
}

#[test]
fn start_response_tagged_union() {
    let v = StartResponse::Unavailable {
        error: ApiErrorBody {
            code: ApiErrorCodeSlug::InsufficientCapacity,
            message: "no fit".into(),
            kind: ApiErrorKind::ServerError,
        },
    };
    assert_eq!(v.status(), "unavailable");
    let StartResponse::Unavailable { error } = v else {
        panic!("expected an error");
    };
    assert_eq!(error.code.slug(), "insufficient_capacity");
    assert_eq!(error.message, "no fit");
    assert_eq!(error.kind.slug(), "server_error");
    assert_eq!(StartResponse::Started { run_id: 1 }.status(), "started");
    assert_eq!(StartResponse::QueueFull.status(), "queue_full");
    assert_eq!(StartResponse::AlreadyRunning.status(), "already_running");
}

#[test]
fn stop_response_tagged_union() {
    assert_eq!(StopResponse::Drained.status(), "drained");
    assert_eq!(StopResponse::NotRunning.status(), "not_running");
}

#[test]
fn enable_response_tagged_union() {
    assert_eq!(EnableResponse::NotDisabled.status(), "not_disabled");
    assert_eq!(EnableResponse::Enabled.status(), "enabled");
    assert_eq!(EnableResponse::AlreadyEnabled.status(), "already_enabled");
}

#[test]
fn disable_response_tagged_union() {
    assert_eq!(DisableResponse::Disabled.status(), "disabled");
    assert_eq!(DisableResponse::AlreadyDisabled.status(), "already_disabled");
}

#[test]
fn error_slug_serde_roundtrips() {
    let cases = [
        (ApiErrorCodeSlug::ModelNotFound, "model_not_found"),
        (ApiErrorCodeSlug::ServiceNotFound, "service_not_found"),
        (ApiErrorCodeSlug::ServiceDisabled, "service_disabled"),
        (ApiErrorCodeSlug::StartQueueFull, "start_queue_full"),
        (ApiErrorCodeSlug::StartFailed, "start_failed"),
        (
            ApiErrorCodeSlug::InsufficientCapacity,
            "insufficient_capacity",
        ),
        (ApiErrorCodeSlug::ServiceBlocked, "service_blocked"),
        (
            ApiErrorCodeSlug::UpstreamUnavailable,
            "upstream_unavailable",
        ),
        (ApiErrorCodeSlug::ProxyInternal, "proxy_internal"),
        (ApiErrorCodeSlug::NotImplemented, "not_implemented"),
        (ApiErrorCodeSlug::InvalidCursor, "invalid_cursor"),
        (ApiErrorCodeSlug::IfMatchRequired, "if_match_required"),
        (ApiErrorCodeSlug::HashMismatch, "hash_mismatch"),
        (ApiErrorCodeSlug::PersistFailed, "persist_failed"),
    ];
    for (variant, expected) in cases {
        assert_eq!(variant.slug(), expected);
        assert_eq!(ApiErrorCodeSlug::from_slug(expected), variant);
    }
}

#[test]
fn error_slug_invalid_request_renamed() {
    assert_eq!(
        ApiErrorCodeSlug::InvalidRequest.slug(),
        "invalid_request_error"
    );
    assert_eq!(
        ApiErrorCodeSlug::from_slug("invalid_request_error"),
        ApiErrorCodeSlug::InvalidRequest
    );
}

#[test]
fn error_slug_other_fallback() {
    assert_eq!(
        ApiErrorCodeSlug::from_slug("totally_new_error"),
        ApiErrorCodeSlug::Other
    );
}

#[test]
fn error_kind_serde() {
    assert_eq!(ApiErrorKind::ServerError.slug(), "server_error");
    assert_eq!(
        ApiErrorKind::from_slug("invalid_request_error"),
        ApiErrorKind::InvalidRequestError
    );
    assert_eq!(
        ApiErrorKind::from_slug("server_error"),
        ApiErrorKind::ServerError
    );
    assert_eq!(ApiErrorKind::from_slug("unknown_kind"), ApiErrorKind::Other);
}

#[test]
fn error_slug_display_matches_serialisation() {
    assert_eq!(
        ApiErrorCodeSlug::InsufficientCapacity.slug(),
        "insufficient_capacity"
    );
    assert_eq!(
        ApiErrorCodeSlug::InvalidRequest.slug(),
        "invalid_request_error"
    );
    assert_eq!(ApiErrorKind::ServerError.slug(), "server_error");
}

#[test]
fn restarts_are_told_with_their_service() {
    let rows = vec![(
        "demo".to_string(),
        ServiceRestart {
            restart_id: 1,
            service_id: 2,
            run_id: Some(3),
            at_ms: 4,
            trigger: "periodic".to_string(),
            detail: "due".to_string(),
        },
    )];
    let r = RestartsResponse::new(&rows);
    assert_eq!(r.restarts.len(), 1);
    assert_eq!(r.restarts[0].service, "demo");
    assert_eq!(r.restarts[0].at_ms, 4);
    assert_eq!(r.restarts[0].trigger, "periodic");
    assert_eq!(r.restarts[0].detail, "due");
    assert_eq!(r.restarts[0].run_id, Some(3));
}
