//! Errors as clients see them.

use crate::text;
use vstd::prelude::*;

verus! {

/// What went wrong.
#[derive(Debug, Clone, Copy, PartialEq, Eq, Structural)]
pub enum ApiErrorCodeSlug {
    ModelNotFound,
    ServiceNotFound,
    ServiceDisabled,
    StartQueueFull,
    StartFailed,
    InsufficientCapacity,
    ServiceBlocked,
    UpstreamUnavailable,
    ProxyInternal,
    NotImplemented,
    InvalidCursor,
    IfMatchRequired,
    HashMismatch,
    PersistFailed,
    InvalidRequest,
    /// Something this version does not know.
    Other,
}

impl ApiErrorCodeSlug {
    /// The word it is written as.
    pub open spec fn word(self) -> Seq<char> {
        match self {
            ApiErrorCodeSlug::ModelNotFound => "model_not_found"@,
            ApiErrorCodeSlug::ServiceNotFound => "service_not_found"@,
            ApiErrorCodeSlug::ServiceDisabled => "service_disabled"@,
            ApiErrorCodeSlug::StartQueueFull => "start_queue_full"@,
            ApiErrorCodeSlug::StartFailed => "start_failed"@,
            ApiErrorCodeSlug::InsufficientCapacity => "insufficient_capacity"@,
            ApiErrorCodeSlug::ServiceBlocked => "service_blocked"@,
            ApiErrorCodeSlug::UpstreamUnavailable => "upstream_unavailable"@,
            ApiErrorCodeSlug::ProxyInternal => "proxy_internal"@,
            ApiErrorCodeSlug::NotImplemented => "not_implemented"@,
            ApiErrorCodeSlug::InvalidCursor => "invalid_cursor"@,
            ApiErrorCodeSlug::IfMatchRequired => "if_match_required"@,
            ApiErrorCodeSlug::HashMismatch => "hash_mismatch"@,
            ApiErrorCodeSlug::PersistFailed => "persist_failed"@,
            ApiErrorCodeSlug::InvalidRequest => "invalid_request_error"@,
            ApiErrorCodeSlug::Other => "other"@,
        }
    }

    /// The word it is written as.
    pub fn slug(self) -> (r: &'static str)
        ensures
            r@ == self.word(),
    {
        match self {
            ApiErrorCodeSlug::ModelNotFound => "model_not_found",
            ApiErrorCodeSlug::ServiceNotFound => "service_not_found",
            ApiErrorCodeSlug::ServiceDisabled => "service_disabled",
            ApiErrorCodeSlug::StartQueueFull => "start_queue_full",
            ApiErrorCodeSlug::StartFailed => "start_failed",
            ApiErrorCodeSlug::InsufficientCapacity => "insufficient_capacity",
            ApiErrorCodeSlug::ServiceBlocked => "service_blocked",
            ApiErrorCodeSlug::UpstreamUnavailable => "upstream_unavailable",
            ApiErrorCodeSlug::ProxyInternal => "proxy_internal",
            ApiErrorCodeSlug::NotImplemented => "not_implemented",
            ApiErrorCodeSlug::InvalidCursor => "invalid_cursor",
            ApiErrorCodeSlug::IfMatchRequired => "if_match_required",
            ApiErrorCodeSlug::HashMismatch => "hash_mismatch",
            ApiErrorCodeSlug::PersistFailed => "persist_failed",
            ApiErrorCodeSlug::InvalidRequest => "invalid_request_error",
            ApiErrorCodeSlug::Other => "other",
        }
    }

    /// What a word stands for. An unknown one stands for `Other`.
    pub open spec fn meant_by(word: Seq<char>) -> Self {
        if word == "model_not_found"@ {
            ApiErrorCodeSlug::ModelNotFound
        } else if word == "service_not_found"@ {
            ApiErrorCodeSlug::ServiceNotFound
        } else if word == "service_disabled"@ {
            ApiErrorCodeSlug::ServiceDisabled
        } else if word == "start_queue_full"@ {
            ApiErrorCodeSlug::StartQueueFull
        } else if word == "start_failed"@ {
            ApiErrorCodeSlug::StartFailed
        } else if word == "insufficient_capacity"@ {
            ApiErrorCodeSlug::InsufficientCapacity
        } else if word == "service_blocked"@ {
            ApiErrorCodeSlug::ServiceBlocked
        } else if word == "upstream_unavailable"@ {
            ApiErrorCodeSlug::UpstreamUnavailable
        } else if word == "proxy_internal"@ {
            ApiErrorCodeSlug::ProxyInternal
        } else if word == "not_implemented"@ {
            ApiErrorCodeSlug::NotImplemented
        } else if word == "invalid_cursor"@ {
            ApiErrorCodeSlug::InvalidCursor
        } else if word == "if_match_required"@ {
            ApiErrorCodeSlug::IfMatchRequired
        } else if word == "hash_mismatch"@ {
            ApiErrorCodeSlug::HashMismatch
        } else if word == "persist_failed"@ {
            ApiErrorCodeSlug::PersistFailed
        } else if word == "invalid_request_error"@ {
            ApiErrorCodeSlug::InvalidRequest
        } else {
            ApiErrorCodeSlug::Other
        }
    }

    /// What a word stands for. An unknown one stands for `Other`.
    pub fn from_slug(word: &str) -> (r: Self)
        ensures
            r == Self::meant_by(word@),
    {
        if text::same(word, "model_not_found") {
            ApiErrorCodeSlug::ModelNotFound
        } else if text::same(word, "service_not_found") {
            ApiErrorCodeSlug::ServiceNotFound
        } else if text::same(word, "service_disabled") {
            ApiErrorCodeSlug::ServiceDisabled
        } else if text::same(word, "start_queue_full") {
            ApiErrorCodeSlug::StartQueueFull
        } else if text::same(word, "start_failed") {
            ApiErrorCodeSlug::StartFailed
        } else if text::same(word, "insufficient_capacity") {
            ApiErrorCodeSlug::InsufficientCapacity
        } else if text::same(word, "service_blocked") {
            ApiErrorCodeSlug::ServiceBlocked
        } else if text::same(word, "upstream_unavailable") {
            ApiErrorCodeSlug::UpstreamUnavailable
        } else if text::same(word, "proxy_internal") {
            ApiErrorCodeSlug::ProxyInternal
        } else if text::same(word, "not_implemented") {
            ApiErrorCodeSlug::NotImplemented
        } else if text::same(word, "invalid_cursor") {
            ApiErrorCodeSlug::InvalidCursor
        } else if text::same(word, "if_match_required") {
            ApiErrorCodeSlug::IfMatchRequired
        } else if text::same(word, "hash_mismatch") {
            ApiErrorCodeSlug::HashMismatch
        } else if text::same(word, "persist_failed") {
            ApiErrorCodeSlug::PersistFailed
        } else if text::same(word, "invalid_request_error") {
            ApiErrorCodeSlug::InvalidRequest
        } else {
            ApiErrorCodeSlug::Other
        }
    }
}

/// ApiErrorCodeSlug survives being written and read.
pub proof fn lemma_code_survives_the_wire(x: ApiErrorCodeSlug)
    ensures
        ApiErrorCodeSlug::meant_by(x.word()) == x,
{
    reveal_strlit("model_not_found");
    assert("model_not_found"@.len() == 15 && "model_not_found"@[2] == 'd');
    reveal_strlit("service_not_found");
    assert("service_not_found"@.len() == 17 && "service_not_found"@[2] == 'r');
    reveal_strlit("service_disabled");
    assert("service_disabled"@.len() == 16 && "service_disabled"@[2] == 'r');
    reveal_strlit("start_queue_full");
    assert("start_queue_full"@.len() == 16 && "start_queue_full"@[2] == 'a');
    reveal_strlit("start_failed");
    assert("start_failed"@.len() == 12 && "start_failed"@[2] == 'a');
    reveal_strlit("insufficient_capacity");
    assert("insufficient_capacity"@.len() == 21 && "insufficient_capacity"@[2] == 's');
    reveal_strlit("service_blocked");
    assert("service_blocked"@.len() == 15 && "service_blocked"@[2] == 'r');
    reveal_strlit("upstream_unavailable");
    assert("upstream_unavailable"@.len() == 20 && "upstream_unavailable"@[2] == 's');
    reveal_strlit("proxy_internal");
    assert("proxy_internal"@.len() == 14 && "proxy_internal"@[2] == 'o');
    reveal_strlit("not_implemented");
    assert("not_implemented"@.len() == 15 && "not_implemented"@[2] == 't');
    reveal_strlit("invalid_cursor");
    assert("invalid_cursor"@.len() == 14 && "invalid_cursor"@[2] == 'v');
    reveal_strlit("if_match_required");
    assert("if_match_required"@.len() == 17 && "if_match_required"@[2] == '_');
    reveal_strlit("hash_mismatch");
    assert("hash_mismatch"@.len() == 13 && "hash_mismatch"@[2] == 's');
    reveal_strlit("persist_failed");
    assert("persist_failed"@.len() == 14 && "persist_failed"@[2] == 'r');
    reveal_strlit("invalid_request_error");
    assert("invalid_request_error"@.len() == 21 && "invalid_request_error"@[2] == 'v');
    reveal_strlit("other");
    assert("other"@.len() == 5 && "other"@[2] == 'h');
}

/// Whose fault it was.
#[derive(Debug, Clone, Copy, PartialEq, Eq, Structural)]
pub enum ApiErrorKind {
    ServerError,
    InvalidRequestError,
    /// Something this version does not know.
    Other,
}

impl ApiErrorKind {
    /// The word it is written as.
    pub open spec fn word(self) -> Seq<char> {
        match self {
            ApiErrorKind::ServerError => "server_error"@,
            ApiErrorKind::InvalidRequestError => "invalid_request_error"@,
            ApiErrorKind::Other => "other"@,
        }
    }

    /// The word it is written as.
    pub fn slug(self) -> (r: &'static str)
        ensures
            r@ == self.word(),
    {
        match self {
            ApiErrorKind::ServerError => "server_error",
            ApiErrorKind::InvalidRequestError => "invalid_request_error",
            ApiErrorKind::Other => "other",
        }
    }

    /// What a word stands for. An unknown one stands for `Other`.
    pub open spec fn meant_by(word: Seq<char>) -> Self {
        if word == "server_error"@ {
            ApiErrorKind::ServerError
        } else if word == "invalid_request_error"@ {
            ApiErrorKind::InvalidRequestError
        } else {
            ApiErrorKind::Other
        }
    }

    /// What a word stands for. An unknown one stands for `Other`.
    pub fn from_slug(word: &str) -> (r: Self)
        ensures
            r == Self::meant_by(word@),
    {
        if text::same(word, "server_error") {
            ApiErrorKind::ServerError
        } else if text::same(word, "invalid_request_error") {
            ApiErrorKind::InvalidRequestError
        } else {
            ApiErrorKind::Other
        }
    }
}

/// ApiErrorKind survives being written and read.
pub proof fn lemma_kind_survives_the_wire(x: ApiErrorKind)
    ensures
        ApiErrorKind::meant_by(x.word()) == x,
{
    reveal_strlit("server_error");
    assert("server_error"@.len() == 12 && "server_error"@[2] == 'r');
    reveal_strlit("invalid_request_error");
    assert("invalid_request_error"@.len() == 21 && "invalid_request_error"@[2] == 'v');
    reveal_strlit("other");
    assert("other"@.len() == 5 && "other"@[2] == 'h');
}

/// An error as clients see it.
#[derive(Debug, PartialEq, Eq)]
pub struct ApiErrorBody {
    /// What went wrong.
    pub code: ApiErrorCodeSlug,
    /// In words.
    pub message: String,
    /// Whose fault it was.
    pub kind: ApiErrorKind,
}

} // verus!
