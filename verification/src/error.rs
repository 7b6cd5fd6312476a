//! Gateway errors: their kinds, which kinds are retryable by default, how an
//! HTTP status from a backend becomes an error, and how an error reads.
use vstd::prelude::*;

use crate::text::{concat, decimal, decimal_seq, take_chars};

verus! {

#[derive(Debug, Clone, Copy, PartialEq, Eq, Structural)]
pub enum GatewayErrorKind {
    InvalidRequest,
    UnsupportedCapability,
    Authentication,
    Authorization,
    RateLimited,
    Timeout,
    CircuitOpen,
    BudgetExceeded,
    BackendTransient,
    BackendPermanent,
    ProtocolViolation,
    Internal,
}

#[derive(Debug)]
pub struct GatewayError {
    pub kind: GatewayErrorKind,
    pub message: String,
    pub retryable: bool,
    pub backend_id: Option<String>,
    pub provider_code: Option<String>,
    pub provider_http_status: Option<u16>,
}

/// Kinds that a caller may retry unless told otherwise.
pub open spec fn retryable_by_default(kind: GatewayErrorKind) -> bool {
    ||| kind == GatewayErrorKind::RateLimited
    ||| kind == GatewayErrorKind::Timeout
    ||| kind == GatewayErrorKind::BackendTransient
}

/// The view of an optional text.
pub open spec fn opt_view(o: Option<String>) -> Option<Seq<char>> {
    match o {
        Some(s) => Some(s@),
        None => None,
    }
}

/// A fresh error of `kind` with `message`, no backend attribution, and the
/// retry flag its kind has by default.
pub open spec fn fresh_error(err: GatewayError, kind: GatewayErrorKind, message: Seq<char>) -> bool {
    &&& err.kind == kind
    &&& err.message@ == message
    &&& err.retryable == retryable_by_default(kind)
    &&& err.backend_id is None
    &&& err.provider_code is None
    &&& err.provider_http_status is None
}

/// A non-retryable error of `kind` with `message` and nothing else set.
pub open spec fn plain_error(err: GatewayError, kind: GatewayErrorKind, message: Seq<char>) -> bool {
    &&& err.kind == kind
    &&& err.message@ == message
    &&& !err.retryable
    &&& err.backend_id is None
    &&& err.provider_code is None
    &&& err.provider_http_status is None
}

impl GatewayError {
    pub fn duplicate(&self) -> (r: GatewayError)
        ensures
            r == *self,
    {
        GatewayError {
            kind: self.kind,
            message: self.message.clone(),
            retryable: self.retryable,
            backend_id: match &self.backend_id {
                Some(s) => Some(s.clone()),
                None => None,
            },
            provider_code: match &self.provider_code {
                Some(s) => Some(s.clone()),
                None => None,
            },
            provider_http_status: self.provider_http_status,
        }
    }

    pub fn new(kind: GatewayErrorKind, message: &str) -> (err: GatewayError)
        ensures
            fresh_error(err, kind, message@),
    {
        let retryable = match kind {
            GatewayErrorKind::RateLimited
            | GatewayErrorKind::Timeout
            | GatewayErrorKind::BackendTransient => true,
            _ => false,
        };
        GatewayError {
            kind,
            message: String::from_str(message),
            retryable,
            backend_id: None,
            provider_code: None,
            provider_http_status: None,
        }
    }

    pub fn with_retryable(self, retryable: bool) -> (err: GatewayError)
        ensures
            err == (GatewayError { retryable, ..self }),
    {
        GatewayError { retryable, ..self }
    }

    pub fn with_backend_id(self, backend_id: &str) -> (err: GatewayError)
        ensures
            err.kind == self.kind,
            err.message == self.message,
            err.retryable == self.retryable,
            opt_view(err.backend_id) == Some(backend_id@),
            err.provider_code == self.provider_code,
            err.provider_http_status == self.provider_http_status,
    {
        GatewayError { backend_id: Some(String::from_str(backend_id)), ..self }
    }

    pub fn with_provider_code(self, provider_code: &str) -> (err: GatewayError)
        ensures
            err.kind == self.kind,
            err.message == self.message,
            err.retryable == self.retryable,
            err.backend_id == self.backend_id,
            opt_view(err.provider_code) == Some(provider_code@),
            err.provider_http_status == self.provider_http_status,
    {
        GatewayError { provider_code: Some(String::from_str(provider_code)), ..self }
    }

    pub fn with_provider_http_status(self, status: u16) -> (err: GatewayError)
        ensures
            err == (GatewayError { provider_http_status: Some(status), ..self }),
    {
        GatewayError { provider_http_status: Some(status), ..self }
    }

    /// How the error reads: the message, followed by the backend and the
    /// provider code in brackets where they are known.
    pub fn to_display_string(&self) -> (s: String)
        ensures
            s@ == display_seq(*self),
    {
        let mut out = String::from_str(self.message.as_str());
        match (&self.backend_id, &self.provider_code) {
            (Some(backend_id), Some(provider_code)) => {
                out.append(" (backend=");
                out.append(backend_id.as_str());
                out.append(", provider_code=");
                out.append(provider_code.as_str());
                out.append(")");
            },
            (Some(backend_id), None) => {
                out.append(" (backend=");
                out.append(backend_id.as_str());
                out.append(")");
            },
            (None, Some(provider_code)) => {
                out.append(" (provider_code=");
                out.append(provider_code.as_str());
                out.append(")");
            },
            (None, None) => {},
        }
        out
    }
}

/// The text of an error, as its `Display` writes it.
pub open spec fn display_seq(err: GatewayError) -> Seq<char> {
    match (err.backend_id, err.provider_code) {
        (Some(b), Some(p)) => err.message@ + " (backend="@ + b@ + ", provider_code="@ + p@ + ")"@,
        (Some(b), None) => err.message@ + " (backend="@ + b@ + ")"@,
        (None, Some(p)) => err.message@ + " (provider_code="@ + p@ + ")"@,
        (None, None) => err.message@,
    }
}

pub fn invalid_request(message: &str) -> (err: GatewayError)
    ensures
        plain_error(err, GatewayErrorKind::InvalidRequest, message@),
{
    GatewayError::new(GatewayErrorKind::InvalidRequest, message).with_retryable(false)
}

pub fn unsupported_capability(message: &str) -> (err: GatewayError)
    ensures
        plain_error(err, GatewayErrorKind::UnsupportedCapability, message@),
{
    GatewayError::new(GatewayErrorKind::UnsupportedCapability, message).with_retryable(false)
}

pub fn internal_error(message: &str) -> (err: GatewayError)
    ensures
        plain_error(err, GatewayErrorKind::Internal, message@),
{
    GatewayError::new(GatewayErrorKind::Internal, message).with_retryable(false)
}

/// A non-retryable error of `kind` with `message` and nothing else set.
pub fn plain(kind: GatewayErrorKind, message: &str) -> (err: GatewayError)
    ensures
        plain_error(err, kind, message@),
{
    GatewayError::new(kind, message).with_retryable(false)
}

/// The kind of error an HTTP status from a backend stands for.
pub open spec fn http_error_kind(status: u16) -> GatewayErrorKind {
    if status == 401 {
        GatewayErrorKind::Authentication
    } else if status == 403 {
        GatewayErrorKind::Authorization
    } else if status == 408 || status == 429 {
        GatewayErrorKind::RateLimited
    } else if 400 <= status < 500 {
        GatewayErrorKind::InvalidRequest
    } else {
        GatewayErrorKind::BackendTransient
    }
}

/// Whether a request may be retried after that HTTP status.
pub open spec fn http_error_retryable(status: u16) -> bool {
    status == 408 || status == 429 || !(400 <= status < 500)
}

/// The message an HTTP status gets before the body is added.
pub open spec fn http_error_base_message(status: u16) -> Seq<char> {
    if status == 401 {
        "authentication failed"@
    } else if status == 403 {
        "authorization failed"@
    } else {
        "backend returned status "@ + decimal_seq(status as nat)
    }
}

/// At most the first 240 characters of a response body.
pub open spec fn body_excerpt(body: Seq<char>) -> Seq<char> {
    if body.len() <= 240 {
        body
    } else {
        body.subrange(0, 240)
    }
}

/// The full message: the base message, then `": "` and the body excerpt
/// when the body is not empty.
pub open spec fn http_error_message(status: u16, body: Seq<char>) -> Seq<char> {
    if body.len() == 0 {
        http_error_base_message(status)
    } else {
        http_error_base_message(status) + ": "@ + body_excerpt(body)
    }
}

/// Maps an HTTP status and response body from a backend to an error.
pub fn map_http_error(status: u16, backend_id: &str, body: &str) -> (err: GatewayError)
    ensures
        err.kind == http_error_kind(status),
        err.retryable == http_error_retryable(status),
        status == 408 ==> err.kind == GatewayErrorKind::RateLimited && err.retryable,
        status == 429 ==> err.kind == GatewayErrorKind::RateLimited && err.retryable,
        err.message@ == http_error_message(status, body@),
        opt_view(err.backend_id) == Some(backend_id@),
        err.provider_code is None,
        err.provider_http_status == Some(status),
{
    let excerpt = take_chars(body, 240);
    let base = if status == 401 {
        String::from_str("authentication failed")
    } else if status == 403 {
        String::from_str("authorization failed")
    } else {
        concat("backend returned status ", decimal(status as u64).as_str())
    };
    let kind = if status == 401 {
        GatewayErrorKind::Authentication
    } else if status == 403 {
        GatewayErrorKind::Authorization
    } else if status == 408 || status == 429 {
        GatewayErrorKind::RateLimited
    } else if 400 <= status && status < 500 {
        GatewayErrorKind::InvalidRequest
    } else {
        GatewayErrorKind::BackendTransient
    };
    let retryable = status == 408 || status == 429 || !(400 <= status && status < 500);
    let message = if excerpt.as_str().unicode_len() == 0 {
        base
    } else {
        let mut m = base;
        m.append(": ");
        m.append(excerpt.as_str());
        m
    };
    proof {
        if body@.len() > 0 {
            assert(excerpt@.len() > 0);
        }
    }
    GatewayError {
        kind,
        message,
        retryable,
        backend_id: Some(String::from_str(backend_id)),
        provider_code: None,
        provider_http_status: Some(status),
    }
}

/// Law: how an HTTP status from a backend is classified. A request
/// timeout (408) is treated as a rate limit (429), retryable; 401 and 403
/// are authentication and authorization failures, not retryable; any other
/// 4xx status is an invalid request, not retryable; every status outside
/// 4xx is a transient backend failure, retryable. Throughout, an error is
/// retryable exactly when its kind is retryable by default.
pub proof fn lemma_http_status_classification(status: u16)
    ensures
        http_error_retryable(status) == retryable_by_default(http_error_kind(status)),
        http_error_kind(408) == http_error_kind(429),
        http_error_kind(408) == GatewayErrorKind::RateLimited,
        http_error_retryable(408) && http_error_retryable(429),
        http_error_kind(401) == GatewayErrorKind::Authentication && !http_error_retryable(401),
        http_error_kind(403) == GatewayErrorKind::Authorization && !http_error_retryable(403),
        400 <= status < 500 && status != 401 && status != 403 && status != 408 && status != 429
            ==> http_error_kind(status) == GatewayErrorKind::InvalidRequest && !http_error_retryable(status),
        !(400 <= status < 500) ==> http_error_kind(status) == GatewayErrorKind::BackendTransient
            && http_error_retryable(status),
{
}

} // verus!
