//! The failures that a request can end in, as they are reported to clients.

use vstd::prelude::*;
use vstd::string::*;
use crate::text::{optional_slice_text, optional_text};
use crate::tfl::{status_line, TflError, TflErrorView};

verus! {

/// HTTP status of a request that found no arrivals.
pub const STATUS_NO_CONTENT: u16 = 204;

/// HTTP status of a request that failed inside this service.
pub const STATUS_INTERNAL_SERVER_ERROR: u16 = 500;

/// HTTP status of a request that failed at the provider.
pub const STATUS_BAD_GATEWAY: u16 = 502;

/// The body of a failed request: a stable identifier of the kind of
/// failure, a message for people, and details where there are any.
#[derive(Debug, PartialEq, Eq)]
pub struct ErrorResponse {
    pub error: String,
    pub message: String,
    pub details: Option<String>,
}

/// What an `ErrorResponse` holds, as plain values.
pub ghost struct ErrorText {
    pub error: Seq<char>,
    pub message: Seq<char>,
    pub details: Option<Seq<char>>,
}

impl View for ErrorResponse {
    type V = ErrorText;

    open spec fn view(&self) -> ErrorText {
        ErrorText { error: self.error@, message: self.message@, details: optional_text(self.details) }
    }
}

/// A failed request: the HTTP status to answer with, and the body.
#[derive(Debug, PartialEq, Eq)]
pub struct Failure {
    pub status: u16,
    pub body: ErrorResponse,
}

/// What a `Failure` holds, as plain values.
pub ghost struct FailureView {
    pub status: u16,
    pub body: ErrorText,
}

impl View for Failure {
    type V = FailureView;

    open spec fn view(&self) -> FailureView {
        FailureView { status: self.status, body: self.body@ }
    }
}

/// The body that reports a failed fetch from the provider, each kind of
/// failure under its own identifier. A refused request names the status and
/// carries the provider's body as details; an unreachable provider and an
/// undecodable body carry the cause.
pub open spec fn upstream_error_text(err: TflErrorView) -> ErrorText {
    match err {
        TflErrorView::UpstreamError(code, body) => refused_text(status_line(code), body),
        TflErrorView::Unreachable(cause) => ErrorText {
            error: "TFL_UNREACHABLE"@,
            message: "Failed to reach TfL"@,
            details: Some(cause),
        },
        TflErrorView::ParseError(cause) => ErrorText {
            error: "TFL_PARSE_ERROR"@,
            message: "Failed to parse TfL response JSON"@,
            details: Some(cause),
        },
    }
}

/// The body that reports a cache whose lock cannot be taken.
pub open spec fn cache_lock_text() -> ErrorText {
    ErrorText {
        error: "CACHE_LOCK_ERROR"@,
        message: "Failed to acquire cache lock"@,
        details: None,
    }
}

/// The body that reports that no arrival is left to show: it names the stop
/// and, where there is one, the route filter.
pub open spec fn no_arrivals_text(stop_id: Seq<char>, routes: Option<Seq<char>>) -> ErrorText {
    ErrorText {
        error: "NO_ARRIVALS"@,
        message: "No upcoming buses found for stop "@ + stop_id + match routes {
            Some(r) => " on route(s) "@ + r,
            None => Seq::empty(),
        },
        details: None,
    }
}

/// The body that reports a request that the provider refused, told from the
/// text of the status and the text of the provider's body.
pub open spec fn refused_text(status_text: Seq<char>, body: Seq<char>) -> ErrorText {
    ErrorText {
        error: "TFL_UPSTREAM_ERROR"@,
        message: "TfL returned HTTP "@ + status_text,
        details: Some(body),
    }
}

impl ErrorResponse {
    /// Reports a request that the provider refused: the message names the
    /// status by its text, `status_text`, and the details are the
    /// provider's body.
    pub fn refused(status_text: &str, body: String) -> (response: ErrorResponse)
        ensures
            response@ == refused_text(status_text@, body@),
    {
        let mut message = String::from_str("TfL returned HTTP ");
        message.append(status_text);
        ErrorResponse { error: String::from_str("TFL_UPSTREAM_ERROR"), message, details: Some(body) }
    }

    /// Reports a failed fetch from the provider.
    pub fn from_tfl_error(err: TflError) -> (body: ErrorResponse)
        ensures
            body@ == upstream_error_text(err@),
    {
        match err {
            TflError::UpstreamError(status, text) => {
                let line = status.to_text();
                ErrorResponse::refused(line.as_str(), text)
            },
            TflError::Unreachable(cause) => ErrorResponse {
                error: String::from_str("TFL_UNREACHABLE"),
                message: String::from_str("Failed to reach TfL"),
                details: Some(cause),
            },
            TflError::ParseError(cause) => ErrorResponse {
                error: String::from_str("TFL_PARSE_ERROR"),
                message: String::from_str("Failed to parse TfL response JSON"),
                details: Some(cause),
            },
        }
    }

    /// Reports a cache whose lock cannot be taken.
    pub fn cache_lock() -> (body: ErrorResponse)
        ensures
            body@ == cache_lock_text(),
    {
        ErrorResponse {
            error: String::from_str("CACHE_LOCK_ERROR"),
            message: String::from_str("Failed to acquire cache lock"),
            details: None,
        }
    }

    /// Reports that no arrival is left to show for the stop and the routes
    /// asked for.
    pub fn no_arrivals(stop_id: &str, routes: Option<&str>) -> (body: ErrorResponse)
        ensures
            body@ == no_arrivals_text(stop_id@, optional_slice_text(routes)),
    {
        let mut message = String::from_str("No upcoming buses found for stop ");
        message.append(stop_id);
        if let Some(r) = routes {
            message.append(" on route(s) ");
            message.append(r);
        }
        let body = ErrorResponse { error: String::from_str("NO_ARRIVALS"), message, details: None };
        assert(body@.message =~= no_arrivals_text(stop_id@, optional_slice_text(routes)).message);
        body
    }
}

impl Failure {
    /// A fetch from the provider failed: a bad gateway.
    pub fn upstream(err: TflError) -> (failure: Failure)
        ensures
            failure@ == (FailureView { status: STATUS_BAD_GATEWAY, body: upstream_error_text(err@) }),
    {
        Failure { status: STATUS_BAD_GATEWAY, body: ErrorResponse::from_tfl_error(err) }
    }

    /// The lock of the cache cannot be taken: an internal fault.
    pub fn cache_lock() -> (failure: Failure)
        ensures
            failure@ == (FailureView { status: STATUS_INTERNAL_SERVER_ERROR, body: cache_lock_text() }),
    {
        Failure { status: STATUS_INTERNAL_SERVER_ERROR, body: ErrorResponse::cache_lock() }
    }

    /// No arrival is left to show: no content.
    pub fn no_arrivals(stop_id: &str, routes: Option<&str>) -> (failure: Failure)
        ensures
            failure@ == (FailureView {
                status: STATUS_NO_CONTENT,
                body: no_arrivals_text(stop_id@, optional_slice_text(routes)),
            }),
    {
        Failure { status: STATUS_NO_CONTENT, body: ErrorResponse::no_arrivals(stop_id, routes) }
    }
}

} // verus!
