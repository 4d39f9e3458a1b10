//! What a client is told when a request could not be passed on.
use vstd::prelude::*;
use crate::gateway::headers::{normalize_status_code, proper_status};
use crate::gateway::outside::{canonical_reason, is_status_code, reason_phrase};
use crate::text::{decimal, decimal_text, opt_str};

verus! {

/// What went wrong.
#[derive(Debug, Clone, Copy, PartialEq, Eq, Structural)]
pub enum ErrorKind {
    RouteNotMatched,
    NoUpstreamTargets,
    PathRewriteFailed,
    TrailingSlashRedirect,
    HttpStatus(u16),
    ConnectTimedout,
    TlsHandshakeTimedout,
    ReadTimedout,
    WriteTimedout,
    ConnectRefused,
    ConnectNoRoute,
    ConnectError,
    SocketError,
    ConnectProxyFailure,
    TlsHandshakeFailure,
    InvalidCert,
    HandshakeError,
    TlsWantX509Lookup,
    InvalidHttpHeader,
    H1Error,
    H2Error,
    InvalidH2,
    H2Downgrade,
    ReadError,
    WriteError,
    ConnectionClosed,
    Unlisted,
}

/// On which side it went wrong.
#[derive(Debug, Clone, Copy, PartialEq, Eq, Structural)]
pub enum ErrorSource {
    Upstream,
    Downstream,
    Internal,
    Unset,
}

#[derive(Debug, Clone, Copy, PartialEq, Eq, Structural)]
pub struct ProxyError {
    pub kind: ErrorKind,
    pub source: ErrorSource,
}

/// What a client is told. A status code of zero stands for no answer at all.
#[derive(Debug, Clone, Copy, PartialEq, Eq)]
pub struct GatewayErrorResponse {
    pub status_code: u16,
    pub reason_code: &'static str,
    pub user_message: &'static str,
}

pub struct ResponseText {
    pub status_code: u16,
    pub reason_code: Seq<char>,
    pub user_message: Seq<char>,
}

impl View for GatewayErrorResponse {
    type V = ResponseText;

    open spec fn view(&self) -> ResponseText {
        ResponseText {
            status_code: self.status_code,
            reason_code: self.reason_code@,
            user_message: self.user_message@,
        }
    }
}

pub open spec fn response(code: u16, reason: Seq<char>, message: Seq<char>) -> ResponseText {
    ResponseText { status_code: code, reason_code: reason, user_message: message }
}

/// No rule is for the request.
pub fn route_not_matched_error() -> (r: ProxyError)
    ensures
        r.kind is RouteNotMatched,
        r.source is Internal,
{
    ProxyError { kind: ErrorKind::RouteNotMatched, source: ErrorSource::Internal }
}

/// The rule for the request has no targets.
pub fn no_upstream_targets_error() -> (r: ProxyError)
    ensures
        r.kind is NoUpstreamTargets,
        r.source is Internal,
{
    ProxyError { kind: ErrorKind::NoUpstreamTargets, source: ErrorSource::Internal }
}

/// The request target could not be changed.
pub fn path_rewrite_failed_error() -> (r: ProxyError)
    ensures
        r.kind is PathRewriteFailed,
        r.source is Internal,
{
    ProxyError { kind: ErrorKind::PathRewriteFailed, source: ErrorSource::Internal }
}

/// The client is sent to the path with a slash behind it.
pub fn trailing_slash_redirect_error() -> (r: ProxyError)
    ensures
        r.kind is TrailingSlashRedirect,
        r.source is Internal,
{
    ProxyError { kind: ErrorKind::TrailingSlashRedirect, source: ErrorSource::Internal }
}

pub fn is_trailing_slash_redirect_error(error: &ProxyError) -> (r: bool)
    ensures
        r == (error.kind is TrailingSlashRedirect),
{
    error.kind == ErrorKind::TrailingSlashRedirect
}

/// What a client is told when the upstream failed.
pub open spec fn upstream_response(kind: ErrorKind) -> ResponseText {
    match kind {
        ErrorKind::ConnectTimedout => upstream_timeout(),
        ErrorKind::TlsHandshakeTimedout => upstream_timeout(),
        ErrorKind::ReadTimedout => upstream_timeout(),
        ErrorKind::WriteTimedout => upstream_timeout(),
        ErrorKind::ConnectRefused => response(
            503,
            "upstream_connect_refused"@,
            "The upstream service refused the connection."@,
        ),
        ErrorKind::ConnectNoRoute => response(
            503,
            "upstream_no_route"@,
            "The upstream service is unreachable on the network."@,
        ),
        ErrorKind::ConnectError => upstream_unconnected(),
        ErrorKind::SocketError => upstream_unconnected(),
        ErrorKind::ConnectProxyFailure => upstream_unconnected(),
        ErrorKind::TlsHandshakeFailure => upstream_tls(),
        ErrorKind::InvalidCert => upstream_tls(),
        ErrorKind::HandshakeError => upstream_tls(),
        ErrorKind::TlsWantX509Lookup => upstream_tls(),
        ErrorKind::InvalidHttpHeader => upstream_malformed(),
        ErrorKind::H1Error => upstream_malformed(),
        ErrorKind::H2Error => upstream_malformed(),
        ErrorKind::InvalidH2 => upstream_malformed(),
        ErrorKind::H2Downgrade => upstream_malformed(),
        ErrorKind::ReadError => upstream_closed(),
        ErrorKind::WriteError => upstream_closed(),
        ErrorKind::ConnectionClosed => upstream_closed(),
        _ => response(
            502,
            "upstream_error"@,
            "The gateway could not complete the upstream request."@,
        ),
    }
}

pub open spec fn upstream_timeout() -> ResponseText {
    response(504, "upstream_timeout"@, "The upstream service timed out."@)
}

pub open spec fn upstream_unconnected() -> ResponseText {
    response(
        503,
        "upstream_connect_failed"@,
        "The gateway could not connect to the upstream service."@,
    )
}

pub open spec fn upstream_tls() -> ResponseText {
    response(502, "upstream_tls_failed"@, "The upstream TLS handshake failed."@)
}

pub open spec fn upstream_malformed() -> ResponseText {
    response(
        502,
        "upstream_invalid_response"@,
        "The upstream service returned an invalid HTTP response."@,
    )
}

pub open spec fn upstream_closed() -> ResponseText {
    response(502, "upstream_io_failed"@, "The upstream connection closed unexpectedly."@)
}

fn classify_upstream_error(kind: ErrorKind) -> (r: GatewayErrorResponse)
    ensures
        r@ == upstream_response(kind),
{
    match kind {
        ErrorKind::ConnectTimedout
        | ErrorKind::TlsHandshakeTimedout
        | ErrorKind::ReadTimedout
        | ErrorKind::WriteTimedout => GatewayErrorResponse {
            status_code: 504,
            reason_code: "upstream_timeout",
            user_message: "The upstream service timed out.",
        },
        ErrorKind::ConnectRefused => GatewayErrorResponse {
            status_code: 503,
            reason_code: "upstream_connect_refused",
            user_message: "The upstream service refused the connection.",
        },
        ErrorKind::ConnectNoRoute => GatewayErrorResponse {
            status_code: 503,
            reason_code: "upstream_no_route",
            user_message: "The upstream service is unreachable on the network.",
        },
        ErrorKind::ConnectError | ErrorKind::SocketError | ErrorKind::ConnectProxyFailure =>
        GatewayErrorResponse {
            status_code: 503,
            reason_code: "upstream_connect_failed",
            user_message: "The gateway could not connect to the upstream service.",
        },
        ErrorKind::TlsHandshakeFailure
        | ErrorKind::InvalidCert
        | ErrorKind::HandshakeError
        | ErrorKind::TlsWantX509Lookup => GatewayErrorResponse {
            status_code: 502,
            reason_code: "upstream_tls_failed",
            user_message: "The upstream TLS handshake failed.",
        },
        ErrorKind::InvalidHttpHeader
        | ErrorKind::H1Error
        | ErrorKind::H2Error
        | ErrorKind::InvalidH2
        | ErrorKind::H2Downgrade => GatewayErrorResponse {
            status_code: 502,
            reason_code: "upstream_invalid_response",
            user_message: "The upstream service returned an invalid HTTP response.",
        },
        ErrorKind::ReadError | ErrorKind::WriteError | ErrorKind::ConnectionClosed =>
        GatewayErrorResponse {
            status_code: 502,
            reason_code: "upstream_io_failed",
            user_message: "The upstream connection closed unexpectedly.",
        },
        _ => GatewayErrorResponse {
            status_code: 502,
            reason_code: "upstream_error",
            user_message: "The gateway could not complete the upstream request.",
        },
    }
}

/// What a client is told when its own side failed: nothing where it is gone.
pub open spec fn downstream_response(kind: ErrorKind) -> ResponseText {
    if kind is ReadError || kind is WriteError || kind is ConnectionClosed {
        response(
            0,
            "downstream_closed"@,
            "The client connection closed before the response was sent."@,
        )
    } else {
        response(400, "downstream_error"@, "The client request could not be processed."@)
    }
}

fn classify_downstream_error(kind: ErrorKind) -> (r: GatewayErrorResponse)
    ensures
        r@ == downstream_response(kind),
{
    match kind {
        ErrorKind::ReadError | ErrorKind::WriteError | ErrorKind::ConnectionClosed =>
        GatewayErrorResponse {
            status_code: 0,
            reason_code: "downstream_closed",
            user_message: "The client connection closed before the response was sent.",
        },
        _ => GatewayErrorResponse {
            status_code: 400,
            reason_code: "downstream_error",
            user_message: "The client request could not be processed.",
        },
    }
}

/// What a client is told.
pub open spec fn response_to(error: ProxyError) -> ResponseText {
    match error.kind {
        ErrorKind::RouteNotMatched => response(
            404,
            "route_not_matched"@,
            "No gateway route matches this host and path."@,
        ),
        ErrorKind::NoUpstreamTargets => response(
            503,
            "no_upstream_targets"@,
            "The matched route has no upstream targets configured."@,
        ),
        ErrorKind::PathRewriteFailed => response(
            500,
            "path_rewrite_failed"@,
            "The gateway failed to rewrite the upstream request path."@,
        ),
        ErrorKind::HttpStatus(code) => response(
            proper_status(code),
            "http_status"@,
            "The gateway returned an HTTP error response."@,
        ),
        kind => match error.source {
            ErrorSource::Upstream => upstream_response(kind),
            ErrorSource::Downstream => downstream_response(kind),
            _ => response(
                500,
                "internal_error"@,
                "The gateway encountered an internal error."@,
            ),
        },
    }
}

pub fn classify_proxy_error(error: &ProxyError) -> (r: GatewayErrorResponse)
    ensures
        r@ == response_to(*error),
{
    match error.kind {
        ErrorKind::RouteNotMatched => GatewayErrorResponse {
            status_code: 404,
            reason_code: "route_not_matched",
            user_message: "No gateway route matches this host and path.",
        },
        ErrorKind::NoUpstreamTargets => GatewayErrorResponse {
            status_code: 503,
            reason_code: "no_upstream_targets",
            user_message: "The matched route has no upstream targets configured.",
        },
        ErrorKind::PathRewriteFailed => GatewayErrorResponse {
            status_code: 500,
            reason_code: "path_rewrite_failed",
            user_message: "The gateway failed to rewrite the upstream request path.",
        },
        ErrorKind::HttpStatus(code) => GatewayErrorResponse {
            status_code: normalize_status_code(code),
            reason_code: "http_status",
            user_message: "The gateway returned an HTTP error response.",
        },
        kind => match error.source {
            ErrorSource::Upstream => classify_upstream_error(kind),
            ErrorSource::Downstream => classify_downstream_error(kind),
            ErrorSource::Internal | ErrorSource::Unset => GatewayErrorResponse {
                status_code: 500,
                reason_code: "internal_error",
                user_message: "The gateway encountered an internal error.",
            },
        },
    }
}

/// A status code and the phrase for it, if there is one.
pub open spec fn status_text(code: u16, phrase: Option<Seq<char>>) -> Seq<char> {
    if 100 <= code <= 999 {
        decimal(code as nat) + " "@ + match phrase {
            Some(p) => p,
            None => "Unknown Status"@,
        }
    } else {
        "500 Internal Server Error"@
    }
}

/// A status code and the given phrase for it, if there is one.
pub fn status_line_with(code: u16, phrase: Option<&str>) -> (r: String)
    ensures
        r@ == status_text(code, opt_str(phrase)),
{
    if !is_status_code(code) {
        return "500 Internal Server Error".to_owned();
    }
    let reason = match phrase {
        Some(p) => p,
        None => "Unknown Status",
    };
    decimal_text(code as u128).concat(" ").concat(reason)
}

pub fn status_line(code: u16) -> (r: String)
    ensures
        r@ == status_text(code, reason_phrase(code)),
{
    status_line_with(code, canonical_reason(code))
}

/// The body of an error response: the status, the reason and a sentence.
pub open spec fn error_body(status: Seq<char>, r: ResponseText) -> Seq<char> {
    status + "\nReason: "@ + r.reason_code + "\n"@ + r.user_message + "\n"@
}

pub fn build_gateway_error_body(response: &GatewayErrorResponse) -> (r: String)
    ensures
        r@ == error_body(
            status_text(response.status_code, reason_phrase(response.status_code)),
            response@,
        ),
{
    status_line(response.status_code).concat("\nReason: ").concat(response.reason_code).concat(
        "\n",
    ).concat(response.user_message).concat("\n")
}

/// Whether a failure is the gateway's own, and is logged as such.
pub fn is_own_failure(error: &ProxyError, response: &GatewayErrorResponse) -> (r: bool)
    ensures
        r == ((error.source is Internal || error.source is Unset) && response.status_code >= 500),
{
    match error.source {
        ErrorSource::Internal | ErrorSource::Unset => response.status_code >= 500,
        _ => false,
    }
}

/// Every answer has a proper status code, or none is sent.
pub proof fn law_answers_have_a_status(error: ProxyError)
    ensures
        response_to(error).status_code == 0 || 100 <= response_to(error).status_code <= 999,
        response_to(error).status_code == 0 ==> error.source is Downstream,
{
}

/// What goes wrong upstream is answered as a failure of a server.
pub proof fn law_upstream_failures_are_server_errors(kind: ErrorKind)
    ensures
        502 <= upstream_response(kind).status_code <= 504,
{
}

/// The status of what goes wrong upstream: 504 for what took too long, 503
/// where there was no connection, and 502 for everything else.
pub proof fn law_status_of_upstream_failures(kind: ErrorKind)
    ensures
        ({
            let status = upstream_response(kind).status_code;
            let late = kind == ErrorKind::ConnectTimedout || kind == ErrorKind::TlsHandshakeTimedout
                || kind == ErrorKind::ReadTimedout || kind == ErrorKind::WriteTimedout;
            let unconnected = kind == ErrorKind::ConnectRefused || kind == ErrorKind::ConnectNoRoute
                || kind == ErrorKind::ConnectError || kind == ErrorKind::SocketError || kind
                == ErrorKind::ConnectProxyFailure;
            &&& status == 504 <==> late
            &&& status == 503 <==> unconnected
            &&& status == 502 <==> !late && !unconnected
        }),
{
}

/// What the client is told by kind and side: the gateway's own failures have
/// fixed codes whatever the side, a status that was asked for is kept where it
/// is one, a client that is gone gets no answer and one that asks wrongly 400,
/// and the rest is 500.
pub proof fn law_status_of_failures(kind: ErrorKind, source: ErrorSource)
    ensures
        ({
            let status = response_to(ProxyError { kind, source }).status_code;
            let gone = kind == ErrorKind::ReadError || kind == ErrorKind::WriteError || kind
                == ErrorKind::ConnectionClosed;
            match kind {
                ErrorKind::RouteNotMatched => status == 404,
                ErrorKind::NoUpstreamTargets => status == 503,
                ErrorKind::PathRewriteFailed => status == 500,
                ErrorKind::HttpStatus(code) => status == if 100 <= code <= 999 {
                    code
                } else {
                    500
                },
                _ => match source {
                    ErrorSource::Upstream => status == upstream_response(kind).status_code,
                    ErrorSource::Downstream => if gone {
                        status == 0
                    } else {
                        status == 400
                    },
                    ErrorSource::Internal => status == 500,
                    ErrorSource::Unset => status == 500,
                },
            }
        }),
{
}

} // verus!
