//! Decisions of the HTTP service: its configuration, content negotiation, and the status
//! that each failure is answered with.
use vstd::prelude::*;

use crate::decimal::parse_u64_spec;
use crate::decimal::parse_u64;
use crate::text::{chars_of, contains, contains_chars};

verus! {

broadcast use vstd::string::group_string_axioms;

/// The time to live of cached answers when `NBP_CACHE_TTL` is unset or not a `u64`: one hour.
pub open spec fn default_cache_ttl_secs() -> u64 {
    3600
}

/// The time to live, in seconds, of cached upstream answers given the value of
/// `NBP_CACHE_TTL`: the value read as a `u64` where it is one, else an hour.
pub fn cache_ttl_secs(configured: Option<String>) -> (r: u64)
    ensures
        r == match configured {
            Some(v) => match parse_u64_spec(v@) {
                Some(n) => n,
                None => default_cache_ttl_secs(),
            },
            None => default_cache_ttl_secs(),
        },
        configured is None ==> r == 3600,
        configured is Some && parse_u64_spec(configured->0@) is None ==> r == 3600,
        configured is Some && parse_u64_spec(configured->0@) is Some ==> r == parse_u64_spec(
            configured->0@,
        )->0,
{
    match configured {
        Some(v) => {
            let cs = chars_of(v.as_str());
            match parse_u64(cs.as_slice()) {
                Some(n) => n,
                None => 3600,
            }
        },
        None => 3600,
    }
}

/// Whether the answer is an HTML page: the `Accept` header (where it is present and visible
/// ASCII) mentions `text/html`; otherwise the answer is JSON.
pub fn accepts_html(accept: Option<String>) -> (r: bool)
    ensures
        r == match accept {
            Some(a) => contains(a@, "text/html"@),
            None => false,
        },
{
    match accept {
        Some(a) => {
            let cs = chars_of(a.as_str());
            let needle = chars_of("text/html");
            contains_chars(cs.as_slice(), needle.as_slice())
        },
        None => false,
    }
}

/// The ways answering a request can fail.
#[derive(Debug, Clone, Copy, PartialEq, Eq, Structural)]
pub enum FailureKind {
    /// The upstream request timed out.
    UpstreamTimeout,
    /// Upstream answered with this HTTP status.
    UpstreamBadStatus(u16),
    /// Upstream's answer could not be turned into records.
    UpstreamParse,
    /// The request to upstream failed otherwise.
    Network,
    /// The HTML page could not be rendered.
    Template,
}

/// A failed upstream request: a timeout, else an error carrying an HTTP status, else a
/// network failure.
pub open spec fn classify_spec(timed_out: bool, status: Option<u16>) -> FailureKind {
    if timed_out {
        FailureKind::UpstreamTimeout
    } else {
        match status {
            Some(s) => FailureKind::UpstreamBadStatus(s),
            None => FailureKind::Network,
        }
    }
}

/// The kind of a failed upstream request, from whether it timed out and the HTTP status it
/// carries.
pub fn classify_request_failure(timed_out: bool, status: Option<u16>) -> (r: FailureKind)
    ensures
        r == classify_spec(timed_out, status),
        timed_out ==> r == FailureKind::UpstreamTimeout,
        !timed_out && status is Some ==> r == FailureKind::UpstreamBadStatus(status->0),
        !timed_out && status is None ==> r == FailureKind::Network,
{
    if timed_out {
        FailureKind::UpstreamTimeout
    } else {
        match status {
            Some(s) => FailureKind::UpstreamBadStatus(s),
            None => FailureKind::Network,
        }
    }
}

/// `502 Bad Gateway`.
pub const BAD_GATEWAY: u16 = 502;

/// `500 Internal Server Error`.
pub const INTERNAL_SERVER_ERROR: u16 = 500;

/// `408 Request Timeout`.
pub const REQUEST_TIMEOUT: u16 = 408;

/// Whether the failure lies with upstream.
pub open spec fn is_upstream(kind: FailureKind) -> bool {
    kind is UpstreamTimeout || kind is UpstreamBadStatus || kind is UpstreamParse
}

/// The status a failure is answered with: Bad Gateway for what lies with upstream, else
/// Internal Server Error.
pub open spec fn status_for(kind: FailureKind) -> u16 {
    if is_upstream(kind) {
        BAD_GATEWAY
    } else {
        INTERNAL_SERVER_ERROR
    }
}

/// The status that a failure of this kind is answered with.
pub fn failure_status(kind: FailureKind) -> (r: u16)
    ensures
        r == status_for(kind),
        (kind is UpstreamTimeout || kind is UpstreamBadStatus || kind is UpstreamParse) ==> r
            == 502,
        (kind is Network || kind is Template) ==> r == 500,
{
    match kind {
        FailureKind::UpstreamTimeout | FailureKind::UpstreamBadStatus(_)
        | FailureKind::UpstreamParse => BAD_GATEWAY,
        FailureKind::Network | FailureKind::Template => INTERNAL_SERVER_ERROR,
    }
}

/// The status of a request the service layer gave up on: Request Timeout when it took too
/// long, else Internal Server Error.
pub fn unhandled_failure_status(timed_out: bool) -> (r: u16)
    ensures
        r == if timed_out {
            REQUEST_TIMEOUT
        } else {
            INTERNAL_SERVER_ERROR
        },
        timed_out ==> r == 408,
        !timed_out ==> r == 500,
{
    if timed_out {
        REQUEST_TIMEOUT
    } else {
        INTERNAL_SERVER_ERROR
    }
}

/// An upstream request that timed out or came back with an error status, and an upstream
/// answer that is not a valid feed, are answered with Bad Gateway; any other failed upstream
/// request with Internal Server Error.
pub proof fn law_upstream_failures_are_bad_gateway(timed_out: bool, status: Option<u16>)
    ensures
        status_for(classify_spec(timed_out, status)) == if timed_out || status is Some {
            BAD_GATEWAY
        } else {
            INTERNAL_SERVER_ERROR
        },
        status_for(FailureKind::UpstreamParse) == BAD_GATEWAY,
{
}

/// A request that timed out is an upstream timeout, whatever status it carries.
pub proof fn law_timeout_wins(status: Option<u16>)
    ensures
        classify_spec(true, status) == FailureKind::UpstreamTimeout,
        status_for(classify_spec(true, status)) == 502,
{
}

/// A request that did not time out and carries a status is a bad status with that same status,
/// for every status; one with neither is a network failure.
pub proof fn law_status_is_kept(s: u16)
    ensures
        classify_spec(false, Some(s)) == FailureKind::UpstreamBadStatus(s),
        status_for(classify_spec(false, Some(s))) == 502,
        classify_spec(false, None) == FailureKind::Network,
        status_for(classify_spec(false, None)) == 500,
{
}

/// Two failed requests that differ only in their statuses are told apart.
pub proof fn law_distinct_statuses_distinct_kinds(a: u16, b: u16)
    requires
        a != b,
    ensures
        classify_spec(false, Some(a)) != classify_spec(false, Some(b)),
{
}

/// Exactly the failures that lie with upstream are answered with Bad Gateway.
pub proof fn law_bad_gateway_exactly_upstream(kind: FailureKind)
    ensures
        status_for(kind) == 502 <==> (kind is UpstreamTimeout || kind is UpstreamBadStatus
            || kind is UpstreamParse),
        status_for(kind) != 502 ==> status_for(kind) == 500,
{
}

} // verus!
