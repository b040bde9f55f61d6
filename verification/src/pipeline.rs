//! The proxy pipeline around one request: decide redirect-or-forward, build
//! the upstream target URL and filtered header set, and turn the upstream's
//! answer into the final response with filtered headers and the conditional
//! HTML rewrite. The surrounding server performs the I/O; everything here is
//! a pure function of the request and response data.

use vstd::prelude::*;

use crate::bytes::opt_bytes_view;
use crate::bytes::push_all;
use crate::bytes::query_part;
use crate::headers::content_type_of;
use crate::headers::content_type_value;
use crate::headers::filter_request_headers;
use crate::headers::filter_response_headers;
use crate::headers::keep_request_headers;
use crate::headers::keep_response_headers;
use crate::headers::Header;
use crate::redirect::check_redirect;
use crate::redirect::check_redirect_spec;
use crate::redirect::RedirectMode;
use crate::rewrite::is_html_content_type;
use crate::rewrite::lossy_utf8;
use crate::rewrite::rewrite_body_if_html;
use crate::rewrite::rewrite_seq;

verus! {

/// The immutable per-process configuration: the upstream origin base URL,
/// the production canonical domain, and the redirect mode.
pub struct ProxyConfig {
    pub origin: Vec<u8>,
    pub prod_domain: Vec<u8>,
    pub mode: RedirectMode,
}

/// The request to issue upstream: target URL, filtered headers, and the
/// inbound body verbatim.
pub struct OutboundRequest {
    pub target_url: Vec<u8>,
    pub headers: Vec<Header>,
    pub body: Vec<u8>,
}

/// What to do with an inbound request: answer with a permanent redirect to
/// the given URL, or forward the outbound request to the upstream origin.
pub enum RoutePlan {
    Redirect(Vec<u8>),
    Forward(OutboundRequest),
}

/// The response handed back to the client: the upstream status, the filtered
/// headers, and the possibly rewritten body.
pub struct FinalResponse {
    pub status: u16,
    pub headers: Vec<Header>,
    pub body: Vec<u8>,
}

/// The two per-request failures: an unreadable inbound body (a client
/// error), and a failed upstream call (a gateway error). Either abandons the
/// one request; the process keeps serving.
pub enum ProxyError {
    ClientBody,
    Upstream,
}

impl ProxyError {
    /// The HTTP status reported to the client: 400 for an unreadable inbound
    /// body, 502 for a failed upstream call.
    pub fn status_code(&self) -> (r: u16)
        ensures
            *self is ClientBody ==> r == 400,
            *self is Upstream ==> r == 502,
    {
        match self {
            ProxyError::ClientBody => 400,
            ProxyError::Upstream => 502,
        }
    }
}

/// The status of a canonical-host redirect: permanent, 301.
pub fn redirect_status() -> (r: u16)
    ensures
        r == 301,
{
    301
}

/// The upstream target URL: origin, then the inbound path unaltered, then
/// `'?' + query` when a query is present.
pub open spec fn target_url_spec(origin: Seq<u8>, path: Seq<u8>, query: Option<Seq<u8>>) -> Seq<
    u8,
> {
    origin + path + query_part(query)
}

/// Builds the upstream target URL from the origin and the inbound path and
/// query, altering neither.
pub fn build_target_url(origin: &[u8], path: &[u8], query: &Option<Vec<u8>>) -> (r: Vec<u8>)
    ensures
        r@ == target_url_spec(origin@, path@, opt_bytes_view(*query)),
{
    let mut url: Vec<u8> = Vec::new();
    push_all(&mut url, origin);
    push_all(&mut url, path);
    match query {
        Some(q) => {
            url.push(63);
            push_all(&mut url, q.as_slice());
        },
        None => {},
    }
    proof {
        assert(url@ =~= target_url_spec(origin@, path@, opt_bytes_view(*query)));
    }
    url
}

/// Routes one inbound request: a permanent redirect to the canonical host if
/// the resolver fires (before any proxying), otherwise the outbound request
/// — target URL from origin, path and query; headers filtered; body
/// verbatim.
pub fn plan_request(
    config: &ProxyConfig,
    host: &[u8],
    path: &[u8],
    query: &Option<Vec<u8>>,
    headers: Vec<Header>,
    body: Vec<u8>,
) -> (r: RoutePlan)
    ensures
        match check_redirect_spec(host@, path@, opt_bytes_view(*query), config.mode) {
            Some(url) => r matches RoutePlan::Redirect(u) && u@ == url,
            None => r matches RoutePlan::Forward(o) && o.target_url@ == target_url_spec(
                config.origin@,
                path@,
                opt_bytes_view(*query),
            ) && o.headers@ == keep_request_headers(headers@) && o.body@ == body@,
        },
{
    match check_redirect(host, path, query, config.mode) {
        Some(url) => RoutePlan::Redirect(url),
        None => {
            let target_url = build_target_url(config.origin.as_slice(), path, query);
            let filtered = filter_request_headers(headers);
            RoutePlan::Forward(OutboundRequest { target_url, headers: filtered, body })
        },
    }
}

/// Turns the upstream's answer into the final response: the status is
/// relayed, the headers are filtered, and the body is rewritten exactly when
/// the filtered headers announce HTML — otherwise it is returned
/// byte-for-byte.
pub fn finish_response(status: u16, headers: Vec<Header>, body: Vec<u8>, prod: &[u8]) -> (r:
    FinalResponse)
    ensures
        r.status == status,
        r.headers@ == keep_response_headers(headers@),
        ({
            let ct = content_type_of(keep_response_headers(headers@));
            if is_html_content_type(ct) {
                r.body@ == rewrite_seq(lossy_utf8(body@), prod@)
            } else {
                r.body@ == body@
            }
        }),
{
    let filtered = filter_response_headers(headers);
    let ct = content_type_value(&filtered);
    let new_body = rewrite_body_if_html(ct.as_slice(), body, prod);
    FinalResponse { status, headers: filtered, body: new_body }
}

} // verus!
