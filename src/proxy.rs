//! The request pipeline around the network call: deciding what to do with
//! an inbound request, and turning the upstream's outcome into the reply.
use vstd::prelude::*;
use vstd::string::*;
use crate::error::{ErrorReply, ProxyError, handle_rejection, is_reply_for};
use crate::headers::{Header, filter_request_headers, forwarded_headers, view_headers};
use crate::response::{
    Response,
    allow_origin_name,
    assemble_response,
    is_relay_of,
    preflight_response,
    wildcard,
    NO_CONTENT,
};
use crate::target::{extract_target, parsed_url, query_value, target_outcome};

verus! {

/// Seconds after which an upstream request is abandoned.
pub const UPSTREAM_TIMEOUT_SECS: u64 = 30;

/// The request to send upstream.
pub struct ForwardRequest {
    pub method: String,
    pub url: String,
    pub headers: Vec<Header>,
    pub body: Vec<u8>,
}

/// What to do with an inbound request.
pub enum Step {
    /// Answer a pre-flight request directly.
    Preflight(Response),
    /// Send this request to the target.
    Forward(ForwardRequest),
    /// Answer with this failure, without contacting anyone.
    Reject(ErrorReply),
}

/// The pre-flight method, answered by the proxy itself.
pub open spec fn is_preflight_method(m: Seq<char>) -> bool {
    m == "OPTIONS"@
}

/// The direct answer to a pre-flight request.
pub open spec fn is_preflight_reply(r: Response) -> bool {
    &&& r.status == NO_CONTENT
    &&& r.body@.len() == 0
    &&& view_headers(r.headers@) == seq![(allow_origin_name(), wildcard())]
}

/// `r` is what is done with an inbound request of the given method,
/// headers, query parameters and body.
pub open spec fn is_route_of(
    r: Step,
    method: Seq<char>,
    headers: Seq<(Seq<char>, Seq<u8>)>,
    query: Seq<(String, String)>,
    body: Seq<u8>,
) -> bool {
    if is_preflight_method(method) {
        r is Preflight && is_preflight_reply(r->Preflight_0)
    } else {
        match target_outcome(query) {
            Err(e) => r is Reject && is_reply_for(r->Reject_0, Some(e)),
            Ok(u) => r is Forward && {
                let f = r->Forward_0;
                &&& f.method@ == method
                &&& f.url@ == u
                &&& view_headers(f.headers@) == forwarded_headers(headers)
                &&& f.body@ == body
            },
        }
    }
}

/// Decides what to do with an inbound request: pre-flight requests are
/// answered at once; otherwise the target is read from the query and the
/// request is forwarded with its hop-by-hop headers dropped, or rejected
/// when the target is missing or malformed.
pub fn route_request(
    method: String,
    headers: &Vec<Header>,
    query: &Vec<(String, String)>,
    body: Vec<u8>,
) -> (r: Step)
    ensures
        is_route_of(r, method@, view_headers(headers@), query@, body@),
{
    let options = String::from_str("OPTIONS");
    if method == options {
        return Step::Preflight(preflight_response());
    }
    match extract_target(query) {
        Err(e) => Step::Reject(handle_rejection(Some(e))),
        Ok(url) => Step::Forward(
            ForwardRequest { method, url, headers: filter_request_headers(headers), body },
        ),
    }
}

/// Turns the outcome of the upstream call into the reply for the caller:
/// a response is relayed with the CORS headers, a failure is answered with
/// its status and message.
pub fn relay_upstream(outcome: Result<Response, ProxyError>) -> (r: Result<Response, ErrorReply>)
    ensures
        match outcome {
            Ok(up) => r is Ok && is_relay_of(r->Ok_0, up),
            Err(e) => r is Err && is_reply_for(r->Err_0, Some(e)),
        },
{
    match outcome {
        Ok(up) => Ok(assemble_response(up)),
        Err(e) => Err(handle_rejection(Some(e))),
    }
}

/// A request, other than a pre-flight one, whose query has no `url`
/// parameter is answered with 400 and "Missing URL parameter", and nothing
/// is sent upstream.
pub proof fn lemma_missing_url_rejected(
    r: Step,
    method: Seq<char>,
    headers: Seq<(Seq<char>, Seq<u8>)>,
    query: Seq<(String, String)>,
    body: Seq<u8>,
)
    requires
        is_route_of(r, method, headers, query, body),
        !is_preflight_method(method),
        query_value(query, "url"@) is None,
    ensures
        r is Reject,
        r->Reject_0.status == 400,
        r->Reject_0.message@ == "Missing URL parameter"@,
{
}

/// A request, other than a pre-flight one, whose `url` parameter is not an
/// absolute URL is answered with 400 and "Malformed URL", and nothing is
/// sent upstream.
pub proof fn lemma_malformed_url_rejected(
    r: Step,
    method: Seq<char>,
    headers: Seq<(Seq<char>, Seq<u8>)>,
    query: Seq<(String, String)>,
    body: Seq<u8>,
)
    requires
        is_route_of(r, method, headers, query, body),
        !is_preflight_method(method),
        query_value(query, "url"@) is Some,
        parsed_url(query_value(query, "url"@)->Some_0) is None,
    ensures
        r is Reject,
        r->Reject_0.status == 400,
        r->Reject_0.message@ == "Malformed URL"@,
{
}

} // verus!
