//! Failure kinds and the reply that each one turns into.
use vstd::prelude::*;
use vstd::string::*;

verus! {

/// Why a request could not be relayed.
#[derive(Clone, Copy, Debug, PartialEq, Eq, Structural)]
pub enum ProxyError {
    /// The query has no `url` parameter.
    MissingUrl,
    /// The `url` parameter is not an absolute URL.
    MalformedUrl,
    /// The target could not be reached, or its response not read.
    UpstreamError,
    /// The response for the caller could not be built.
    ResponseBuildError,
}

/// A terminal reply: a status code and a plain-text message.
pub struct ErrorReply {
    pub status: u16,
    pub message: String,
}

/// Status code for a failure; `None` stands for a failure of no known kind.
pub open spec fn reply_status(err: Option<ProxyError>) -> u16 {
    match err {
        Some(ProxyError::MissingUrl) => 400,
        Some(ProxyError::MalformedUrl) => 400,
        Some(ProxyError::UpstreamError) => 502,
        Some(ProxyError::ResponseBuildError) => 500,
        None => 500,
    }
}

/// Message for a failure; `None` stands for a failure of no known kind.
pub open spec fn reply_message(err: Option<ProxyError>) -> Seq<char> {
    match err {
        Some(ProxyError::MissingUrl) => "Missing URL parameter"@,
        Some(ProxyError::MalformedUrl) => "Malformed URL"@,
        Some(ProxyError::UpstreamError) => "Upstream request failed"@,
        Some(ProxyError::ResponseBuildError) => "Internal server error"@,
        None => "Internal server error"@,
    }
}

/// The reply that stands for a failure.
pub open spec fn is_reply_for(r: ErrorReply, err: Option<ProxyError>) -> bool {
    r.status == reply_status(err) && r.message@ == reply_message(err)
}

/// Maps a failure to the reply sent to the caller. Internal details are
/// never echoed.
pub fn handle_rejection(err: Option<ProxyError>) -> (r: ErrorReply)
    ensures
        is_reply_for(r, err),
{
    let (status, message): (u16, &str) = match err {
        Some(ProxyError::MissingUrl) => (400, "Missing URL parameter"),
        Some(ProxyError::MalformedUrl) => (400, "Malformed URL"),
        Some(ProxyError::UpstreamError) => (502, "Upstream request failed"),
        Some(ProxyError::ResponseBuildError) => (500, "Internal server error"),
        None => (500, "Internal server error"),
    };
    ErrorReply { status, message: String::from_str(message) }
}

} // verus!
