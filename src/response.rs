//! Rebuilding the response handed back to the caller.
use vstd::prelude::*;
use vstd::string::*;
use crate::headers::{
    Header,
    filter_response_headers,
    lemma_relayed_count,
    relayable,
    relayed_headers,
    fold_ascii,
    same_name,
    view_headers,
};

verus! {

broadcast use vstd::seq_lib::group_to_multiset_ensures;

/// An HTTP response held in memory: status code, header lines and body.
pub struct Response {
    pub status: u16,
    pub headers: Vec<Header>,
    pub body: Vec<u8>,
}

/// Status of the direct answer to a pre-flight request.
pub const NO_CONTENT: u16 = 204;

/// The value of every injected CORS header.
pub open spec fn wildcard() -> Seq<u8> {
    seq![42u8]
}

pub open spec fn allow_origin_name() -> Seq<char> {
    "access-control-allow-origin"@
}

pub open spec fn allow_methods_name() -> Seq<char> {
    "access-control-allow-methods"@
}

pub open spec fn allow_headers_name() -> Seq<char> {
    "access-control-allow-headers"@
}

/// The three CORS headers appended to every relayed response.
pub open spec fn cors_headers() -> Seq<(Seq<char>, Seq<u8>)> {
    seq![
        (allow_origin_name(), wildcard()),
        (allow_methods_name(), wildcard()),
        (allow_headers_name(), wildcard()),
    ]
}

/// The headers of a relayed response, given the upstream's headers.
pub open spec fn assembled_headers(up: Seq<(Seq<char>, Seq<u8>)>) -> Seq<(Seq<char>, Seq<u8>)> {
    relayed_headers(up) + cors_headers()
}

fn cors_header(name: &str) -> (r: Header)
    ensures
        r@ == (name@, wildcard()),
{
    // 42 is the ASCII code of '*'.
    let value: Vec<u8> = vec![42u8];
    assert(value@ =~= wildcard());
    Header { name: String::from_str(name), value }
}

/// `out` is what the caller receives for the upstream response `up`.
pub open spec fn is_relay_of(out: Response, up: Response) -> bool {
    &&& out.status == up.status
    &&& out.body@ == up.body@
    &&& view_headers(out.headers@) == assembled_headers(view_headers(up.headers@))
}

/// Builds the response for the caller from the upstream response: the
/// status and body are copied, the upstream's allow-origin headers are
/// dropped, and the three wildcard CORS headers are appended.
pub fn assemble_response(upstream: Response) -> (r: Response)
    ensures
        is_relay_of(r, upstream),
{
    let mut headers = filter_response_headers(&upstream.headers);
    let ghost kept = headers@;
    headers.push(cors_header("access-control-allow-origin"));
    headers.push(cors_header("access-control-allow-methods"));
    headers.push(cors_header("access-control-allow-headers"));
    assert(view_headers(headers@) =~= view_headers(kept) + cors_headers());
    Response { status: upstream.status, headers, body: upstream.body }
}

/// The direct answer to a pre-flight request: no content, any origin.
pub fn preflight_response() -> (r: Response)
    ensures
        r.status == NO_CONTENT,
        r.body@.len() == 0,
        view_headers(r.headers@) == seq![(allow_origin_name(), wildcard())],
{
    let mut headers: Vec<Header> = Vec::new();
    headers.push(cors_header("access-control-allow-origin"));
    assert(view_headers(headers@) =~= seq![(allow_origin_name(), wildcard())]);
    Response { status: NO_CONTENT, headers, body: Vec::new() }
}

/// Whatever the upstream sent, the relayed response carries exactly one
/// allow-origin header, and its value is `*`.
pub proof fn lemma_single_allow_origin(up: Seq<(Seq<char>, Seq<u8>)>)
    ensures
        ({
            let hs = assembled_headers(up);
            exists|k: int|
                {
                    &&& 0 <= k < hs.len()
                    &&& hs[k] == (allow_origin_name(), wildcard())
                    &&& forall|j: int|
                        0 <= j < hs.len() && same_name(#[trigger] hs[j].0, allow_origin_name())
                            ==> j == k
                }
        }),
{
    broadcast use vstd::seq_lib::group_filter_ensures;

    reveal_strlit("access-control-allow-origin");
    reveal_strlit("access-control-allow-methods");
    reveal_strlit("access-control-allow-headers");
    let r = relayed_headers(up);
    let hs = assembled_headers(up);
    let k = r.len() as int;
    assert(hs[k] == (allow_origin_name(), wildcard()));
    assert forall|j: int|
        0 <= j < hs.len() && same_name(#[trigger] hs[j].0, allow_origin_name()) implies j == k by {
        if j < k {
            assert(hs[j] == r[j]);
            assert(relayable(r[j]));
        }
    }
}

/// Whatever the upstream sent, the relayed response carries
/// `Access-Control-Allow-Methods: *` and `Access-Control-Allow-Headers: *`;
/// where the upstream sent no header of that name, it is the only one.
pub proof fn lemma_allow_methods_and_headers(up: Seq<(Seq<char>, Seq<u8>)>)
    ensures
        ({
            let hs = assembled_headers(up);
            &&& hs.contains((allow_methods_name(), wildcard()))
            &&& hs.contains((allow_headers_name(), wildcard()))
            &&& (forall|i: int| 0 <= i < up.len() ==> !same_name(#[trigger] up[i].0, allow_methods_name()))
                ==> forall|j: int|
                0 <= j < hs.len() && same_name(#[trigger] hs[j].0, allow_methods_name())
                    ==> hs[j].1 == wildcard()
            &&& (forall|i: int| 0 <= i < up.len() ==> !same_name(#[trigger] up[i].0, allow_headers_name()))
                ==> forall|j: int|
                0 <= j < hs.len() && same_name(#[trigger] hs[j].0, allow_headers_name())
                    ==> hs[j].1 == wildcard()
        }),
{
    let r = relayed_headers(up);
    let hs = assembled_headers(up);
    let k = r.len() as int;
    assert(hs[k + 1] == (allow_methods_name(), wildcard()));
    assert(hs[k + 2] == (allow_headers_name(), wildcard()));
    assert forall|j: int| 0 <= j < k implies up.contains(#[trigger] hs[j]) by {
        assert(hs[j] == r[j]);
        lemma_relayed_count(up, r[j]);
        assert(r.to_multiset().count(r[j]) > 0);
    }
    reveal_strlit("access-control-allow-origin");
    reveal_strlit("access-control-allow-methods");
    reveal_strlit("access-control-allow-headers");
    assert(!same_name(allow_origin_name(), allow_methods_name()));
    assert(!same_name(allow_origin_name(), allow_headers_name()));
    assert(!same_name(allow_methods_name(), allow_headers_name())) by {
        assert(fold_ascii(allow_methods_name()[21]) != fold_ascii(allow_headers_name()[21]));
    }
    assert(!same_name(allow_headers_name(), allow_methods_name())) by {
        assert(fold_ascii(allow_methods_name()[21]) != fold_ascii(allow_headers_name()[21]));
    }
}

/// Relaying depends on the upstream's headers only as a multiset: two
/// upstream responses with the same status, body and headers, in whatever
/// order, are relayed with the same status, body and headers, up to order.
pub proof fn lemma_relay_is_repeatable(up1: Response, up2: Response, out1: Response, out2: Response)
    requires
        up1.status == up2.status,
        up1.body@ == up2.body@,
        view_headers(up1.headers@).to_multiset() == view_headers(up2.headers@).to_multiset(),
        is_relay_of(out1, up1),
        is_relay_of(out2, up2),
    ensures
        out1.status == out2.status,
        out1.body@ == out2.body@,
        view_headers(out1.headers@).to_multiset() == view_headers(out2.headers@).to_multiset(),
{
    let a = view_headers(up1.headers@);
    let b = view_headers(up2.headers@);
    assert(relayed_headers(a).to_multiset() =~= relayed_headers(b).to_multiset()) by {
        assert forall|h: (Seq<char>, Seq<u8>)|
            relayed_headers(a).to_multiset().count(h) == relayed_headers(b).to_multiset().count(
                h,
            ) by {
            lemma_relayed_count(a, h);
            lemma_relayed_count(b, h);
        }
    }
    vstd::seq_lib::lemma_multiset_commutative(relayed_headers(a), cors_headers());
    vstd::seq_lib::lemma_multiset_commutative(relayed_headers(b), cors_headers());
}

} // verus!
