//! Header model and the two header filters.
use vstd::prelude::*;

verus! {

broadcast use vstd::seq_lib::group_to_multiset_ensures;

/// One header line: its name and its raw value bytes. Repeated names are
/// kept as separate entries.
pub struct Header {
    pub name: String,
    pub value: Vec<u8>,
}

impl View for Header {
    type V = (Seq<char>, Seq<u8>);

    open spec fn view(&self) -> (Seq<char>, Seq<u8>) {
        (self.name@, self.value@)
    }
}

/// A character with ASCII upper case letters folded to lower case.
pub open spec fn fold_ascii(c: char) -> int {
    if 'A' <= c && c <= 'Z' {
        c as int + 32
    } else {
        c as int
    }
}

/// Header names compare equal up to ASCII case.
pub open spec fn same_name(a: Seq<char>, b: Seq<char>) -> bool {
    &&& a.len() == b.len()
    &&& forall|i: int| 0 <= i < a.len() ==> fold_ascii(#[trigger] a[i]) == fold_ascii(b[i])
}

fn fold_char(c: char) -> (r: u32)
    ensures
        r as int == fold_ascii(c),
{
    if 'A' <= c && c <= 'Z' {
        c as u32 + 32
    } else {
        c as u32
    }
}

/// Compares two names, ignoring ASCII case.
pub fn eq_ignore_ascii_case(a: &str, b: &str) -> (r: bool)
    ensures
        r == same_name(a@, b@),
{
    let n = a.unicode_len();
    if n != b.unicode_len() {
        return false;
    }
    let mut i: usize = 0;
    while i < n
        invariant
            n == a@.len(),
            n == b@.len(),
            i <= n,
            forall|j: int| 0 <= j < i ==> fold_ascii(#[trigger] a@[j]) == fold_ascii(b@[j]),
        decreases n - i,
    {
        if fold_char(a.get_char(i)) != fold_char(b.get_char(i)) {
            return false;
        }
        i = i + 1;
    }
    true
}

/// The views of a list of headers, in order.
pub open spec fn view_headers(hs: Seq<Header>) -> Seq<(Seq<char>, Seq<u8>)> {
    hs.map_values(|h: Header| h@)
}

/// Names that only concern one hop between caller and proxy.
pub open spec fn is_hop_by_hop_name(n: Seq<char>) -> bool {
    ||| same_name(n, "host"@)
    ||| same_name(n, "connection"@)
    ||| same_name(n, "keep-alive"@)
    ||| same_name(n, "proxy-authenticate"@)
    ||| same_name(n, "proxy-authorization"@)
    ||| same_name(n, "te"@)
    ||| same_name(n, "trailer"@)
    ||| same_name(n, "transfer-encoding"@)
    ||| same_name(n, "upgrade"@)
}

/// A request header that may be sent on to the target.
pub open spec fn forwardable(h: (Seq<char>, Seq<u8>)) -> bool {
    !is_hop_by_hop_name(h.0)
}

/// The inbound headers that are sent on, in their order.
pub open spec fn forwarded_headers(s: Seq<(Seq<char>, Seq<u8>)>) -> Seq<(Seq<char>, Seq<u8>)> {
    s.filter(|h: (Seq<char>, Seq<u8>)| forwardable(h))
}

/// Whether a header name is hop-by-hop, ignoring ASCII case.
pub fn is_hop_by_hop(name: &str) -> (r: bool)
    ensures
        r == is_hop_by_hop_name(name@),
{
    eq_ignore_ascii_case(name, "host")
        || eq_ignore_ascii_case(name, "connection")
        || eq_ignore_ascii_case(name, "keep-alive")
        || eq_ignore_ascii_case(name, "proxy-authenticate")
        || eq_ignore_ascii_case(name, "proxy-authorization")
        || eq_ignore_ascii_case(name, "te")
        || eq_ignore_ascii_case(name, "trailer")
        || eq_ignore_ascii_case(name, "transfer-encoding")
        || eq_ignore_ascii_case(name, "upgrade")
}

/// A copy of a header with equal name and value.
fn copy_header(h: &Header) -> (r: Header)
    ensures
        r@ == h@,
{
    let name = h.name.clone();
    let value = h.value.clone();
    assert(value@ =~= h.value@);
    Header { name, value }
}

/// Drops the hop-by-hop headers of an inbound request; every other header is
/// kept, in order and with its multiplicity.
pub fn filter_request_headers(headers: &Vec<Header>) -> (r: Vec<Header>)
    ensures
        view_headers(r@) == forwarded_headers(view_headers(headers@)),
{
    let mut out: Vec<Header> = Vec::new();
    let mut i: usize = 0;
    while i < headers.len()
        invariant
            i <= headers@.len(),
            view_headers(out@) == forwarded_headers(view_headers(headers@.subrange(0, i as int))),
        decreases headers@.len() - i,
    {
        let h = &headers[i];
        let keep = !is_hop_by_hop(h.name.as_str());
        let ghost before = out@;
        if keep {
            out.push(copy_header(h));
        }
        proof {
            reveal(Seq::filter);
            let s = view_headers(headers@.subrange(0, i + 1));
            assert(s.drop_last() =~= view_headers(headers@.subrange(0, i as int)));
            assert(s.last() == h@);
            assert(keep == forwardable(h@));
            assert(forwarded_headers(s) == (if forwardable(s.last()) {
                forwarded_headers(s.drop_last()).push(s.last())
            } else {
                forwarded_headers(s.drop_last())
            }));
            if keep {
                assert(view_headers(out@) =~= view_headers(before).push(h@));
            }
        }
        i = i + 1;
    }
    assert(headers@.subrange(0, headers@.len() as int) =~= headers@);
    out
}

/// The upstream's own allow-origin header, which the proxy replaces.
pub open spec fn relayable(h: (Seq<char>, Seq<u8>)) -> bool {
    !same_name(h.0, "access-control-allow-origin"@)
}

/// The upstream response headers that are relayed, in their order.
pub open spec fn relayed_headers(s: Seq<(Seq<char>, Seq<u8>)>) -> Seq<(Seq<char>, Seq<u8>)> {
    s.filter(|h: (Seq<char>, Seq<u8>)| relayable(h))
}

/// Drops every `Access-Control-Allow-Origin` header (in any case) of an
/// upstream response; every other header is kept, in order.
pub fn filter_response_headers(headers: &Vec<Header>) -> (r: Vec<Header>)
    ensures
        view_headers(r@) == relayed_headers(view_headers(headers@)),
{
    let mut out: Vec<Header> = Vec::new();
    let mut i: usize = 0;
    while i < headers.len()
        invariant
            i <= headers@.len(),
            view_headers(out@) == relayed_headers(view_headers(headers@.subrange(0, i as int))),
        decreases headers@.len() - i,
    {
        let h = &headers[i];
        let keep = !eq_ignore_ascii_case(h.name.as_str(), "access-control-allow-origin");
        let ghost before = out@;
        if keep {
            out.push(copy_header(h));
        }
        proof {
            reveal(Seq::filter);
            let s = view_headers(headers@.subrange(0, i + 1));
            assert(s.drop_last() =~= view_headers(headers@.subrange(0, i as int)));
            assert(s.last() == h@);
            assert(keep == relayable(h@));
            assert(relayed_headers(s) == (if relayable(s.last()) {
                relayed_headers(s.drop_last()).push(s.last())
            } else {
                relayed_headers(s.drop_last())
            }));
            if keep {
                assert(view_headers(out@) =~= view_headers(before).push(h@));
            }
        }
        i = i + 1;
    }
    assert(headers@.subrange(0, headers@.len() as int) =~= headers@);
    out
}

/// Filtering keeps each kept value exactly as often as it occurs.
proof fn lemma_filter_count<A>(s: Seq<A>, keep: spec_fn(A) -> bool, x: A)
    ensures
        s.filter(keep).to_multiset().count(x) == if keep(x) {
            s.to_multiset().count(x)
        } else {
            0
        },
    decreases s.len(),
{
    reveal(Seq::filter);
    if s.len() == 0 {
        assert(s.to_multiset().len() == 0);
        assert(s.filter(keep).to_multiset().len() == 0);
    } else {
        lemma_filter_count(s.drop_last(), keep, x);
        assert(s =~= s.drop_last().push(s.last()));
    }
}

/// No hop-by-hop header is ever sent upstream, and every other inbound
/// header is sent unchanged, as many times as it came in.
pub proof fn lemma_forwarded_headers(s: Seq<(Seq<char>, Seq<u8>)>, h: (Seq<char>, Seq<u8>))
    ensures
        is_hop_by_hop_name(h.0) ==> forwarded_headers(s).to_multiset().count(h) == 0,
        !is_hop_by_hop_name(h.0) ==> forwarded_headers(s).to_multiset().count(h)
            == s.to_multiset().count(h),
        forall|j: int|
            0 <= j < forwarded_headers(s).len() ==> !is_hop_by_hop_name(
                #[trigger] forwarded_headers(s)[j].0,
            ),
{
    broadcast use vstd::seq_lib::group_filter_ensures;

    lemma_filter_count(s, |g: (Seq<char>, Seq<u8>)| forwardable(g), h);
    assert forall|j: int| 0 <= j < forwarded_headers(s).len() implies !is_hop_by_hop_name(
        #[trigger] forwarded_headers(s)[j].0,
    ) by {
        assert(forwardable(forwarded_headers(s)[j]));
    }
}

/// Relaying keeps each upstream header other than allow-origin exactly as
/// often as it occurs.
pub proof fn lemma_relayed_count(s: Seq<(Seq<char>, Seq<u8>)>, h: (Seq<char>, Seq<u8>))
    ensures
        relayed_headers(s).to_multiset().count(h) == if relayable(h) {
            s.to_multiset().count(h)
        } else {
            0
        },
{
    lemma_filter_count(s, |g: (Seq<char>, Seq<u8>)| relayable(g), h);
}

} // verus!
