//! Finding and checking the target URL among the query parameters.
use vstd::prelude::*;
use vstd::string::*;
use crate::error::ProxyError;

verus! {

/// The serialisation of the URL that `url::Url::parse` reads from a text,
/// or `None` where the text is not an absolute URL.
pub uninterp spec fn parsed_url(s: Seq<char>) -> Option<Seq<char>>;

/// Relies on `reqwest::Url::parse` (the `url` crate's `Url::parse`): it
/// either rejects the text or returns a URL, whose serialisation is taken.
/// Parsing depends on the text alone.
#[verifier::external_body]
fn parse_absolute_url(s: &str) -> (r: Option<String>)
    ensures
        match r {
            Some(u) => parsed_url(s@) == Some(u@),
            None => parsed_url(s@) is None,
        },
{
    reqwest::Url::parse(s).ok().map(String::from)
}

/// The value of the first parameter named `key`.
pub open spec fn query_value(q: Seq<(String, String)>, key: Seq<char>) -> Option<Seq<char>>
    decreases q.len(),
{
    if q.len() == 0 {
        None
    } else if q[0].0@ == key {
        Some(q[0].1@)
    } else {
        query_value(q.drop_first(), key)
    }
}

/// The forwarding target named by the query, or why there is none.
pub open spec fn target_outcome(q: Seq<(String, String)>) -> Result<Seq<char>, ProxyError> {
    match query_value(q, "url"@) {
        None => Err(ProxyError::MissingUrl),
        Some(v) => match parsed_url(v) {
            None => Err(ProxyError::MalformedUrl),
            Some(u) => Ok(u),
        },
    }
}

/// Looks up the value of the first parameter named `key`.
pub fn lookup_query(query: &Vec<(String, String)>, key: &str) -> (r: Option<String>)
    ensures
        match r {
            Some(v) => query_value(query@, key@) == Some(v@),
            None => query_value(query@, key@) is None,
        },
{
    let wanted = String::from_str(key);
    let n = query.len();
    let mut i: usize = 0;
    assert(query@.subrange(0, n as int) =~= query@);
    while i < n
        invariant
            n == query@.len(),
            i <= n,
            wanted@ == key@,
            query_value(query@.subrange(i as int, n as int), key@) == query_value(query@, key@),
        decreases n - i,
    {
        let ghost rest = query@.subrange(i as int, n as int);
        assert(rest[0] == query@[i as int]);
        if query[i].0 == wanted {
            return Some(query[i].1.clone());
        }
        assert(rest.drop_first() =~= query@.subrange(i + 1, n as int));
        i = i + 1;
    }
    None
}

/// Reads the target from the `url` query parameter; the result is the
/// parsed URL's serialisation.
pub fn extract_target(query: &Vec<(String, String)>) -> (r: Result<String, ProxyError>)
    ensures
        match r {
            Ok(u) => target_outcome(query@) == Ok::<Seq<char>, ProxyError>(u@),
            Err(e) => target_outcome(query@) == Err::<Seq<char>, ProxyError>(e),
        },
{
    match lookup_query(query, "url") {
        None => Err(ProxyError::MissingUrl),
        Some(v) => match parse_absolute_url(v.as_str()) {
            None => Err(ProxyError::MalformedUrl),
            Some(u) => Ok(u),
        },
    }
}

} // verus!
