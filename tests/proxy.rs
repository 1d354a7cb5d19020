use proxyplz::error::{handle_rejection, ProxyError};
use proxyplz::headers::{
    eq_ignore_ascii_case, filter_request_headers, filter_response_headers, is_hop_by_hop, Header,
};
use proxyplz::proxy::{relay_upstream, route_request, Step, UPSTREAM_TIMEOUT_SECS};
use proxyplz::response::{assemble_response, preflight_response, Response};
use proxyplz::target::{extract_target, lookup_query};

fn header(name: &str, value: &str) -> Header {
    Header { name: name.to_string(), value: value.as_bytes().to_vec() }
}

fn query(pairs: &[(&str, &str)]) -> Vec<(String, String)> {
    pairs.iter().map(|(k, v)| (k.to_string(), v.to_string())).collect()
}

fn pairs(headers: &[Header]) -> Vec<(String, Vec<u8>)> {
    headers.iter().map(|h| (h.name.clone(), h.value.clone())).collect()
}

fn values_named(headers: &[Header], name: &str) -> Vec<Vec<u8>> {
    headers
        .iter()
        .filter(|h| h.name.eq_ignore_ascii_case(name))
        .map(|h| h.value.clone())
        .collect()
}

fn upstream(status: u16, headers: Vec<Header>, body: &str) -> Response {
    Response { status, headers, body: body.as_bytes().to_vec() }
}

#[test]
fn rejection_replies() {
    let r = handle_rejection(Some(ProxyError::MissingUrl));
    assert_eq!((r.status, r.message.as_str()), (400, "Missing URL parameter"));
    let r = handle_rejection(Some(ProxyError::MalformedUrl));
    assert_eq!((r.status, r.message.as_str()), (400, "Malformed URL"));
    let r = handle_rejection(Some(ProxyError::UpstreamError));
    assert_eq!((r.status, r.message.as_str()), (502, "Upstream request failed"));
    let r = handle_rejection(Some(ProxyError::ResponseBuildError));
    assert_eq!((r.status, r.message.as_str()), (500, "Internal server error"));
    let r = handle_rejection(None);
    assert_eq!((r.status, r.message.as_str()), (500, "Internal server error"));
}

#[test]
fn missing_url_parameter() {
    assert!(matches!(extract_target(&query(&[])), Err(ProxyError::MissingUrl)));
    let q = query(&[("target", "http://example.test/"), ("URL", "http://example.test/")]);
    assert!(matches!(extract_target(&q), Err(ProxyError::MissingUrl)));
    let step = route_request("GET".to_string(), &vec![], &q, vec![]);
    match step {
        Step::Reject(r) => {
            assert_eq!(r.status, 400);
            assert_eq!(r.message, "Missing URL parameter");
        }
        _ => panic!("expected a rejection"),
    }
}

#[test]
fn malformed_url_parameter() {
    for bad in ["not a url", "/relative/path", ""] {
        let q = query(&[("url", bad)]);
        assert!(matches!(extract_target(&q), Err(ProxyError::MalformedUrl)));
        match route_request("POST".to_string(), &vec![], &q, vec![1, 2]) {
            Step::Reject(r) => {
                assert_eq!(r.status, 400);
                assert_eq!(r.message, "Malformed URL");
            }
            _ => panic!("expected a rejection"),
        }
    }
}

#[test]
fn target_is_the_parsed_url() {
    let q = query(&[("url", "http://example.test/ok")]);
    assert_eq!(extract_target(&q).unwrap(), "http://example.test/ok");
    let q = query(&[("url", "HTTP://Example.TEST")]);
    assert_eq!(extract_target(&q).unwrap(), "http://example.test/");
}

#[test]
fn non_http_url_still_parses() {
    let q = query(&[("url", "ftp://bad")]);
    assert_eq!(extract_target(&q).unwrap(), "ftp://bad/");
}

#[test]
fn lookup_takes_first_match() {
    let q = query(&[("a", "1"), ("url", "first"), ("url", "second")]);
    assert_eq!(lookup_query(&q, "url"), Some("first".to_string()));
    assert_eq!(lookup_query(&q, "b"), None);
}

#[test]
fn names_compare_ignoring_ascii_case() {
    assert!(eq_ignore_ascii_case("Transfer-Encoding", "transfer-encoding"));
    assert!(eq_ignore_ascii_case("", ""));
    assert!(!eq_ignore_ascii_case("te", "tex"));
    assert!(!eq_ignore_ascii_case("host", "hosT-"));
    assert!(!eq_ignore_ascii_case("a-b", "a_b"));
}

#[test]
fn hop_by_hop_names() {
    for n in [
        "Connection", "HOST", "Upgrade", "TE", "Trailer", "Transfer-Encoding", "Keep-Alive",
        "Proxy-Authenticate", "proxy-authorization",
    ] {
        assert!(is_hop_by_hop(n), "{}", n);
    }
    for n in ["x-foo", "accept", "content-type", "hosts", "t"] {
        assert!(!is_hop_by_hop(n), "{}", n);
    }
}

#[test]
fn request_filter_drops_hop_by_hop_only() {
    let inbound = vec![
        header("Connection", "keep-alive"),
        header("X-Foo", "bar"),
        header("host", "proxy.local"),
        header("Accept", "text/plain"),
        header("Upgrade", "h2c"),
        header("TE", "trailers"),
        header("Trailer", "Expires"),
        header("Transfer-Encoding", "chunked"),
        header("Keep-Alive", "timeout=5"),
        header("Proxy-Authenticate", "Basic"),
        header("Proxy-Authorization", "Basic abc"),
        header("x-foo", "baz"),
    ];
    let out = filter_request_headers(&inbound);
    assert_eq!(
        pairs(&out),
        pairs(&[header("X-Foo", "bar"), header("Accept", "text/plain"), header("x-foo", "baz")])
    );
}

#[test]
fn request_filter_keeps_duplicates() {
    let inbound = vec![header("cookie", "a=1"), header("cookie", "a=1"), header("cookie", "b=2")];
    assert_eq!(pairs(&filter_request_headers(&inbound)), pairs(&inbound));
    assert!(filter_request_headers(&vec![]).is_empty());
}

#[test]
fn response_filter_drops_allow_origin() {
    let up = vec![
        header("Access-Control-Allow-Origin", "https://site.test"),
        header("content-type", "text/plain"),
        header("access-control-allow-origin", "*"),
        header("access-control-allow-methods", "GET"),
    ];
    assert_eq!(
        pairs(&filter_response_headers(&up)),
        pairs(&[header("content-type", "text/plain"), header("access-control-allow-methods", "GET")])
    );
}

#[test]
fn single_allow_origin_whatever_upstream_sent() {
    let up = upstream(
        200,
        vec![
            header("Access-Control-Allow-Origin", "https://a.test"),
            header("access-control-allow-origin", "https://b.test"),
        ],
        "",
    );
    let out = assemble_response(up);
    assert_eq!(values_named(&out.headers, "access-control-allow-origin"), vec![b"*".to_vec()]);
    let out = assemble_response(upstream(200, vec![], ""));
    assert_eq!(values_named(&out.headers, "access-control-allow-origin"), vec![b"*".to_vec()]);
}

#[test]
fn allow_methods_and_headers_are_wildcards() {
    let out = assemble_response(upstream(404, vec![header("x-a", "1")], "missing"));
    assert_eq!(values_named(&out.headers, "access-control-allow-methods"), vec![b"*".to_vec()]);
    assert_eq!(values_named(&out.headers, "access-control-allow-headers"), vec![b"*".to_vec()]);
}

#[test]
fn relay_is_repeatable() {
    let make = || upstream(200, vec![header("x-a", "1"), header("x-b", "2")], "same");
    let a = assemble_response(make());
    let b = assemble_response(make());
    assert_eq!(a.status, b.status);
    assert_eq!(a.body, b.body);
    assert_eq!(pairs(&a.headers), pairs(&b.headers));
}

#[test]
fn scenario_plain_get_relayed() {
    let q = query(&[("url", "http://example.test/ok")]);
    let inbound = vec![header("Host", "proxy.local"), header("Accept", "*/*")];
    let req = match route_request("GET".to_string(), &inbound, &q, vec![]) {
        Step::Forward(f) => f,
        _ => panic!("expected a forward"),
    };
    assert_eq!(req.method, "GET");
    assert_eq!(req.url, "http://example.test/ok");
    assert_eq!(pairs(&req.headers), pairs(&[header("Accept", "*/*")]));
    assert!(req.body.is_empty());
    let out = relay_upstream(Ok(upstream(200, vec![header("X-Foo", "bar")], "hello")))
        .ok()
        .unwrap();
    assert_eq!(out.status, 200);
    assert_eq!(out.body, b"hello".to_vec());
    assert_eq!(
        pairs(&out.headers),
        pairs(&[
            header("X-Foo", "bar"),
            header("access-control-allow-origin", "*"),
            header("access-control-allow-methods", "*"),
            header("access-control-allow-headers", "*"),
        ])
    );
}

#[test]
fn scenario_preflight_answered_directly() {
    for q in [query(&[]), query(&[("url", "not a url")])] {
        match route_request("OPTIONS".to_string(), &vec![header("Origin", "x")], &q, vec![]) {
            Step::Preflight(r) => {
                assert_eq!(r.status, 204);
                assert!(r.body.is_empty());
                assert_eq!(pairs(&r.headers), pairs(&[header("access-control-allow-origin", "*")]));
            }
            _ => panic!("expected a pre-flight answer"),
        }
    }
    let r = preflight_response();
    assert_eq!(r.status, 204);
}

#[test]
fn scenario_non_http_target_is_upstream_failure() {
    let q = query(&[("url", "ftp://bad")]);
    let req = match route_request("GET".to_string(), &vec![], &q, vec![]) {
        Step::Forward(f) => f,
        _ => panic!("a parseable URL is forwarded"),
    };
    assert_eq!(req.url, "ftp://bad/");
    match relay_upstream(Err(ProxyError::UpstreamError)) {
        Err(r) => {
            assert_eq!(r.status, 502);
            assert_eq!(r.message, "Upstream request failed");
        }
        Ok(_) => panic!("expected a failure reply"),
    }
}

#[test]
fn scenario_redirect_not_followed() {
    let up = upstream(301, vec![header("Location", "http://example.test/new")], "");
    let out = relay_upstream(Ok(up)).ok().unwrap();
    assert_eq!(out.status, 301);
    assert_eq!(values_named(&out.headers, "location"), vec![b"http://example.test/new".to_vec()]);
}

#[test]
fn build_failure_reply() {
    match relay_upstream(Err(ProxyError::ResponseBuildError)) {
        Err(r) => assert_eq!((r.status, r.message.as_str()), (500, "Internal server error")),
        Ok(_) => panic!("expected a failure reply"),
    }
}

#[test]
fn forward_keeps_method_and_body() {
    let q = query(&[("url", "https://example.test/api?x=1")]);
    match route_request("PUT".to_string(), &vec![header("X-Id", "7")], &q, vec![9, 8, 7]) {
        Step::Forward(f) => {
            assert_eq!(f.method, "PUT");
            assert_eq!(f.url, "https://example.test/api?x=1");
            assert_eq!(f.body, vec![9, 8, 7]);
            assert_eq!(pairs(&f.headers), pairs(&[header("X-Id", "7")]));
        }
        _ => panic!("expected a forward"),
    }
}

#[test]
fn upstream_timeout_is_thirty_seconds() {
    assert_eq!(UPSTREAM_TIMEOUT_SECS, 30);
}
