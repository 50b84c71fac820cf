use camo_rs::errors::ProxyError;
use camo_rs::header_wrangler::{HEADER_NAME_LIMIT, INVALID_HEADER_VALUE};
use camo_rs::proxy::{Proxy, ORIGINAL_URL_HEADER, REQUEST_HEADER_ROOM, RESPONSE_HEADER_ROOM};
use http::{header, HeaderMap};

#[test]
fn fails_gracefully_for_invalid_params() {
    let proxy = Proxy::new("camo-rs", 10);
    let headers = HeaderMap::new();
    let mut outbound = HeaderMap::new();

    let proxy_res = proxy.prepare_request(&headers, "", &mut outbound);

    assert!(proxy_res.is_err());
    assert!(outbound.is_empty());
    match proxy_res {
        Err(ProxyError::RequestBuildingFailed(detail)) => assert_eq!(detail, "empty string"),
        other => panic!("unexpected: {other:?}"),
    }
}

#[test]
fn a_target_that_is_no_uri_is_refused_in_the_words_of_the_request_builder() {
    let proxy = Proxy::new("camo-rs", 10);
    for target in ["", "http://exa mple.com/", "http://[broken", "\u{0}", "a b"] {
        let mut outbound = HeaderMap::new();
        let built = http::Request::builder().uri(target).body(());
        let prepared = proxy.prepare_request(&HeaderMap::new(), target, &mut outbound);
        match (built, prepared) {
            (Err(expected), Err(ProxyError::RequestBuildingFailed(detail))) => {
                assert_eq!(detail, expected.to_string());
                assert_eq!(
                    ProxyError::RequestBuildingFailed(detail).message(),
                    format!("building the upstream request failed: {expected}")
                );
            }
            other => panic!("unexpected for {target:?}: {other:?}"),
        }
        assert!(outbound.is_empty());
    }
}

#[test]
fn sets_the_camo_via_and_ua() {
    let proxy = Proxy::new("camo-rs", 10);
    let headers = HeaderMap::new();
    let mut outbound = HeaderMap::new();

    proxy.prepare_request(&headers, "http://127.0.0.1:8080/", &mut outbound).unwrap();

    assert_eq!(outbound.get("user-agent").unwrap(), "camo-rs");
    assert_eq!(outbound.get("via").unwrap(), "camo-rs");
    assert_eq!(outbound.len(), 2);
}

#[test]
fn passes_upstream_headers() {
    let proxy = Proxy::new("camo-rs", 10);
    let mut headers = HeaderMap::new();
    headers.append("x-upstream-header", "hello".parse().unwrap());

    proxy.finish_response("http://127.0.0.1:8080", &mut headers);

    assert_eq!(headers.get("x-upstream-header").unwrap(), "hello");
}

#[test]
fn sets_the_original_url_response_header() {
    let proxy = Proxy::new("camo-rs", 10);
    let mut headers = HeaderMap::new();
    headers.append("x-camo-original-url", "http://elsewhere/".parse().unwrap());
    headers.append("x-camo-original-url", "http://elsewhere/2".parse().unwrap());

    proxy.finish_response("http://127.0.0.1:8080", &mut headers);

    let values: Vec<_> = headers.get_all("x-camo-original-url").iter().collect();
    assert_eq!(values, vec!["http://127.0.0.1:8080"]);
    assert_eq!(ORIGINAL_URL_HEADER, "x-camo-original-url");
}

#[test]
fn sets_response_security_headers() {
    let proxy = Proxy::new("camo-rs", 10);
    let mut headers = HeaderMap::new();
    headers.append(header::CONTENT_SECURITY_POLICY, "default-src *".parse().unwrap());

    proxy.finish_response("http://127.0.0.1:8080", &mut headers);

    assert_eq!(
        headers.get("content-security-policy").unwrap(),
        "default-src 'none'; img-src data:; style-src 'unsafe-inline'"
    );
    assert_eq!(headers.get("x-content-type-options").unwrap(), "nosniff");
    assert_eq!(headers.get("x-frame-options").unwrap(), "deny");
    assert_eq!(headers.get("x-xss-protection").unwrap(), "1; mode=block");
    assert_eq!(headers.len(), RESPONSE_HEADER_ROOM);
}

#[test]
fn the_request_carries_the_allowed_inbound_headers_only() {
    let proxy = Proxy::new("camo-rs asset proxy", 10);
    let mut inbound = HeaderMap::new();
    inbound.append(header::ACCEPT, "image/*".parse().unwrap());
    inbound.append(header::IF_NONE_MATCH, "\"etag\"".parse().unwrap());
    inbound.append(header::COOKIE, "session=secret".parse().unwrap());
    inbound.append(header::AUTHORIZATION, "Bearer secret".parse().unwrap());
    inbound.append(header::USER_AGENT, "browser".parse().unwrap());
    inbound.append(header::VIA, "1.1 client-proxy".parse().unwrap());
    inbound.append(header::HOST, "camo.example".parse().unwrap());
    let mut outbound = HeaderMap::new();

    proxy.prepare_request(&inbound, "https://example.com/a.png", &mut outbound).unwrap();

    assert_eq!(outbound.get(header::USER_AGENT).unwrap(), "camo-rs asset proxy");
    assert_eq!(outbound.get(header::VIA).unwrap(), "camo-rs asset proxy");
    assert_eq!(outbound.get(header::ACCEPT).unwrap(), "image/*");
    assert_eq!(outbound.get(header::IF_NONE_MATCH).unwrap(), "\"etag\"");
    assert!(outbound.get(header::COOKIE).is_none());
    assert!(outbound.get(header::AUTHORIZATION).is_none());
    assert!(outbound.get(header::HOST).is_none());
    assert_eq!(outbound.len(), 4);
    assert!(outbound.keys_len() <= REQUEST_HEADER_ROOM);
}

#[test]
fn an_identification_that_is_no_header_value_fails_the_request() {
    let proxy = Proxy::new("camo\nrs", 10);
    let mut inbound = HeaderMap::new();
    inbound.append(header::ACCEPT, "image/*".parse().unwrap());
    let mut outbound = HeaderMap::new();
    outbound.append(header::HOST, "kept".parse().unwrap());

    let result = proxy.request_headers(&inbound, &mut outbound);

    match result {
        Err(ProxyError::RequestBuildingFailed(detail)) => {
            assert_eq!(detail, INVALID_HEADER_VALUE);
            assert_eq!(detail, "failed to parse header value");
            let built = http::Request::builder()
                .uri("http://example.com/")
                .header(header::USER_AGENT, "camo\nrs")
                .body(());
            assert_eq!(detail, built.unwrap_err().to_string());
        }
        other => panic!("unexpected: {other:?}"),
    }
    assert_eq!(outbound.len(), 1);
    assert_eq!(outbound.get(header::HOST).unwrap(), "kept");

    let result = proxy.prepare_request(&inbound, "http://example.com/", &mut outbound);
    match result {
        Err(ProxyError::RequestBuildingFailed(detail)) => assert_eq!(detail, INVALID_HEADER_VALUE),
        other => panic!("unexpected: {other:?}"),
    }
}

#[test]
fn finishing_a_response_twice_changes_nothing() {
    let proxy = Proxy::new("camo-rs", 10);
    let mut once = HeaderMap::new();
    once.append(header::CONTENT_TYPE, "image/webp".parse().unwrap());
    once.append(header::X_FRAME_OPTIONS, "allow".parse().unwrap());
    let names_before = once.keys_len();

    proxy.finish_response("http://origin/x", &mut once);
    let mut twice = once.clone();
    proxy.finish_response("http://origin/x", &mut twice);

    assert_eq!(once, twice);
    assert_eq!(once.keys_len(), names_before + 4);
    assert_eq!(twice.keys_len(), once.keys_len());
}

#[test]
fn preparing_a_request_adds_the_names_that_were_absent() {
    let proxy = Proxy::new("camo-rs", 10);
    let mut inbound = HeaderMap::new();
    inbound.append(header::ACCEPT, "image/*".parse().unwrap());
    inbound.append(header::PRAGMA, "no-cache".parse().unwrap());
    inbound.append(header::COOKIE, "a=b".parse().unwrap());
    let mut outbound = HeaderMap::new();
    outbound.append(header::VIA, "someone".parse().unwrap());
    outbound.append(header::ACCEPT, "old".parse().unwrap());
    outbound.append(header::HOST, "kept".parse().unwrap());

    proxy.prepare_request(&inbound, "http://example.com/", &mut outbound).unwrap();

    // user-agent and pragma are new; via and accept were there; host stays.
    assert_eq!(outbound.keys_len(), 3 + 2);
    assert_eq!(outbound.get(header::VIA).unwrap(), "camo-rs");
    assert_eq!(outbound.get(header::ACCEPT).unwrap(), "image/*");
    assert_eq!(outbound.get(header::HOST).unwrap(), "kept");
}

#[test]
fn the_proxy_keeps_what_it_was_made_with() {
    let proxy = Proxy::new("camo-rs", 7);
    assert_eq!(proxy.via_header(), "camo-rs");
    assert_eq!(proxy.timeout_seconds(), 7);
    let copy = proxy.clone();
    assert_eq!(copy.via_header(), "camo-rs");
    assert_eq!(copy.timeout_seconds(), 7);
    assert!(REQUEST_HEADER_ROOM + RESPONSE_HEADER_ROOM < HEADER_NAME_LIMIT);
}
