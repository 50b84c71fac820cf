use camo_rs::errors::{AuthParsingError, AuthValidationError, CamoError, ProxyError};
use camo_rs::server::{
    accepts_content_type, apply_response_policy, authenticate_request, check_content_length,
    check_content_type, check_status, conclude_request, mint_location, rewrite_location, AppState,
    RequestMethod,
};
use camo_rs::settings::{LogFormat, LogLevel};
use camo_rs::{AuthenticatedTarget, Proxy, Settings};
use http::{header, HeaderMap};

fn get_test_settings() -> Settings {
    Settings {
        allow_audio: false,
        allow_image: true,
        allow_json: false,
        allow_video: false,
        header_via: "camo-rs".to_owned(),
        key: "camo-rs".to_owned(),
        upstream_timeout: 10,

        // the upstream responses of these tests declare the length of their
        // bodies, so any body at all is too long.
        length_limit: 0,

        listen: "127.0.0.1:0".to_owned(),
        log_format: LogFormat::Text,
        log_level: LogLevel::Quiet,
        root_url: "http://127.0.0.1:8081/".to_owned(),
    }
}

/// Settings that accept images of up to 1000 bytes.
fn get_image_settings() -> Settings {
    let mut settings = get_test_settings();
    settings.length_limit = 1000;
    settings
}

const UPSTREAM: &str = "http://127.0.0.1:8080";

fn upstream_headers(pairs: &[(&'static str, &str)]) -> HeaderMap {
    let mut headers = HeaderMap::new();
    for (name, value) in pairs {
        headers.append(*name, value.parse().unwrap());
    }
    headers
}

/// What the proxy does with an upstream response to a `GET`: the client's
/// part, then the policy.
fn run_pipeline(
    settings: &Settings,
    target: &str,
    status: u16,
    mut headers: HeaderMap,
) -> Result<(u16, HeaderMap), CamoError> {
    let state = AppState::new(settings.clone());
    let signed = AuthenticatedTarget::from_target(settings.key.as_bytes(), target);
    let fetched = authenticate_request(
        state.settings(),
        &signed.encoded_digest(),
        &signed.encoded_target_url(),
    )?;
    assert_eq!(fetched, target);
    state.proxy().finish_response(&fetched, &mut headers);
    let status =
        conclude_request(state.settings(), RequestMethod::Get, &fetched, Ok(status), &mut headers)?;
    Ok((status, headers))
}

#[test]
fn passes_valid_requests() {
    let settings = get_test_settings();
    let headers = upstream_headers(&[
        ("x-upstream-header", "hello"),
        ("content-type", "image/webp"),
        ("content-length", "0"),
    ]);

    let (status, _) = run_pipeline(&settings, UPSTREAM, 200, headers).unwrap();

    assert_eq!(status, 200);
}

#[test]
fn rejects_invalid_targets() {
    let settings = get_test_settings();
    let auth_target =
        AuthenticatedTarget::from_target("some random key".as_bytes(), "http://example.com");

    let result = authenticate_request(
        &settings,
        &auth_target.encoded_digest(),
        &auth_target.encoded_target_url(),
    );

    let error = result.err().unwrap();
    assert!(matches!(error, CamoError::AuthValidationError(AuthValidationError::HmacInvalid)));
    assert_eq!(error.status_code(), 403);
}

#[test]
fn rejects_malformed_path_segments() {
    let settings = get_test_settings();
    let error = authenticate_request(&settings, "abz", "00").err().unwrap();
    assert!(matches!(
        error,
        CamoError::AuthParsingError(AuthParsingError::DigestEncodingError(_))
    ));
    assert_eq!(error.status_code(), 403);

    let mut without_key = get_test_settings();
    without_key.key = String::new();
    let error = authenticate_request(&without_key, "00", "00").err().unwrap();
    assert!(matches!(error, CamoError::AuthParsingError(AuthParsingError::EmptyKeyError)));
}

#[test]
fn passes_unexpected_statuses_on_as_failures() {
    let settings = get_test_settings();
    let headers = upstream_headers(&[("content-type", "image/webp"), ("content-length", "0")]);

    let error = run_pipeline(&settings, UPSTREAM, 418, headers).err().unwrap();

    assert!(matches!(error, CamoError::UnexpectedUpstreamStatus(418)));
    assert_eq!(error.status_code(), 418);
}

#[test]
fn rejects_long_responses() {
    let settings = get_test_settings();
    let headers = upstream_headers(&[
        ("x-upstream-header", "hello"),
        ("content-type", "image/webp"),
        ("content-length", "11"),
    ]);

    let error = run_pipeline(&settings, UPSTREAM, 200, headers).err().unwrap();

    assert!(matches!(error, CamoError::UpstreamResponseTooLong(11)));
    assert_eq!(error.status_code(), 422);
}

#[test]
fn rejects_missing_content_type() {
    let settings = get_test_settings();
    let headers = upstream_headers(&[("x-upstream-header", "hello"), ("content-length", "0")]);

    let error = run_pipeline(&settings, UPSTREAM, 200, headers).err().unwrap();

    assert!(matches!(error, CamoError::MissingContentType));
    assert_eq!(error.status_code(), 422);
}

#[test]
fn rejects_invalid_content_type() {
    let settings = get_test_settings();
    let headers = upstream_headers(&[
        ("x-upstream-header", "hello"),
        ("content-type", "text/plain"),
        ("content-length", "0"),
    ]);

    let error = run_pipeline(&settings, UPSTREAM, 200, headers).err().unwrap();

    assert!(matches!(error, CamoError::ContentTypeNotAccepted(_)));
    assert_eq!(error.status_code(), 422);
}

#[test]
fn rewrites_redirects_to_camo_urls() {
    let settings = get_test_settings();
    let redirect_target = "https://example.com/another-site";
    let headers = upstream_headers(&[("location", redirect_target)]);

    let (status, headers) = run_pipeline(&settings, UPSTREAM, 302, headers).unwrap();

    let expected_target =
        AuthenticatedTarget::from_target(settings.key.as_bytes(), redirect_target)
            .encoded_full_path();

    assert_eq!(status, 302);
    assert_eq!(
        headers.get("location").unwrap().to_str().unwrap(),
        format!("http://{}/{}", "127.0.0.1:8081", expected_target)
    );
}

#[test]
fn rewrites_relative_redirects_to_absolute_camo_urls() {
    let settings = get_test_settings();
    let redirect_target = "relative/redirect-target";
    let headers = upstream_headers(&[("location", redirect_target)]);

    let (status, headers) = run_pipeline(&settings, UPSTREAM, 302, headers).unwrap();

    let expected_full_url = format!("{}/{}", UPSTREAM, redirect_target);
    let expected_target =
        AuthenticatedTarget::from_target(settings.key.as_bytes(), &expected_full_url)
            .encoded_full_path();

    assert_eq!(status, 302);
    assert_eq!(
        headers.get("location").unwrap().to_str().unwrap(),
        format!("http://{}/{}", "127.0.0.1:8081", expected_target)
    );
}

#[test]
fn an_accepted_image_is_handed_on_with_finished_headers() {
    let settings = get_image_settings();
    let headers = upstream_headers(&[
        ("content-type", "image/webp"),
        ("content-length", "100"),
        ("x-upstream-header", "hello"),
    ]);

    let (status, headers) = run_pipeline(&settings, "http://origin/x", 200, headers).unwrap();

    assert_eq!(status, 200);
    assert_eq!(headers.get("x-camo-original-url").unwrap(), "http://origin/x");
    assert_eq!(
        headers.get("content-security-policy").unwrap(),
        "default-src 'none'; img-src data:; style-src 'unsafe-inline'"
    );
    assert_eq!(headers.get("x-content-type-options").unwrap(), "nosniff");
    assert_eq!(headers.get("x-frame-options").unwrap(), "deny");
    assert_eq!(headers.get("x-xss-protection").unwrap(), "1; mode=block");
    assert_eq!(headers.get("content-type").unwrap(), "image/webp");
    assert_eq!(headers.get("content-length").unwrap(), "100");
    assert_eq!(headers.get("x-upstream-header").unwrap(), "hello");
    assert_eq!(headers.len(), 8);
}

#[test]
fn a_declared_length_above_the_limit_answers_422() {
    let settings = get_image_settings();
    let headers =
        upstream_headers(&[("content-type", "image/webp"), ("content-length", "20000")]);

    let error = run_pipeline(&settings, "http://origin/x", 200, headers).err().unwrap();

    assert!(matches!(error, CamoError::UpstreamResponseTooLong(20000)));
    assert_eq!(error.reply().status, 422);
}

#[test]
fn a_content_type_that_is_not_allowed_answers_422() {
    let settings = get_image_settings();
    let headers = upstream_headers(&[("content-type", "text/plain"), ("content-length", "100")]);

    let error = run_pipeline(&settings, "http://origin/x", 200, headers).err().unwrap();

    match &error {
        CamoError::ContentTypeNotAccepted(content_type) => assert_eq!(content_type, "text/plain"),
        other => panic!("unexpected: {other:?}"),
    }
    assert_eq!(error.reply().status, 422);
}

#[test]
fn a_relative_location_is_resolved_against_the_fetched_target() {
    let settings = get_image_settings();
    let headers = upstream_headers(&[("location", "relative/path")]);

    let (status, headers) = run_pipeline(&settings, "http://origin/x", 302, headers).unwrap();

    let minted =
        AuthenticatedTarget::from_target(settings.key.as_bytes(), "http://origin/relative/path");
    assert_eq!(status, 302);
    assert_eq!(
        headers.get("location").unwrap().to_str().unwrap(),
        format!(
            "http://127.0.0.1:8081/{}/{}",
            minted.encoded_digest(),
            hex::encode("http://origin/relative/path")
        )
    );
    assert_eq!(headers.get_all("location").iter().count(), 1);
}

#[test]
fn a_rewritten_redirect_authenticates_again() {
    let settings = get_test_settings();
    let headers = upstream_headers(&[("location", "/moved?x=1")]);

    let (_, headers) = run_pipeline(&settings, "http://origin/a/b", 301, headers).unwrap();

    let location = headers.get("location").unwrap().to_str().unwrap();
    let path = location.strip_prefix("http://127.0.0.1:8081/").unwrap();
    let (digest, target) = path.split_once('/').unwrap();
    assert_eq!(
        authenticate_request(&settings, digest, target).unwrap(),
        "http://origin/moved?x=1"
    );
}

#[test]
fn every_location_value_is_replaced() {
    let settings = get_test_settings();
    let mut headers = upstream_headers(&[
        ("location", "https://example.com/one"),
        ("location", "https://example.com/two"),
    ]);

    rewrite_location(&settings, "http://origin/x", &mut headers).unwrap();

    let values: Vec<_> = headers.get_all("location").iter().collect();
    assert_eq!(values.len(), 1);
    assert_eq!(
        values[0],
        &mint_location(&settings, "https://example.com/one")
    );
}

#[test]
fn a_location_that_cannot_be_processed_fails_the_request() {
    let settings = get_test_settings();

    let mut unresolvable = upstream_headers(&[("location", "http://[broken")]);
    let error = rewrite_location(&settings, "http://origin/x", &mut unresolvable).err().unwrap();
    assert!(matches!(error, CamoError::UpstreamRedirectLocationUnprocessable));
    assert_eq!(error.status_code(), 422);
    assert_eq!(unresolvable.get("location").unwrap(), "http://[broken");

    let mut bad_base = upstream_headers(&[("location", "relative/path")]);
    let error = rewrite_location(&settings, "not a url", &mut bad_base).err().unwrap();
    assert!(matches!(error, CamoError::UpstreamRedirectLocationUnprocessable));

    let mut unreadable = HeaderMap::new();
    unreadable.append(
        header::LOCATION,
        http::HeaderValue::from_bytes("https://example.com/ü".as_bytes()).unwrap(),
    );
    let error = rewrite_location(&settings, "http://origin/x", &mut unreadable).err().unwrap();
    assert!(matches!(error, CamoError::UpstreamRedirectLocationUnprocessable));

    let mut bad_root = get_test_settings();
    bad_root.root_url = "http://proxy/\n".to_owned();
    let mut headers = upstream_headers(&[("location", "relative/path")]);
    let error = rewrite_location(&bad_root, "http://origin/x", &mut headers).err().unwrap();
    assert!(matches!(error, CamoError::UpstreamRedirectLocationUnprocessable));
    assert_eq!(headers.get("location").unwrap(), "relative/path");
}

#[test]
fn without_a_location_nothing_is_rewritten() {
    let settings = get_test_settings();
    let mut headers = upstream_headers(&[("content-type", "image/png")]);
    let before = headers.clone();

    rewrite_location(&settings, "http://origin/x", &mut headers).unwrap();

    assert_eq!(headers, before);
}

#[test]
fn mint_location_prefixes_the_signed_path_with_the_root_url() {
    let mut settings = get_test_settings();
    settings.key = "example".to_owned();
    settings.root_url = "/camo/".to_owned();

    assert_eq!(
        mint_location(&settings, "http://example.com/a.webp"),
        "/camo/78d0f8623f9ef3f0b58bf1adac2b3f02154af36d/687474703a2f2f6578616d706c652e636f6d2f612e77656270"
    );
}

#[test]
fn check_status_accepts_success_and_redirects_only() {
    for status in [200u16, 204, 299, 300, 302, 304, 399] {
        assert!(check_status(status).is_ok(), "{status}");
    }
    for status in [0u16, 100, 199, 400, 404, 418, 500, 502, 999, 65535] {
        match check_status(status) {
            Err(CamoError::UnexpectedUpstreamStatus(code)) => assert_eq!(code, status),
            other => panic!("unexpected: {other:?}"),
        }
    }
}

#[test]
fn the_length_check_uses_the_declared_length_only() {
    let settings = get_image_settings();
    let check = |value: &str| check_content_length(&settings, &upstream_headers(&[("content-length", value)]));

    assert!(check("0").is_ok());
    assert!(check("1000").is_ok());
    assert!(matches!(check("1001"), Err(CamoError::UpstreamResponseTooLong(1001))));
    assert!(matches!(check("+1001"), Err(CamoError::UpstreamResponseTooLong(1001))));
    assert!(check("-1").is_ok());
    assert!(check("many").is_ok());
    assert!(check("").is_ok());
    assert!(check("99999999999999999999999999999999").is_ok());
    assert!(check_content_length(&settings, &HeaderMap::new()).is_ok());

    let first_counts = upstream_headers(&[("content-length", "5"), ("content-length", "20000")]);
    assert!(check_content_length(&settings, &first_counts).is_ok());
}

#[test]
fn the_content_type_is_checked_for_get_unless_redirected() {
    let settings = get_test_settings();
    let plain = upstream_headers(&[("content-type", "text/plain")]);
    let none = HeaderMap::new();

    assert!(check_content_type(&settings, RequestMethod::Get, 200, &plain).is_err());
    assert!(check_content_type(&settings, RequestMethod::Get, 299, &none).is_err());
    assert!(check_content_type(&settings, RequestMethod::Get, 300, &plain).is_ok());
    assert!(check_content_type(&settings, RequestMethod::Get, 302, &none).is_ok());
    assert!(check_content_type(&settings, RequestMethod::Get, 399, &none).is_ok());
    assert!(check_content_type(&settings, RequestMethod::Head, 200, &plain).is_ok());
    assert!(check_content_type(&settings, RequestMethod::Options, 200, &none).is_ok());

    let mut unreadable = HeaderMap::new();
    unreadable.append(
        header::CONTENT_TYPE,
        http::HeaderValue::from_bytes("image/ü".as_bytes()).unwrap(),
    );
    assert!(matches!(
        check_content_type(&settings, RequestMethod::Get, 200, &unreadable),
        Err(CamoError::MissingContentType)
    ));
}

#[test]
fn content_types_are_matched_by_prefix_and_case() {
    let mut settings = get_test_settings();
    assert!(accepts_content_type(&settings, "image/webp"));
    assert!(accepts_content_type(&settings, "image/"));
    assert!(accepts_content_type(&settings, "image/svg+xml; charset=utf-8"));
    assert!(!accepts_content_type(&settings, "image"));
    assert!(!accepts_content_type(&settings, "Image/png"));
    assert!(!accepts_content_type(&settings, " image/png"));
    assert!(!accepts_content_type(&settings, "audio/ogg"));
    assert!(!accepts_content_type(&settings, "video/mp4"));
    assert!(!accepts_content_type(&settings, "json/anything"));
    assert!(!accepts_content_type(&settings, ""));

    settings.allow_image = false;
    settings.allow_audio = true;
    settings.allow_video = true;
    settings.allow_json = true;
    assert!(accepts_content_type(&settings, "audio/ogg"));
    assert!(accepts_content_type(&settings, "video/mp4"));
    assert!(!accepts_content_type(&settings, "image/webp"));
    assert!(!accepts_content_type(&settings, "json/anything"));
}

#[test]
fn the_checks_run_in_order() {
    let settings = get_image_settings();
    let mut headers = upstream_headers(&[
        ("content-length", "20000"),
        ("content-type", "text/plain"),
        ("location", "http://[broken"),
    ]);
    let before = headers.clone();

    let error =
        apply_response_policy(&settings, RequestMethod::Get, "http://origin/x", 500, &mut headers)
            .err()
            .unwrap();
    assert!(matches!(error, CamoError::UnexpectedUpstreamStatus(500)));

    let error =
        apply_response_policy(&settings, RequestMethod::Get, "http://origin/x", 200, &mut headers)
            .err()
            .unwrap();
    assert!(matches!(error, CamoError::UpstreamResponseTooLong(20000)));

    headers.insert("content-length", "10".parse().unwrap());
    let error =
        apply_response_policy(&settings, RequestMethod::Get, "http://origin/x", 200, &mut headers)
            .err()
            .unwrap();
    assert!(matches!(error, CamoError::ContentTypeNotAccepted(_)));

    let error =
        apply_response_policy(&settings, RequestMethod::Head, "http://origin/x", 200, &mut headers)
            .err()
            .unwrap();
    assert!(matches!(error, CamoError::UpstreamRedirectLocationUnprocessable));

    headers.insert("content-length", "20000".parse().unwrap());
    assert_eq!(headers, before);
}

#[test]
fn a_failed_fetch_is_passed_on() {
    let settings = get_test_settings();
    let mut headers = HeaderMap::new();

    let error = conclude_request(
        &settings,
        RequestMethod::Get,
        "http://origin/x",
        Err(ProxyError::UpstreamTimeout("deadline has elapsed".to_owned())),
        &mut headers,
    )
    .err()
    .unwrap();

    assert!(matches!(error, CamoError::ProxyError(ProxyError::UpstreamTimeout(_))));
    assert_eq!(error.status_code(), 500);
    assert!(headers.is_empty());
}

#[test]
fn the_state_holds_the_settings_and_a_proxy_made_from_them() {
    let mut settings = get_test_settings();
    settings.header_via = "camo-rs asset proxy".to_owned();
    settings.upstream_timeout = 3;

    let state = AppState::new(settings);

    assert_eq!(state.settings().root_url, "http://127.0.0.1:8081/");
    assert_eq!(state.proxy().via_header(), "camo-rs asset proxy");
    assert_eq!(state.proxy().timeout_seconds(), 3);
    let copy = state.clone();
    assert_eq!(copy.proxy().via_header(), "camo-rs asset proxy");
    let proxy: &Proxy = copy.proxy();
    assert_eq!(proxy.timeout_seconds(), 3);
}
