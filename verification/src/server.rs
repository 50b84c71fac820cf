//! The request pipeline: authenticate the request, have the target fetched,
//! then hold the upstream response against the policy and rewrite a redirect
//! so that it leads back through the proxy. The fetch itself lies between
//! `authenticate_request` and `conclude_request` and is the caller's.

use vstd::prelude::*;
use vstd::string::*;
use vstd::utf8::*;

use crate::authenticated_target::{
    decoded_target, hmac_sha1, lemma_round_trip, parsed, signed, AuthenticatedTarget,
};
use crate::errors::{AuthValidationError, CamoError, Failure, ParsingFailure, ProxyError};
use crate::encoding::{hex_decoded, hex_encoded, is_hex_text};
use crate::header_wrangler::{
    first_value, header_name_count, header_values, is_header_value, is_valid_header_value,
    lemma_printable_text_is_header_value, resolve_location_header, resolved_location, set_value,
    HEADER_NAME_LIMIT,
};
use crate::proxy::Proxy;
use crate::settings::Settings;
use crate::text::{
    decimal_number, has_prefix, lemma_encode_utf8_concat, parse_decimal, text_of,
    text_starts_with, visible_text,
};

verus! {

/// The methods that the proxy serves.
#[derive(Clone, Copy, Debug, PartialEq, Eq, Structural)]
pub enum RequestMethod {
    Get,
    Head,
    Options,
}

/// What every request handler shares: the settings and the upstream client's
/// rules made from them.
#[derive(Clone, Debug)]
pub struct AppState {
    settings: Settings,
    proxy: Proxy,
}

impl AppState {
    /// The settings.
    pub closed spec fn settings_of(&self) -> Settings {
        self.settings
    }

    /// The upstream client's rules.
    pub closed spec fn proxy_of(&self) -> Proxy {
        self.proxy
    }

    /// The state for `settings`: the proxy identifies itself with
    /// `header_via` and waits `upstream_timeout` seconds.
    pub fn new(settings: Settings) -> (state: Self)
        ensures
            state.settings_of() == settings,
            state.proxy_of().identification() == settings.header_via@,
            state.proxy_of().timeout() == settings.upstream_timeout,
    {
        let proxy = Proxy::new(settings.header_via.as_str(), settings.upstream_timeout);
        AppState { settings, proxy }
    }

    /// The settings.
    pub fn settings(&self) -> (settings: &Settings)
        ensures
            *settings == self.settings_of(),
    {
        &self.settings
    }

    /// The upstream client's rules.
    pub fn proxy(&self) -> (proxy: &Proxy)
        ensures
            *proxy == self.proxy_of(),
    {
        &self.proxy
    }
}

/// The target that a request is for, once its digest is verified: parsing
/// comes first, verification second, and the first failure is the answer.
pub open spec fn authenticated(key: Seq<u8>, digest: Seq<char>, target: Seq<char>) -> Result<
    Seq<char>,
    Failure,
> {
    match parsed(key, digest, target) {
        Err(failure) => Err(Failure::AuthParsing(failure)),
        Ok(model) => match model.verified() {
            Err(e) => Err(Failure::AuthValidation(e)),
            Ok(text) => Ok(text),
        },
    }
}

/// A minted path authenticates. Under a non-empty key, the two segments of
/// the path minted for a target authenticate as that target.
pub proof fn lemma_minted_paths_authenticate(key: Seq<u8>, target: Seq<char>)
    requires
        key.len() > 0,
    ensures
        authenticated(
            key,
            hex_encoded(signed(key, target).digest),
            hex_encoded(encode_utf8(target)),
        ) == Ok::<Seq<char>, Failure>(target),
{
    lemma_round_trip(key, target);
}

/// Nothing but the true digest authenticates. A request authenticates as a
/// target exactly when the key is not empty, both segments are hex text,
/// the second of them decodes to the target, and the first to the HMAC of
/// the target under the key. Every other request is refused, for a segment
/// that cannot be parsed or with `HmacInvalid`.
pub proof fn lemma_only_the_true_digest_authenticates(
    key: Seq<u8>,
    digest: Seq<char>,
    target: Seq<char>,
    text: Seq<char>,
)
    ensures
        authenticated(key, digest, target) == Ok::<Seq<char>, Failure>(text) <==> {
            &&& key.len() > 0
            &&& is_hex_text(digest)
            &&& decoded_target(target) == Ok::<Seq<char>, ParsingFailure>(text)
            &&& hex_decoded(digest) == hmac_sha1(key, encode_utf8(text))
        },
        authenticated(key, digest, target) matches Err(failure) ==> failure is AuthParsing
            || failure == Failure::AuthValidation(AuthValidationError::HmacInvalid),
{
}

/// Parses the two path segments of a request and verifies the digest.
/// Returns the target to fetch.
pub fn authenticate_request(settings: &Settings, digest: &str, target: &str) -> (r: Result<
    String,
    CamoError,
>)
    ensures
        match r {
            Ok(text) => authenticated(encode_utf8(settings.key@), digest@, target@) == Ok::<
                Seq<char>,
                Failure,
            >(text@),
            Err(e) => authenticated(encode_utf8(settings.key@), digest@, target@) == Err::<
                Seq<char>,
                Failure,
            >(e@),
        },
{
    let authenticated_target = match AuthenticatedTarget::from_encoded_strings(
        settings.key.as_str().as_bytes(),
        digest,
        target,
    ) {
        Ok(value) => value,
        Err(e) => {
            return Err(CamoError::AuthParsingError(e));
        },
    };
    match authenticated_target.validated_target_url() {
        Ok(text) => Ok(text),
        Err(e) => Err(CamoError::AuthValidationError(e)),
    }
}

/// A status from 200 to 299.
pub open spec fn is_success(status: u16) -> bool {
    200 <= status && status < 300
}

/// A status from 300 to 399.
pub open spec fn is_redirection(status: u16) -> bool {
    300 <= status && status < 400
}

/// The first value of a header, where it has one.
pub open spec fn first_value_of(values: Map<Seq<char>, Seq<Seq<u8>>>, name: Seq<char>) -> Option<
    Seq<u8>,
> {
    if values.contains_key(name) {
        Some(values[name][0])
    } else {
        None
    }
}

/// The content length that the response declares, where it declares one
/// that can be read.
pub open spec fn declared_length(values: Map<Seq<char>, Seq<Seq<u8>>>) -> Option<usize> {
    match first_value_of(values, "content-length"@) {
        Some(bytes) => decimal_number(bytes),
        None => None,
    }
}

/// The content type that the response declares, where it declares one that
/// can be read.
pub open spec fn declared_content_type(values: Map<Seq<char>, Seq<Seq<u8>>>) -> Option<Seq<char>> {
    match first_value_of(values, "content-type"@) {
        Some(bytes) => visible_text(bytes),
        None => None,
    }
}

/// Whether the settings allow a content type: by its coarse type, compared
/// letter for letter.
pub open spec fn is_accepted_content_type(settings: Settings, content_type: Seq<char>) -> bool {
    ||| settings.allow_audio && has_prefix(content_type, "audio/"@)
    ||| settings.allow_image && has_prefix(content_type, "image/"@)
    ||| settings.allow_video && has_prefix(content_type, "video/"@)
}

/// Whether the content type of a response is checked: for `GET`, unless the
/// response is a redirect.
pub open spec fn content_type_is_checked(method: RequestMethod, status: u16) -> bool {
    method == RequestMethod::Get && !is_redirection(status)
}

/// The location that leads through the proxy to `resolved`: the root URL,
/// then the path of `resolved` signed with the key.
pub open spec fn minted_location(settings: Settings, resolved: Seq<char>) -> Seq<char> {
    settings.root_url@ + signed(encode_utf8(settings.key@), resolved).encoded_path()
}

/// The value that replaces a `location` header: the location resolved
/// against the fetched target and minted anew. There is none where the
/// location is not readable text, where it cannot be resolved, or where the
/// result cannot stand as a header value.
pub open spec fn rewritten_location(settings: Settings, target: Seq<char>, location: Seq<u8>) -> Option<
    Seq<u8>,
> {
    match visible_text(location) {
        None => None,
        Some(text) => match resolved_location(target, text) {
            None => None,
            Some(resolved) => if is_header_value(encode_utf8(minted_location(settings, resolved))) {
                Some(encode_utf8(minted_location(settings, resolved)))
            } else {
                None
            },
        },
    }
}

/// Why the policy rejects an upstream response, if it does. The checks run
/// in this order: status, declared length, content type, redirect location.
pub open spec fn policy_failure(
    settings: Settings,
    method: RequestMethod,
    target: Seq<char>,
    status: u16,
    values: Map<Seq<char>, Seq<Seq<u8>>>,
) -> Option<Failure> {
    if !(is_success(status) || is_redirection(status)) {
        Some(Failure::UnexpectedUpstreamStatus(status))
    } else if declared_length(values) is Some && declared_length(values)->0 > settings.length_limit {
        Some(Failure::UpstreamResponseTooLong(declared_length(values)->0))
    } else if content_type_is_checked(method, status) && declared_content_type(values) is None {
        Some(Failure::MissingContentType)
    } else if content_type_is_checked(method, status) && !is_accepted_content_type(
        settings,
        declared_content_type(values)->0,
    ) {
        Some(Failure::ContentTypeNotAccepted(declared_content_type(values)->0))
    } else if values.contains_key("location"@) && rewritten_location(
        settings,
        target,
        values["location"@][0],
    ) is None {
        Some(Failure::UpstreamRedirectLocationUnprocessable)
    } else {
        None
    }
}

/// The headers that are handed on for a response that the policy accepts:
/// those of the upstream, with the location, if there is one, rewritten.
pub open spec fn forwarded_headers(
    settings: Settings,
    target: Seq<char>,
    values: Map<Seq<char>, Seq<Seq<u8>>>,
) -> Map<Seq<char>, Seq<Seq<u8>>> {
    if values.contains_key("location"@) {
        values.insert("location"@, seq![rewritten_location(settings, target, values["location"@][0])->0])
    } else {
        values
    }
}

/// Accepts a status that is a success or a redirect.
pub fn check_status(status: u16) -> (r: Result<(), CamoError>)
    ensures
        match r {
            Ok(()) => is_success(status) || is_redirection(status),
            Err(e) => !(is_success(status) || is_redirection(status)) && e@
                == Failure::UnexpectedUpstreamStatus(status),
        },
{
    if 200 <= status && status < 400 {
        Ok(())
    } else {
        Err(CamoError::UnexpectedUpstreamStatus(status))
    }
}

/// Rejects a response that declares a content length above the limit. A
/// response that declares none, or none that can be read, passes.
pub fn check_content_length(settings: &Settings, headers: &http::HeaderMap) -> (r: Result<
    (),
    CamoError,
>)
    ensures
        match r {
            Ok(()) => !(declared_length(header_values(*headers)) is Some && declared_length(
                header_values(*headers),
            )->0 > settings.length_limit),
            Err(e) => {
                &&& declared_length(header_values(*headers)) is Some
                &&& declared_length(header_values(*headers))->0 > settings.length_limit
                &&& e@ == Failure::UpstreamResponseTooLong(
                    declared_length(header_values(*headers))->0,
                )
            },
        },
{
    proof {
        reveal_strlit("content-length");
    }
    match first_value(headers, "content-length") {
        Some(value) => match parse_decimal(value.as_slice()) {
            Some(length) => {
                if length > settings.length_limit {
                    Err(CamoError::UpstreamResponseTooLong(length))
                } else {
                    Ok(())
                }
            },
            None => Ok(()),
        },
        None => Ok(()),
    }
}

/// Whether the settings allow a content type.
pub fn accepts_content_type(settings: &Settings, content_type: &str) -> (accepted: bool)
    ensures
        accepted == is_accepted_content_type(*settings, content_type@),
{
    (settings.allow_audio && text_starts_with(content_type, "audio/")) || (settings.allow_image
        && text_starts_with(content_type, "image/")) || (settings.allow_video && text_starts_with(
        content_type,
        "video/",
    ))
}

/// Holds the content type of a response against the settings, where it is
/// checked at all.
pub fn check_content_type(
    settings: &Settings,
    method: RequestMethod,
    status: u16,
    headers: &http::HeaderMap,
) -> (r: Result<(), CamoError>)
    ensures
        match r {
            Ok(()) => content_type_is_checked(method, status) ==> {
                &&& declared_content_type(header_values(*headers)) is Some
                &&& is_accepted_content_type(
                    *settings,
                    declared_content_type(header_values(*headers))->0,
                )
            },
            Err(e) => {
                &&& content_type_is_checked(method, status)
                &&& match declared_content_type(header_values(*headers)) {
                    None => e@ == Failure::MissingContentType,
                    Some(content_type) => !is_accepted_content_type(*settings, content_type) && e@
                        == Failure::ContentTypeNotAccepted(content_type),
                }
            },
        },
{
    let is_get = match method {
        RequestMethod::Get => true,
        _ => false,
    };
    if !is_get || (300 <= status && status < 400) {
        return Ok(());
    }
    proof {
        reveal_strlit("content-type");
    }
    let content_type = match first_value(headers, "content-type") {
        Some(value) => text_of(value),
        None => None,
    };
    match content_type {
        Some(content_type) => {
            if accepts_content_type(settings, content_type.as_str()) {
                Ok(())
            } else {
                Err(CamoError::ContentTypeNotAccepted(content_type))
            }
        },
        None => Err(CamoError::MissingContentType),
    }
}

/// The location that leads through the proxy to `resolved`.
pub fn mint_location(settings: &Settings, resolved: &str) -> (location: String)
    ensures
        location@ == minted_location(*settings, resolved@),
{
    let minted = AuthenticatedTarget::from_target(settings.key.as_str().as_bytes(), resolved);
    let mut location = settings.root_url.clone();
    location.append(minted.encoded_full_path().as_str());
    location
}

/// Replaces the `location` header, if there is one, with a location that
/// leads back through the proxy. Fails, and leaves the headers alone, where
/// there is a location that cannot be processed.
pub fn rewrite_location(settings: &Settings, target: &str, headers: &mut http::HeaderMap) -> (r:
    Result<(), CamoError>)
    requires
        header_name_count(*old(headers)) <= HEADER_NAME_LIMIT,
    ensures
        match r {
            Ok(()) => {
                &&& header_values(*old(headers)).contains_key("location"@) ==> rewritten_location(
                    *settings,
                    target@,
                    header_values(*old(headers))["location"@][0],
                ) is Some
                &&& header_values(*final(headers)) == forwarded_headers(
                    *settings,
                    target@,
                    header_values(*old(headers)),
                )
            },
            Err(e) => {
                &&& header_values(*old(headers)).contains_key("location"@)
                &&& rewritten_location(
                    *settings,
                    target@,
                    header_values(*old(headers))["location"@][0],
                ) is None
                &&& e@ == Failure::UpstreamRedirectLocationUnprocessable
                &&& header_values(*final(headers)) == header_values(*old(headers))
            },
        },
        header_name_count(*final(headers)) == header_name_count(*old(headers)),
{
    proof {
        reveal_strlit("location");
    }
    let location = match first_value(headers, "location") {
        Some(value) => value,
        None => {
            return Ok(());
        },
    };
    let location = match text_of(location) {
        Some(text) => text,
        None => {
            return Err(CamoError::UpstreamRedirectLocationUnprocessable);
        },
    };
    let resolved = match resolve_location_header(target, location.as_str()) {
        Ok(resolved) => resolved,
        Err(_) => {
            return Err(CamoError::UpstreamRedirectLocationUnprocessable);
        },
    };
    let minted = mint_location(settings, resolved.as_str());
    if !is_valid_header_value(minted.as_str().as_bytes()) {
        return Err(CamoError::UpstreamRedirectLocationUnprocessable);
    }
    set_value(headers, "location", minted.as_str().as_bytes());
    Ok(())
}

/// Holds an upstream response against the policy and rewrites its redirect
/// location. On success the headers are those to hand on; on failure they
/// are as they were.
pub fn apply_response_policy(
    settings: &Settings,
    method: RequestMethod,
    target: &str,
    status: u16,
    headers: &mut http::HeaderMap,
) -> (r: Result<(), CamoError>)
    requires
        header_name_count(*old(headers)) <= HEADER_NAME_LIMIT,
    ensures
        match r {
            Ok(()) => {
                &&& policy_failure(*settings, method, target@, status, header_values(*old(headers)))
                    is None
                &&& header_values(*final(headers)) == forwarded_headers(
                    *settings,
                    target@,
                    header_values(*old(headers)),
                )
            },
            Err(e) => {
                &&& policy_failure(*settings, method, target@, status, header_values(*old(headers)))
                    == Some(e@)
                &&& header_values(*final(headers)) == header_values(*old(headers))
            },
        },
        header_name_count(*final(headers)) == header_name_count(*old(headers)),
{
    match check_status(status) {
        Ok(()) => {},
        Err(e) => {
            return Err(e);
        },
    }
    match check_content_length(settings, headers) {
        Ok(()) => {},
        Err(e) => {
            return Err(e);
        },
    }
    match check_content_type(settings, method, status, headers) {
        Ok(()) => {},
        Err(e) => {
            return Err(e);
        },
    }
    rewrite_location(settings, target, headers)
}

/// What the pipeline answers once the fetch has ended: the failure of the
/// fetch, the failure that the policy found, or the status to hand on.
pub open spec fn conclusion(
    settings: Settings,
    method: RequestMethod,
    target: Seq<char>,
    fetched: Result<u16, ProxyError>,
    values: Map<Seq<char>, Seq<Seq<u8>>>,
) -> Result<u16, Failure> {
    match fetched {
        Err(e) => Err(Failure::Proxy(e@)),
        Ok(status) => match policy_failure(settings, method, target, status, values) {
            Some(failure) => Err(failure),
            None => Ok(status),
        },
    }
}

/// Concludes a request from how the fetch ended. A failed fetch is passed
/// on as it is; a response is held against the policy. On success the
/// result is the status to hand on, and the headers are those to hand on.
pub fn conclude_request(
    settings: &Settings,
    method: RequestMethod,
    target: &str,
    fetched: Result<u16, ProxyError>,
    headers: &mut http::HeaderMap,
) -> (r: Result<u16, CamoError>)
    requires
        header_name_count(*old(headers)) <= HEADER_NAME_LIMIT,
    ensures
        match r {
            Ok(status) => {
                &&& conclusion(*settings, method, target@, fetched, header_values(*old(headers)))
                    == Ok::<u16, Failure>(status)
                &&& header_values(*final(headers)) == forwarded_headers(
                    *settings,
                    target@,
                    header_values(*old(headers)),
                )
            },
            Err(e) => {
                &&& conclusion(*settings, method, target@, fetched, header_values(*old(headers)))
                    == Err::<u16, Failure>(e@)
                &&& header_values(*final(headers)) == header_values(*old(headers))
            },
        },
{
    match fetched {
        Err(e) => Err(CamoError::ProxyError(e)),
        Ok(status) => match apply_response_policy(settings, method, target, status, headers) {
            Ok(()) => Ok(status),
            Err(e) => Err(e),
        },
    }
}

/// Redirects stay inside the proxy. With a root URL that can stand in a
/// header, every minted location can too, and begins with the root URL; so
/// a location is rewritten unless it cannot be read or cannot be resolved.
pub proof fn lemma_redirects_stay_inside(
    settings: Settings,
    target: Seq<char>,
    location: Seq<u8>,
    resolved: Seq<char>,
)
    requires
        is_header_value(encode_utf8(settings.root_url@)),
    ensures
        is_header_value(encode_utf8(minted_location(settings, resolved))),
        has_prefix(minted_location(settings, resolved), settings.root_url@),
        rewritten_location(settings, target, location) is None <==> visible_text(location) is None
            || resolved_location(target, visible_text(location)->0) is None,
        rewritten_location(settings, target, location) is Some ==> rewritten_location(
            settings,
            target,
            location,
        )->0 == encode_utf8(
            minted_location(settings, resolved_location(target, visible_text(location)->0)->0),
        ),
{
    assert forall|to: Seq<char>|
        is_header_value(encode_utf8(#[trigger] minted_location(settings, to))) by {
        let path = signed(encode_utf8(settings.key@), to).encoded_path();
        assert forall|i: int| 0 <= i < path.len() implies ' ' <= #[trigger] path[i] <= '~' by {
            let digest = hex_encoded(signed(encode_utf8(settings.key@), to).digest);
            let text = hex_encoded(encode_utf8(to));
            if i < digest.len() {
                assert(path[i] == digest[i]);
            } else if i == digest.len() {
                assert(path[i] == '/');
            } else {
                assert(path[i] == text[i - digest.len() - 1]);
            }
        }
        lemma_printable_text_is_header_value(path);
        lemma_encode_utf8_concat(settings.root_url@, path);
    }
    assert(minted_location(settings, resolved).subrange(0, settings.root_url@.len() as int)
        =~= settings.root_url@);
}

} // verus!
