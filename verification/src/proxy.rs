//! The upstream client's rules: what is sent to the upstream and what is
//! added to its response. The request itself is made by the caller.

use vstd::prelude::*;
use vstd::string::*;
use vstd::utf8::*;

use crate::errors::{ProxyError, ProxyFailure};
use crate::header_wrangler::{
    absent, added_by_filtering, added_by_hardening, assign_filtered_request_headers, filtered,
    force_secure_response_headers, forced_before, hardened, hardened_before,
    header_name_count,
    header_value_refusal,
    header_values, is_header_value, is_secure_response_header,
    lemma_added_by_filtering_is_bounded, lemma_added_by_hardening_is_bounded,
    lemma_hardening_is_idempotent, lemma_security_headers_win, set_value, HEADER_NAME_LIMIT, INVALID_HEADER_VALUE,
};

verus! {

/// Why the `http` crate does not take `target` as the URI of a request, in
/// the crate's words; `None` where it takes it.
pub uninterp spec fn request_target_refusal(target: Seq<char>) -> Option<Seq<char>>;

/// Whether the `http` crate takes `target` as the URI of a request.
pub open spec fn is_request_target(target: Seq<char>) -> bool {
    request_target_refusal(target) is None
}

/// `http::Uri::try_from` on a string, as the request builder calls it, and
/// `Display` of the `InvalidUri` that it gives: nothing for text that parses
/// as a URI, the error's words otherwise. The outcome is named
/// `request_target_refusal` of the text.
#[verifier::external_body]
fn uri_refusal(target: &str) -> (r: Option<String>)
    ensures
        match r {
            None => request_target_refusal(target@) is None,
            Some(report) => request_target_refusal(target@) == Some(report@),
        },
{
    match http::Uri::try_from(target) {
        Ok(_) => None,
        Err(error) => Some(error.to_string()),
    }
}

/// The most header names that `prepare_request` adds.
pub const REQUEST_HEADER_ROOM: usize = 10;

/// The most header names that `finish_response` adds.
pub const RESPONSE_HEADER_ROOM: usize = 5;

/// The name of the response header that tells which URL was fetched.
pub const ORIGINAL_URL_HEADER: &'static str = "x-camo-original-url";

/// The rules of the upstream client.
#[derive(Clone, Debug)]
pub struct Proxy {
    via_header: String,
    upstream_timeout: usize,
}

/// Headers with the identification string as the only value of `user-agent`
/// and of `via`.
pub open spec fn identified(
    identification: Seq<char>,
    outbound: Map<Seq<char>, Seq<Seq<u8>>>,
) -> Map<Seq<char>, Seq<Seq<u8>>> {
    outbound.insert("user-agent"@, seq![encode_utf8(identification)]).insert(
        "via"@,
        seq![encode_utf8(identification)],
    )
}

/// The outbound headers of a request: the identification string as
/// `user-agent` and as `via`, then the inbound headers filtered in.
pub open spec fn request_headers_of(
    identification: Seq<char>,
    inbound: Map<Seq<char>, Seq<Seq<u8>>>,
    outbound: Map<Seq<char>, Seq<Seq<u8>>>,
) -> Map<Seq<char>, Seq<Seq<u8>>> {
    filtered(inbound, identified(identification, outbound))
}

/// How many names preparing a request adds to the outbound headers:
/// `user-agent` and `via` where they were absent, and each allowed header
/// that the inbound headers have and the outbound headers lack.
pub open spec fn added_by_preparing(
    identification: Seq<char>,
    inbound: Map<Seq<char>, Seq<Seq<u8>>>,
    outbound: Map<Seq<char>, Seq<Seq<u8>>>,
) -> nat {
    absent(outbound, "user-agent"@) + absent(outbound, "via"@) + added_by_filtering(
        inbound,
        identified(identification, outbound),
    )
}

/// The headers of a response that is handed on: hardened, and with the
/// fetched URL as the only value of `x-camo-original-url`.
pub open spec fn response_headers_of(target: Seq<char>, upstream: Map<Seq<char>, Seq<Seq<u8>>>) -> Map<
    Seq<char>,
    Seq<Seq<u8>>,
> {
    hardened(upstream).insert(ORIGINAL_URL_HEADER@, seq![encode_utf8(target)])
}

/// How many names finishing a response adds to its headers: the forced
/// headers and `x-camo-original-url`, where they were absent.
pub open spec fn added_by_finishing(upstream: Map<Seq<char>, Seq<Seq<u8>>>) -> nat {
    added_by_hardening(upstream) + absent(upstream, ORIGINAL_URL_HEADER@)
}

/// Headers with room for `REQUEST_HEADER_ROOM` names can be prepared, and
/// headers with room for `RESPONSE_HEADER_ROOM` names can be finished.
pub proof fn lemma_rooms_suffice(
    identification: Seq<char>,
    inbound: Map<Seq<char>, Seq<Seq<u8>>>,
    headers: Map<Seq<char>, Seq<Seq<u8>>>,
)
    ensures
        added_by_preparing(identification, inbound, headers) <= REQUEST_HEADER_ROOM,
        added_by_finishing(headers) <= RESPONSE_HEADER_ROOM,
{
    lemma_added_by_filtering_is_bounded(inbound, identified(identification, headers), 8);
    lemma_added_by_hardening_is_bounded(headers, 4);
}

/// `x-camo-original-url` is none of the forced headers, so hardening leaves
/// it as it was.
proof fn lemma_original_url_is_not_forced()
    ensures
        !is_secure_response_header(ORIGINAL_URL_HEADER@),
{
    reveal_strlit("x-camo-original-url");
    reveal_strlit("content-security-policy");
    reveal_strlit("x-content-type-options");
    reveal_strlit("x-frame-options");
    reveal_strlit("x-xss-protection");
    assert("x-camo-original-url"@.len() == 19);
    assert("content-security-policy"@.len() == 23);
    assert("x-content-type-options"@.len() == 22);
    assert("x-frame-options"@.len() == 15);
    assert("x-xss-protection"@.len() == 16);
}

impl Proxy {
    /// The identification string.
    pub closed spec fn identification(&self) -> Seq<char> {
        self.via_header@
    }

    /// The timeout in seconds.
    pub closed spec fn timeout(&self) -> usize {
        self.upstream_timeout
    }

    /// A proxy that identifies itself with `via_header` and waits
    /// `upstream_timeout` seconds for the upstream.
    pub fn new(via_header: &str, upstream_timeout: usize) -> (proxy: Self)
        ensures
            proxy.identification() == via_header@,
            proxy.timeout() == upstream_timeout,
    {
        Proxy { via_header: via_header.to_owned(), upstream_timeout }
    }

    /// The identification string.
    pub fn via_header(&self) -> (text: &str)
        ensures
            text@ == self.identification(),
    {
        self.via_header.as_str()
    }

    /// The number of seconds to wait for the upstream.
    pub fn timeout_seconds(&self) -> (seconds: u64)
        ensures
            seconds == self.timeout(),
    {
        self.upstream_timeout as u64
    }

    /// Fills the headers of the upstream request: the identification string
    /// as `user-agent` and `via`, and the allowed headers of the inbound
    /// request. Fails, and leaves the headers alone, where the identification
    /// string cannot be a header value; the error then carries the `http`
    /// crate's words for that.
    pub fn request_headers(&self, inbound: &http::HeaderMap, outbound: &mut http::HeaderMap) -> (r:
        Result<(), ProxyError>)
        requires
            header_name_count(*old(outbound)) + added_by_preparing(
                self.identification(),
                header_values(*inbound),
                header_values(*old(outbound)),
            ) <= HEADER_NAME_LIMIT,
        ensures
            match r {
                Ok(()) => {
                    &&& is_header_value(encode_utf8(self.identification()))
                    &&& header_values(*final(outbound)) == request_headers_of(
                        self.identification(),
                        header_values(*inbound),
                        header_values(*old(outbound)),
                    )
                    &&& header_name_count(*final(outbound)) == header_name_count(*old(outbound))
                        + added_by_preparing(
                        self.identification(),
                        header_values(*inbound),
                        header_values(*old(outbound)),
                    )
                },
                Err(e) => {
                    &&& !is_header_value(encode_utf8(self.identification()))
                    &&& e@ == ProxyFailure::RequestBuildingFailed(INVALID_HEADER_VALUE@)
                    &&& header_values(*final(outbound)) == header_values(*old(outbound))
                    &&& header_name_count(*final(outbound)) == header_name_count(*old(outbound))
                },
            },
    {
        let identification = self.via_header.as_str().as_bytes();
        match header_value_refusal(identification) {
            Some(report) => {
                return Err(ProxyError::RequestBuildingFailed(report));
            },
            None => {},
        }
        proof {
            reveal_strlit("user-agent");
            reveal_strlit("via");
            assert("user-agent"@.len() == 10 && "via"@.len() == 3);
        }
        set_value(outbound, "user-agent", identification);
        set_value(outbound, "via", identification);
        assign_filtered_request_headers(inbound, outbound);
        Ok(())
    }

    /// Prepares the upstream request for `target`: checks that the target
    /// can be requested, then fills the headers as `request_headers` does.
    /// Where the target cannot be requested, the error carries the `http`
    /// crate's words for why.
    pub fn prepare_request(
        &self,
        inbound: &http::HeaderMap,
        target: &str,
        outbound: &mut http::HeaderMap,
    ) -> (r: Result<(), ProxyError>)
        requires
            header_name_count(*old(outbound)) + added_by_preparing(
                self.identification(),
                header_values(*inbound),
                header_values(*old(outbound)),
            ) <= HEADER_NAME_LIMIT,
        ensures
            match r {
                Ok(()) => {
                    &&& is_request_target(target@)
                    &&& is_header_value(encode_utf8(self.identification()))
                    &&& header_values(*final(outbound)) == request_headers_of(
                        self.identification(),
                        header_values(*inbound),
                        header_values(*old(outbound)),
                    )
                    &&& header_name_count(*final(outbound)) == header_name_count(*old(outbound))
                        + added_by_preparing(
                        self.identification(),
                        header_values(*inbound),
                        header_values(*old(outbound)),
                    )
                },
                Err(e) => {
                    &&& header_values(*final(outbound)) == header_values(*old(outbound))
                    &&& header_name_count(*final(outbound)) == header_name_count(*old(outbound))
                    &&& e@ == match request_target_refusal(target@) {
                        Some(report) => ProxyFailure::RequestBuildingFailed(report),
                        None => ProxyFailure::RequestBuildingFailed(INVALID_HEADER_VALUE@),
                    }
                    &&& !is_request_target(target@) || !is_header_value(
                        encode_utf8(self.identification()),
                    )
                },
            },
    {
        match uri_refusal(target) {
            Some(report) => {
                return Err(ProxyError::RequestBuildingFailed(report));
            },
            None => {},
        }
        self.request_headers(inbound, outbound)
    }

    /// Finishes the headers of an upstream response, whatever its status:
    /// forces the security headers and sets `x-camo-original-url` to the URL
    /// that was fetched. Every other header stays; the number of names grows
    /// by those of the five that were absent, so a second call changes
    /// nothing.
    pub fn finish_response(&self, target: &str, headers: &mut http::HeaderMap)
        requires
            is_header_value(encode_utf8(target@)),
            header_name_count(*old(headers)) + added_by_finishing(header_values(*old(headers)))
                <= HEADER_NAME_LIMIT,
        ensures
            header_values(*final(headers)) == response_headers_of(
                target@,
                header_values(*old(headers)),
            ),
            header_name_count(*final(headers)) == header_name_count(*old(headers))
                + added_by_finishing(header_values(*old(headers))),
            added_by_finishing(header_values(*final(headers))) == 0,
            response_headers_of(target@, header_values(*final(headers))) == header_values(
                *final(headers),
            ),
            header_values(*final(headers)).contains_key("x-camo-original-url"@),
            header_values(*final(headers))["x-camo-original-url"@] == seq![encode_utf8(target@)],
            header_values(*final(headers)).contains_key("content-security-policy"@),
            header_values(*final(headers))["content-security-policy"@] == seq![
                encode_utf8("default-src 'none'; img-src data:; style-src 'unsafe-inline'"@),
            ],
            header_values(*final(headers)).contains_key("x-content-type-options"@),
            header_values(*final(headers))["x-content-type-options"@] == seq![
                encode_utf8("nosniff"@),
            ],
            header_values(*final(headers)).contains_key("x-frame-options"@),
            header_values(*final(headers))["x-frame-options"@] == seq![encode_utf8("deny"@)],
            header_values(*final(headers)).contains_key("x-xss-protection"@),
            header_values(*final(headers))["x-xss-protection"@] == seq![
                encode_utf8("1; mode=block"@),
            ],
            forall|name: Seq<char>|
                !is_secure_response_header(name) && name != "x-camo-original-url"@ ==> (
                #[trigger] header_values(*final(headers)).contains_key(name)) == header_values(
                    *old(headers),
                ).contains_key(name),
            forall|name: Seq<char>|
                !is_secure_response_header(name) && name != "x-camo-original-url"@ && header_values(
                    *old(headers),
                ).contains_key(name) ==> (#[trigger] header_values(*final(headers))[name])
                    == header_values(*old(headers))[name],
    {
        proof {
            lemma_original_url_is_not_forced();
            lemma_security_headers_win(header_values(*old(headers)), ORIGINAL_URL_HEADER@);
            lemma_added_by_hardening_is_bounded(header_values(*old(headers)), 4);
            reveal_strlit("x-camo-original-url");
        }
        force_secure_response_headers(headers);
        set_value(headers, ORIGINAL_URL_HEADER, target.as_bytes());
        proof {
            // Setting one more header takes none of the forced ones away.
            lemma_hardening_is_idempotent(header_values(*old(headers)));
            reveal_with_fuel(forced_before, 5);
            reveal_with_fuel(hardened_before, 5);
            assert(response_headers_of(target@, header_values(*headers)) =~= header_values(
                *headers,
            ));
        }
    }
}

} // verus!
