//! The header rules: which request headers are passed on to the upstream,
//! which response headers are forced, and how a redirect location is resolved.

use vstd::prelude::*;
use vstd::string::*;
use vstd::utf8::*;

verus! {

/// `http::HeaderMap`, the header collection that requests and responses carry.
#[verifier::external_type_specification]
#[verifier::external_body]
#[verifier::reject_recursive_types(T)]
pub struct ExHeaderMap<T>(http::HeaderMap<T>);

/// `http::HeaderValue`, the item type of a header map.
#[verifier::external_type_specification]
#[verifier::external_body]
pub struct ExHeaderValue(http::HeaderValue);

/// What a header map holds: for each header name that has a value, in lower
/// case, the bytes of its values in the order in which they were added.
pub uninterp spec fn header_values(headers: http::HeaderMap) -> Map<Seq<char>, Seq<Seq<u8>>>;

/// The number of distinct header names in a header map.
pub uninterp spec fn header_name_count(headers: http::HeaderMap) -> nat;

/// A header map with no more names than this takes a value under any name.
/// The map refuses to grow its table beyond 32768 slots, which it may
/// attempt once it holds 6554 names, and not before.
pub const HEADER_NAME_LIMIT: usize = 6553;

/// 1 where the header is absent, 0 where it has a value: by how much the
/// number of names grows when the header is set.
pub open spec fn absent(values: Map<Seq<char>, Seq<Seq<u8>>>, name: Seq<char>) -> nat {
    if values.contains_key(name) {
        0
    } else {
        1
    }
}

/// The characters of a header name: lower-case letters, digits, and the
/// token punctuation of HTTP.
pub open spec fn is_header_name_char(c: char) -> bool {
    ||| 'a' <= c && c <= 'z'
    ||| '0' <= c && c <= '9'
    ||| c == '!' || c == '#' || c == '$' || c == '%' || c == '&' || c == '\'' || c == '*'
    ||| c == '+' || c == '-' || c == '.' || c == '^' || c == '_' || c == '`' || c == '|' || c == '~'
}

/// A header name as this library writes it: 1 to 64 header name characters.
pub open spec fn is_header_name(name: Seq<char>) -> bool {
    &&& 1 <= name.len() <= 64
    &&& forall|i: int| 0 <= i < name.len() ==> is_header_name_char(#[trigger] name[i])
}

/// A byte that a header value may hold: anything but the control characters,
/// the tab excepted.
pub open spec fn is_header_value_byte(byte: u8) -> bool {
    (byte >= 32 && byte != 127) || byte == 9
}

/// The bytes of a header value.
pub open spec fn is_header_value(bytes: Seq<u8>) -> bool {
    forall|i: int| 0 <= i < bytes.len() ==> is_header_value_byte(#[trigger] bytes[i])
}

/// `HeaderMap::get` with a string as the name, and `HeaderValue::as_bytes` on
/// what it finds: the first value of the header, or `None` where the map has
/// no value under that name. A stored value holds header value bytes only.
#[verifier::external_body]
pub(crate) fn first_value(headers: &http::HeaderMap, name: &str) -> (r: Option<Vec<u8>>)
    requires
        is_header_name(name@),
    ensures
        match r {
            Some(value) => {
                &&& header_values(*headers).contains_key(name@)
                &&& header_values(*headers)[name@].len() > 0
                &&& value@ == header_values(*headers)[name@][0]
                &&& is_header_value(value@)
            },
            None => !header_values(*headers).contains_key(name@),
        },
{
    match headers.get(name) {
        Some(value) => Some(value.as_bytes().to_vec()),
        None => None,
    }
}

/// `HeaderMap::insert` with a static string as the name and the value made by
/// `HeaderValue::from_bytes`: afterwards the header has this one value, and
/// every other header is as before; the number of names grows by one where
/// the header was absent. `from_bytes` accepts header value bytes, and a map
/// within the name limit accepts the insertion, so neither panics.
#[verifier::external_body]
pub(crate) fn set_value(headers: &mut http::HeaderMap, name: &'static str, value: &[u8])
    requires
        is_header_name(name@),
        is_header_value(value@),
        header_name_count(*old(headers)) <= HEADER_NAME_LIMIT,
    ensures
        header_values(*final(headers)) == header_values(*old(headers)).insert(
            name@,
            seq![value@],
        ),
        header_name_count(*final(headers)) == header_name_count(*old(headers)) + absent(
            header_values(*old(headers)),
            name@,
        ),
{
    let value = http::HeaderValue::from_bytes(value).expect("header value bytes");
    headers.insert(name, value);
}

/// What the `http` crate says of bytes that it refuses as a header value.
pub const INVALID_HEADER_VALUE: &'static str = "failed to parse header value";

/// `HeaderValue::from_bytes`, and `Display` of the `InvalidHeaderValue` that
/// it gives: nothing for header value bytes, and for all other bytes the
/// crate's one fixed sentence.
#[verifier::external_body]
pub(crate) fn header_value_refusal(bytes: &[u8]) -> (r: Option<String>)
    ensures
        match r {
            None => is_header_value(bytes@),
            Some(report) => !is_header_value(bytes@) && report@ == INVALID_HEADER_VALUE@,
        },
{
    match http::HeaderValue::from_bytes(bytes) {
        Ok(_) => None,
        Err(error) => Some(error.to_string()),
    }
}

/// `HeaderMap::keys_len`: the number of distinct names.
#[verifier::external_body]
pub(crate) fn name_count(headers: &http::HeaderMap) -> (count: usize)
    ensures
        count == header_name_count(*headers),
{
    headers.keys_len()
}

/// The request headers that are passed on to the upstream. Everything else,
/// cookies and credentials above all, stays behind.
pub const ALLOWED_REQUEST_HEADERS: [&'static str; 8] = [
    "accept",
    "accept-encoding",
    "accept-language",
    "cache-control",
    "if-modified-since",
    "if-none-match",
    "pragma",
    "te",
];

/// The response headers that are forced onto every proxied response, with
/// their values. The content security policy keeps scripts inside a proxied
/// document, an SVG for one, from running.
pub const SECURE_RESPONSE_HEADERS: [(&'static str, &'static str); 4] = [
    ("content-security-policy", "default-src 'none'; img-src data:; style-src 'unsafe-inline'"),
    ("x-content-type-options", "nosniff"),
    ("x-frame-options", "deny"),
    ("x-xss-protection", "1; mode=block"),
];

/// Whether `name` is one of the first `count` allowed request headers.
pub open spec fn is_allowed_before(name: Seq<char>, count: int) -> bool {
    exists|i: int| 0 <= i < count && i < 8 && (#[trigger] ALLOWED_REQUEST_HEADERS[i])@ == name
}

/// Whether `name` is on the allow-list of request headers.
pub open spec fn is_allowed_request_header(name: Seq<char>) -> bool {
    is_allowed_before(name, 8)
}

/// `to` after the first value of each of the first `count` allowed headers
/// that `from` has was set in it.
pub open spec fn filtered_before(
    from: Map<Seq<char>, Seq<Seq<u8>>>,
    to: Map<Seq<char>, Seq<Seq<u8>>>,
    count: int,
) -> Map<Seq<char>, Seq<Seq<u8>>> {
    Map::new(
        |name: Seq<char>| (is_allowed_before(name, count) && from.contains_key(name)) || to.contains_key(name),
        |name: Seq<char>|
            if is_allowed_before(name, count) && from.contains_key(name) {
                seq![from[name][0]]
            } else {
                to[name]
            },
    )
}

/// The outbound headers `to` after filtering the inbound headers `from` into
/// them: an allowed header that `from` has takes the first value it has in
/// `from`, as its only value; every other header of `to` is as before.
pub open spec fn filtered(
    from: Map<Seq<char>, Seq<Seq<u8>>>,
    to: Map<Seq<char>, Seq<Seq<u8>>>,
) -> Map<Seq<char>, Seq<Seq<u8>>> {
    filtered_before(from, to, 8)
}

/// How many names filtering the first `count` allowed headers adds to `to`:
/// one for each of them that `from` has and `to` lacks.
pub open spec fn added_before(
    from: Map<Seq<char>, Seq<Seq<u8>>>,
    to: Map<Seq<char>, Seq<Seq<u8>>>,
    count: int,
) -> nat
    decreases count,
{
    if count <= 0 {
        0
    } else {
        added_before(from, to, count - 1) + if from.contains_key(
            ALLOWED_REQUEST_HEADERS[count - 1]@,
        ) {
            absent(to, ALLOWED_REQUEST_HEADERS[count - 1]@)
        } else {
            0
        }
    }
}

/// How many names filtering `from` into `to` adds to `to`: one for each
/// allowed header that `from` has and `to` lacks.
pub open spec fn added_by_filtering(
    from: Map<Seq<char>, Seq<Seq<u8>>>,
    to: Map<Seq<char>, Seq<Seq<u8>>>,
) -> nat {
    added_before(from, to, 8)
}

proof fn lemma_allowed_names_are_header_names(i: int)
    requires
        0 <= i < 8,
    ensures
        is_header_name(ALLOWED_REQUEST_HEADERS[i]@),
{
    reveal_strlit("accept");
    reveal_strlit("accept-encoding");
    reveal_strlit("accept-language");
    reveal_strlit("cache-control");
    reveal_strlit("if-modified-since");
    reveal_strlit("if-none-match");
    reveal_strlit("pragma");
    reveal_strlit("te");
}

/// No name stands twice on the allow-list.
pub proof fn lemma_allowed_names_are_distinct(i: int, j: int)
    requires
        0 <= i < 8,
        0 <= j < 8,
        i != j,
    ensures
        ALLOWED_REQUEST_HEADERS[i]@ != ALLOWED_REQUEST_HEADERS[j]@,
{
    reveal_strlit("accept");
    reveal_strlit("accept-encoding");
    reveal_strlit("accept-language");
    reveal_strlit("cache-control");
    reveal_strlit("if-modified-since");
    reveal_strlit("if-none-match");
    reveal_strlit("pragma");
    reveal_strlit("te");
    assert("accept"@.len() == 6 && "accept"@[0] == 'a');
    assert("accept-encoding"@.len() == 15 && "accept-encoding"@[7] == 'e');
    assert("accept-language"@.len() == 15 && "accept-language"@[7] == 'l');
    assert("cache-control"@.len() == 13 && "cache-control"@[0] == 'c');
    assert("if-modified-since"@.len() == 17);
    assert("if-none-match"@.len() == 13 && "if-none-match"@[0] == 'i');
    assert("pragma"@.len() == 6 && "pragma"@[0] == 'p');
    assert("te"@.len() == 2);
}

/// Filtering adds no more names in part than in whole, and at most eight.
pub proof fn lemma_added_by_filtering_is_bounded(
    from: Map<Seq<char>, Seq<Seq<u8>>>,
    to: Map<Seq<char>, Seq<Seq<u8>>>,
    count: int,
)
    requires
        0 <= count <= 8,
    ensures
        added_before(from, to, count) <= added_by_filtering(from, to),
        added_by_filtering(from, to) <= 8,
        added_before(from, to, count) <= count,
{
    reveal_with_fuel(added_before, 9);
}

/// Copies the allowed request headers of `from` into `to`. An allowed header
/// that `to` already has is overwritten; all other headers of `to` stay.
pub fn assign_filtered_request_headers(from: &http::HeaderMap, to: &mut http::HeaderMap)
    requires
        header_name_count(*old(to)) + added_by_filtering(
            header_values(*from),
            header_values(*old(to)),
        ) <= HEADER_NAME_LIMIT,
    ensures
        header_values(*final(to)) == filtered(header_values(*from), header_values(*old(to))),
        header_name_count(*final(to)) == header_name_count(*old(to)) + added_by_filtering(
            header_values(*from),
            header_values(*old(to)),
        ),
{
    let mut i: usize = 0;
    assert(header_values(*to) =~= filtered_before(header_values(*from), header_values(*old(to)), 0));
    while i < 8
        invariant
            0 <= i <= 8,
            header_values(*to) == filtered_before(
                header_values(*from),
                header_values(*old(to)),
                i as int,
            ),
            header_name_count(*to) == header_name_count(*old(to)) + added_before(
                header_values(*from),
                header_values(*old(to)),
                i as int,
            ),
            header_name_count(*old(to)) + added_by_filtering(
                header_values(*from),
                header_values(*old(to)),
            ) <= HEADER_NAME_LIMIT,
        decreases 8 - i,
    {
        let name = ALLOWED_REQUEST_HEADERS[i];
        let ghost f = header_values(*from);
        let ghost t = header_values(*old(to));
        proof {
            lemma_allowed_names_are_header_names(i as int);
            lemma_added_by_filtering_is_bounded(f, t, i as int);
            // The name at hand is none of those that came before it.
            assert(!is_allowed_before(name@, i as int)) by {
                if is_allowed_before(name@, i as int) {
                    let j = choose|j: int|
                        0 <= j < i && j < 8 && (#[trigger] ALLOWED_REQUEST_HEADERS[j])@ == name@;
                    lemma_allowed_names_are_distinct(j, i as int);
                }
            }
            assert(header_values(*to).contains_key(name@) == t.contains_key(name@));
        }
        match first_value(from, name) {
            Some(value) => {
                set_value(to, name, value.as_slice());
            },
            None => {},
        }
        proof {
            assert forall|n: Seq<char>| is_allowed_before(n, i + 1) <==> (is_allowed_before(n, i as int) || n == name@) by {
                if is_allowed_before(n, i as int) {
                    let j = choose|j: int| 0 <= j < i && j < 8 && (#[trigger] ALLOWED_REQUEST_HEADERS[j])@ == n;
                    assert(0 <= j < i + 1 && j < 8 && ALLOWED_REQUEST_HEADERS[j]@ == n);
                }
                if n == name@ {
                    assert(0 <= i < i + 1 && i < 8 && ALLOWED_REQUEST_HEADERS[i as int]@ == n);
                }
            }
            assert(header_values(*to) =~= filtered_before(f, t, i + 1));
        }
        i = i + 1;
    }
}

/// The allow-list, name by name.
pub proof fn lemma_allow_list(name: Seq<char>)
    ensures
        is_allowed_request_header(name) <==> {
            ||| name == "accept"@
            ||| name == "accept-encoding"@
            ||| name == "accept-language"@
            ||| name == "cache-control"@
            ||| name == "if-modified-since"@
            ||| name == "if-none-match"@
            ||| name == "pragma"@
            ||| name == "te"@
        },
{
    assert(ALLOWED_REQUEST_HEADERS[0]@ == "accept"@);
    assert(ALLOWED_REQUEST_HEADERS[1]@ == "accept-encoding"@);
    assert(ALLOWED_REQUEST_HEADERS[2]@ == "accept-language"@);
    assert(ALLOWED_REQUEST_HEADERS[3]@ == "cache-control"@);
    assert(ALLOWED_REQUEST_HEADERS[4]@ == "if-modified-since"@);
    assert(ALLOWED_REQUEST_HEADERS[5]@ == "if-none-match"@);
    assert(ALLOWED_REQUEST_HEADERS[6]@ == "pragma"@);
    assert(ALLOWED_REQUEST_HEADERS[7]@ == "te"@);
}

/// The allow-list is exhaustive and exact. Filtering into an empty set of
/// headers leaves exactly the allowed headers that the source has, each with
/// the first value it has there; `cookie` and `authorization` are not among
/// them, whatever the source holds.
pub proof fn lemma_filter_forwards_only_allowed(from: Map<Seq<char>, Seq<Seq<u8>>>, name: Seq<char>)
    ensures
        filtered(from, Map::empty()).contains_key(name) <==> is_allowed_request_header(name)
            && from.contains_key(name),
        filtered(from, Map::empty()).contains_key(name) ==> filtered(from, Map::empty())[name]
            == seq![from[name][0]],
        !filtered(from, Map::empty()).contains_key("cookie"@),
        !filtered(from, Map::empty()).contains_key("authorization"@),
{
    lemma_allow_list("cookie"@);
    lemma_allow_list("authorization"@);
    reveal_strlit("cookie");
    reveal_strlit("authorization");
    reveal_strlit("accept");
    reveal_strlit("accept-encoding");
    reveal_strlit("accept-language");
    reveal_strlit("cache-control");
    reveal_strlit("if-modified-since");
    reveal_strlit("if-none-match");
    reveal_strlit("pragma");
    reveal_strlit("te");
    assert("cookie"@.len() == 6 && "cookie"@[0] == 'c');
    assert("authorization"@.len() == 13 && "authorization"@[0] == 'a');
    assert("accept"@.len() == 6 && "accept"@[0] == 'a');
    assert("accept-encoding"@.len() == 15);
    assert("accept-language"@.len() == 15);
    assert("cache-control"@.len() == 13 && "cache-control"@[0] == 'c');
    assert("if-modified-since"@.len() == 17);
    assert("if-none-match"@.len() == 13 && "if-none-match"@[0] == 'i');
    assert("pragma"@.len() == 6 && "pragma"@[0] == 'p');
    assert("te"@.len() == 2);
}

/// Filtering leaves every header that is not on the allow-list as the
/// destination had it.
pub proof fn lemma_filter_keeps_other_headers(
    from: Map<Seq<char>, Seq<Seq<u8>>>,
    to: Map<Seq<char>, Seq<Seq<u8>>>,
    name: Seq<char>,
)
    requires
        !is_allowed_request_header(name),
    ensures
        filtered(from, to).contains_key(name) == to.contains_key(name),
        to.contains_key(name) ==> filtered(from, to)[name] == to[name],
{
}

/// The name of the `i`-th forced response header.
pub open spec fn secure_header_name(i: int) -> Seq<char> {
    SECURE_RESPONSE_HEADERS[i].0@
}

/// The value of the `i`-th forced response header, as bytes.
pub open spec fn secure_header_value(i: int) -> Seq<u8> {
    encode_utf8(SECURE_RESPONSE_HEADERS[i].1@)
}

/// `values` after the first `count` forced response headers were set.
pub open spec fn hardened_before(values: Map<Seq<char>, Seq<Seq<u8>>>, count: int) -> Map<
    Seq<char>,
    Seq<Seq<u8>>,
>
    decreases count,
{
    if count <= 0 {
        values
    } else {
        hardened_before(values, count - 1).insert(
            secure_header_name(count - 1),
            seq![secure_header_value(count - 1)],
        )
    }
}

/// Response headers after hardening: each of the four forced headers has
/// its fixed value as its only value, and every other header is as before.
pub open spec fn hardened(values: Map<Seq<char>, Seq<Seq<u8>>>) -> Map<Seq<char>, Seq<Seq<u8>>> {
    hardened_before(values, 4)
}

/// Text of printable ASCII characters, written as bytes, is a header value.
pub proof fn lemma_printable_text_is_header_value(text: Seq<char>)
    requires
        forall|i: int| 0 <= i < text.len() ==> ' ' <= #[trigger] text[i] <= '~',
    ensures
        is_header_value(encode_utf8(text)),
        encode_utf8(text).len() == text.len(),
        forall|i: int| 0 <= i < text.len() ==> (#[trigger] encode_utf8(text)[i]) == text[i] as u8,
{
    assert(is_ascii_chars(text));
    is_ascii_chars_encode_utf8(text);
}

proof fn lemma_secure_headers_are_well_formed(i: int)
    requires
        0 <= i < 4,
    ensures
        is_header_name(secure_header_name(i)),
        is_header_value(secure_header_value(i)),
{
    reveal_strlit("content-security-policy");
    reveal_strlit("x-content-type-options");
    reveal_strlit("x-frame-options");
    reveal_strlit("x-xss-protection");
    reveal_strlit("default-src 'none'; img-src data:; style-src 'unsafe-inline'");
    reveal_strlit("nosniff");
    reveal_strlit("deny");
    reveal_strlit("1; mode=block");
    lemma_printable_text_is_header_value(SECURE_RESPONSE_HEADERS[i].1@);
}

/// Setting the first `count` forced headers leaves the later ones as absent
/// or present as they were.
proof fn lemma_forced_name_is_untouched(values: Map<Seq<char>, Seq<Seq<u8>>>, count: int, i: int)
    requires
        0 <= count <= i < 4,
    ensures
        hardened_before(values, count).contains_key(secure_header_name(i)) == values.contains_key(
            secure_header_name(i),
        ),
    decreases count,
{
    if count > 0 {
        lemma_forced_name_is_untouched(values, count - 1, i);
        lemma_secure_names_are_distinct(count - 1, i);
    }
}

/// How many names setting the first `count` forced headers adds to
/// `values`: one for each of them that `values` lacks.
pub open spec fn forced_before(values: Map<Seq<char>, Seq<Seq<u8>>>, count: int) -> nat
    decreases count,
{
    if count <= 0 {
        0
    } else {
        forced_before(values, count - 1) + absent(values, secure_header_name(count - 1))
    }
}

/// How many names hardening adds to `values`: one for each forced header
/// that `values` lacks.
pub open spec fn added_by_hardening(values: Map<Seq<char>, Seq<Seq<u8>>>) -> nat {
    forced_before(values, 4)
}

/// Whether `name` is one of the four forced response headers.
pub open spec fn is_secure_response_header(name: Seq<char>) -> bool {
    ||| name == "content-security-policy"@
    ||| name == "x-content-type-options"@
    ||| name == "x-frame-options"@
    ||| name == "x-xss-protection"@
}

/// No name stands twice among the forced headers.
pub proof fn lemma_secure_names_are_distinct(i: int, j: int)
    requires
        0 <= i < 4,
        0 <= j < 4,
        i != j,
    ensures
        secure_header_name(i) != secure_header_name(j),
{
    reveal_strlit("content-security-policy");
    reveal_strlit("x-content-type-options");
    reveal_strlit("x-frame-options");
    reveal_strlit("x-xss-protection");
    assert("content-security-policy"@.len() == 23);
    assert("x-content-type-options"@.len() == 22);
    assert("x-frame-options"@.len() == 15);
    assert("x-xss-protection"@.len() == 16);
}

/// Hardening adds no more names in part than in whole, at most four, and
/// none to headers that are hardened already.
pub proof fn lemma_added_by_hardening_is_bounded(values: Map<Seq<char>, Seq<Seq<u8>>>, count: int)
    requires
        0 <= count <= 4,
    ensures
        forced_before(values, count) <= added_by_hardening(values),
        added_by_hardening(values) <= 4,
        added_by_hardening(hardened(values)) == 0,
{
    reveal_with_fuel(forced_before, 5);
    reveal_with_fuel(hardened_before, 5);
}

/// Security headers always win. Whatever the headers held before, after
/// hardening each of the four forced headers has its fixed value and no
/// other, and every other header is as it was.
pub proof fn lemma_security_headers_win(values: Map<Seq<char>, Seq<Seq<u8>>>, name: Seq<char>)
    ensures
        hardened(values).contains_key("content-security-policy"@),
        hardened(values)["content-security-policy"@] == seq![
            encode_utf8("default-src 'none'; img-src data:; style-src 'unsafe-inline'"@),
        ],
        hardened(values).contains_key("x-content-type-options"@),
        hardened(values)["x-content-type-options"@] == seq![encode_utf8("nosniff"@)],
        hardened(values).contains_key("x-frame-options"@),
        hardened(values)["x-frame-options"@] == seq![encode_utf8("deny"@)],
        hardened(values).contains_key("x-xss-protection"@),
        hardened(values)["x-xss-protection"@] == seq![encode_utf8("1; mode=block"@)],
        !is_secure_response_header(name) ==> hardened(values).contains_key(name)
            == values.contains_key(name),
        !is_secure_response_header(name) && values.contains_key(name) ==> hardened(values)[name]
            == values[name],
{
    reveal_with_fuel(hardened_before, 5);
    reveal_strlit("content-security-policy");
    reveal_strlit("x-content-type-options");
    reveal_strlit("x-frame-options");
    reveal_strlit("x-xss-protection");
    assert("content-security-policy"@.len() == 23);
    assert("x-content-type-options"@.len() == 22);
    assert("x-frame-options"@.len() == 15);
    assert("x-xss-protection"@.len() == 16);
}

/// Hardening is idempotent: applied twice it gives the headers that it
/// gives applied once, and the second time it adds no name.
pub proof fn lemma_hardening_is_idempotent(values: Map<Seq<char>, Seq<Seq<u8>>>)
    ensures
        hardened(hardened(values)) == hardened(values),
        added_by_hardening(hardened(values)) == 0,
{
    reveal_with_fuel(hardened_before, 5);
    reveal_with_fuel(forced_before, 5);
    assert(hardened(hardened(values)) =~= hardened(values));
}

/// Forces the security headers onto a response. A header of one of these
/// names that is already set is overwritten, with all its values; all other
/// headers stay. The number of names grows by the forced headers that were
/// absent, so a second call changes nothing.
pub fn force_secure_response_headers(headers: &mut http::HeaderMap)
    requires
        header_name_count(*old(headers)) + added_by_hardening(header_values(*old(headers)))
            <= HEADER_NAME_LIMIT,
    ensures
        header_values(*final(headers)) == hardened(header_values(*old(headers))),
        header_name_count(*final(headers)) == header_name_count(*old(headers))
            + added_by_hardening(header_values(*old(headers))),
        added_by_hardening(header_values(*final(headers))) == 0,
        hardened(header_values(*final(headers))) == header_values(*final(headers)),
        header_values(*final(headers)).contains_key("content-security-policy"@),
        header_values(*final(headers))["content-security-policy"@] == seq![
            encode_utf8("default-src 'none'; img-src data:; style-src 'unsafe-inline'"@),
        ],
        header_values(*final(headers)).contains_key("x-content-type-options"@),
        header_values(*final(headers))["x-content-type-options"@] == seq![encode_utf8("nosniff"@)],
        header_values(*final(headers)).contains_key("x-frame-options"@),
        header_values(*final(headers))["x-frame-options"@] == seq![encode_utf8("deny"@)],
        header_values(*final(headers)).contains_key("x-xss-protection"@),
        header_values(*final(headers))["x-xss-protection"@] == seq![encode_utf8("1; mode=block"@)],
        forall|name: Seq<char>|
            !is_secure_response_header(name) ==> (#[trigger] header_values(
                *final(headers),
            ).contains_key(name)) == header_values(*old(headers)).contains_key(name),
        forall|name: Seq<char>|
            !is_secure_response_header(name) && header_values(*old(headers)).contains_key(name)
                ==> (#[trigger] header_values(*final(headers))[name]) == header_values(
                *old(headers),
            )[name],
{
    let mut i: usize = 0;
    while i < 4
        invariant
            0 <= i <= 4,
            header_values(*headers) == hardened_before(header_values(*old(headers)), i as int),
            header_name_count(*headers) == header_name_count(*old(headers)) + forced_before(
                header_values(*old(headers)),
                i as int,
            ),
            header_name_count(*old(headers)) + added_by_hardening(header_values(*old(headers)))
                <= HEADER_NAME_LIMIT,
        decreases 4 - i,
    {
        let (name, value) = SECURE_RESPONSE_HEADERS[i];
        proof {
            let before = header_values(*old(headers));
            lemma_secure_headers_are_well_formed(i as int);
            lemma_added_by_hardening_is_bounded(before, i as int);
            lemma_forced_name_is_untouched(before, i as int, i as int);
        }
        set_value(headers, name, value.as_bytes());
        i = i + 1;
    }
    proof {
        let before = header_values(*old(headers));
        lemma_added_by_hardening_is_bounded(before, 4);
        lemma_hardening_is_idempotent(before);
        assert forall|name: Seq<char>| !is_secure_response_header(name) implies (
        #[trigger] hardened(before).contains_key(name)) == before.contains_key(name) by {
            lemma_security_headers_win(before, name);
        }
        assert forall|name: Seq<char>|
            !is_secure_response_header(name) && before.contains_key(name) implies (
        #[trigger] hardened(before)[name]) == before[name] by {
            lemma_security_headers_win(before, name);
        }
        lemma_security_headers_win(before, Seq::<char>::empty());
    }
}

/// `url::ParseError`, carried through as an opaque value.
#[verifier::external_type_specification]
#[verifier::external_body]
pub struct ExUrlParseError(url::ParseError);

/// The absolute URL that `location` resolves to against `base`, as the `url`
/// crate parses `base` and joins `location` to it; `None` where it rejects
/// either.
pub uninterp spec fn resolved_location(base: Seq<char>, location: Seq<char>) -> Option<Seq<char>>;

/// `Url::parse` on the base, `Url::join` with the location, and the result
/// written out as a string. The outcome is named `resolved_location` of the
/// two texts.
#[verifier::external_body]
fn join_url(base: &str, location: &str) -> (r: Result<String, url::ParseError>)
    ensures
        match r {
            Ok(resolved) => resolved_location(base@, location@) == Some(resolved@),
            Err(_) => resolved_location(base@, location@) is None,
        },
{
    Ok(url::Url::parse(base)?.join(location)?.to_string())
}

/// Resolves the location of a redirect against the URL that was fetched, so
/// that a relative location becomes an absolute URL.
pub fn resolve_location_header(base: &str, location: &str) -> (r: Result<String, url::ParseError>)
    ensures
        match r {
            Ok(resolved) => resolved_location(base@, location@) == Some(resolved@),
            Err(_) => resolved_location(base@, location@) is None,
        },
{
    join_url(base, location)
}

/// Whether `bytes` may stand as a header value.
pub fn is_valid_header_value(bytes: &[u8]) -> (valid: bool)
    ensures
        valid == is_header_value(bytes@),
{
    let mut i: usize = 0;
    while i < bytes.len()
        invariant
            0 <= i <= bytes.len(),
            forall|j: int| 0 <= j < i ==> is_header_value_byte(#[trigger] bytes@[j]),
        decreases bytes.len() - i,
    {
        let byte = bytes[i];
        if !((byte >= 32 && byte != 127) || byte == 9) {
            return false;
        }
        i = i + 1;
    }
    true
}

/// Whether the map has room for `extra` more header names.
pub fn has_room_for(headers: &http::HeaderMap, extra: usize) -> (room: bool)
    ensures
        room == (header_name_count(*headers) + extra <= HEADER_NAME_LIMIT),
{
    let count = name_count(headers);
    extra <= HEADER_NAME_LIMIT && count <= HEADER_NAME_LIMIT - extra
}

} // verus!
