//! The authenticated target: a target URL together with the HMAC-SHA1 digest
//! that proves it was signed with the shared key. Values are built either
//! from a plain target, which signs it, or from the two hex-encoded segments
//! of a request path, which must then be verified before the target is used.

use vstd::prelude::*;
use vstd::slice::slice_to_vec;
use vstd::string::*;
use vstd::utf8::*;
use hmac::Mac;

use crate::encoding::{
    hex_decode, hex_decoded, hex_encode, hex_encoded, hex_refusal, is_hex_text,
    lemma_hex_round_trip,
};
use crate::errors::{AuthParsingError, AuthValidationError, ParsingFailure};
use crate::text::{string_from_utf8, utf8_refusal};

verus! {

/// The HMAC-SHA1 of `message` under `key`, as the `hmac` and `sha1` crates
/// compute it.
pub uninterp spec fn hmac_sha1(key: Seq<u8>, message: Seq<u8>) -> Seq<u8>;

/// What an authenticated target holds.
pub struct TargetModel {
    pub key: Seq<u8>,
    pub digest: Seq<u8>,
    pub target: Seq<char>,
}

impl TargetModel {
    /// The digest is the HMAC-SHA1 of the target's UTF-8 bytes under the key.
    pub open spec fn is_authentic(self) -> bool {
        self.digest == hmac_sha1(self.key, encode_utf8(self.target))
    }

    /// What verification yields: the target when the digest is authentic,
    /// `HmacInvalid` otherwise.
    pub open spec fn verified(self) -> Result<Seq<char>, AuthValidationError> {
        if self.is_authentic() {
            Ok(self.target)
        } else {
            Err(AuthValidationError::HmacInvalid)
        }
    }

    /// The path form `{digest hex}/{target hex}`.
    pub open spec fn encoded_path(self) -> Seq<char> {
        hex_encoded(self.digest) + seq!['/'] + hex_encoded(encode_utf8(self.target))
    }
}

/// The value that signing `target` under `key` gives.
pub open spec fn signed(key: Seq<u8>, target: Seq<char>) -> TargetModel {
    TargetModel { key, digest: hmac_sha1(key, encode_utf8(target)), target }
}

/// The text that a hex-encoded target segment stands for, or why it stands
/// for none.
pub open spec fn decoded_target(target: Seq<char>) -> Result<Seq<char>, ParsingFailure> {
    if !is_hex_text(target) {
        Err(ParsingFailure::Target(hex_refusal(target)))
    } else if !valid_utf8(hex_decoded(target)) {
        Err(ParsingFailure::NotUtf8(utf8_refusal(hex_decoded(target))))
    } else {
        Ok(decode_utf8(hex_decoded(target)))
    }
}

/// What parsing the two hex segments of a request yields. The checks run in
/// this order: key, digest, target encoding, target text. A failure carries
/// what the decoder reported.
pub open spec fn parsed(key: Seq<u8>, digest: Seq<char>, target: Seq<char>) -> Result<
    TargetModel,
    ParsingFailure,
> {
    if key.len() == 0 {
        Err(ParsingFailure::EmptyKey)
    } else if !is_hex_text(digest) {
        Err(ParsingFailure::Digest(hex_refusal(digest)))
    } else {
        match decoded_target(target) {
            Err(failure) => Err(failure),
            Ok(text) => Ok(TargetModel { key, digest: hex_decoded(digest), target: text }),
        }
    }
}

/// The machinery to parse, verify and build authenticated targets.
pub struct AuthenticatedTarget {
    key: Vec<u8>,
    digest: Vec<u8>,
    target: String,
}

impl View for AuthenticatedTarget {
    type V = TargetModel;

    closed spec fn view(&self) -> TargetModel {
        TargetModel { key: self.key@, digest: self.digest@, target: self.target@ }
    }
}

/// Computes an HMAC with `Hmac<Sha1>` from the `hmac` and `sha1` crates:
/// `new_from_slice`, `update`, `finalize`. The result is named `hmac_sha1` of
/// the key and the message; SHA-1 gives 20 bytes. `new_from_slice` accepts a
/// key of any length, so the `expect` does not fire.
#[verifier::external_body]
fn calculate_hmac(key: &[u8], message: &[u8]) -> (digest: Vec<u8>)
    ensures
        digest@ == hmac_sha1(key@, message@),
        digest@.len() == 20,
{
    let mut mac = hmac::Hmac::<sha1::Sha1>::new_from_slice(key).expect("HMAC can take key of any size");
    mac.update(message);
    mac.finalize().into_bytes().to_vec()
}

/// Decodes the hex-encoded target segment of a path into the target's text.
/// The target is not authenticated by this.
pub fn decode_target(target: &str) -> (r: Result<String, AuthParsingError>)
    ensures
        match r {
            Ok(text) => decoded_target(target@) == Ok::<Seq<char>, ParsingFailure>(text@),
            Err(e) => decoded_target(target@) == Err::<Seq<char>, ParsingFailure>(e@),
        },
{
    let target_bytes = match hex_decode(target) {
        Ok(bytes) => bytes,
        Err(e) => {
            return Err(AuthParsingError::TargetEncodingError(e));
        },
    };
    match string_from_utf8(target_bytes) {
        Ok(text) => Ok(text),
        Err(e) => Err(AuthParsingError::TargetNotUtf8(e)),
    }
}

impl AuthenticatedTarget {
    /// Puts a key, a digest and a target together as they are. Nothing is
    /// computed and nothing is checked.
    pub fn from_parts(key: &[u8], digest: Vec<u8>, target: &str) -> (r: Self)
        ensures
            r@ == (TargetModel { key: key@, digest: digest@, target: target@ }),
    {
        AuthenticatedTarget { key: slice_to_vec(key), digest, target: target.to_owned() }
    }

    /// Signs a known target with a known key.
    pub fn from_target(key: &[u8], target: &str) -> (r: Self)
        ensures
            r@ == signed(key@, target@),
            r@.is_authentic(),
            r@.digest.len() == 20,
    {
        let digest = calculate_hmac(key, target.as_bytes());
        Self::from_parts(key, digest, target)
    }

    /// Parses the hex-encoded digest and target of a request. The digest is
    /// not compared with the target here: see `validated_target_url`.
    pub fn from_encoded_strings(key: &[u8], digest: &str, target: &str) -> (r: Result<
        Self,
        AuthParsingError,
    >)
        ensures
            match r {
                Ok(parsed_target) => parsed(key@, digest@, target@) == Ok::<
                    TargetModel,
                    ParsingFailure,
                >(parsed_target@),
                Err(e) => parsed(key@, digest@, target@) == Err::<TargetModel, ParsingFailure>(
                    e@,
                ),
            },
    {
        if key.len() == 0 {
            return Err(AuthParsingError::EmptyKeyError);
        }
        let digest_bytes = match hex_decode(digest) {
            Ok(bytes) => bytes,
            Err(e) => {
                return Err(AuthParsingError::DigestEncodingError(e));
            },
        };
        let target_text = match decode_target(target) {
            Ok(text) => text,
            Err(e) => {
                return Err(e);
            },
        };
        Ok(AuthenticatedTarget { key: slice_to_vec(key), digest: digest_bytes, target: target_text })
    }

    /// Compares the stored digest with `expected`, the whole of one with the
    /// whole of the other, and hands the target out only when they are equal.
    /// The comparison is the plain one of byte vectors; it is not made to
    /// take the same time on every input.
    pub fn target_if_digest_is(&self, expected: &Vec<u8>) -> (r: Result<String, AuthValidationError>)
        ensures
            match r {
                Ok(text) => self@.digest == expected@ && text@ == self@.target,
                Err(e) => self@.digest != expected@ && e == AuthValidationError::HmacInvalid,
            },
    {
        if self.digest == *expected {
            Ok(self.target.clone())
        } else {
            Err(AuthValidationError::HmacInvalid)
        }
    }

    /// Recomputes the HMAC of the target and compares it with the stored
    /// digest. Returns the target when they are equal.
    pub fn validated_target_url(&self) -> (r: Result<String, AuthValidationError>)
        ensures
            match r {
                Ok(text) => self@.verified() == Ok::<Seq<char>, AuthValidationError>(text@),
                Err(e) => self@.verified() == Err::<Seq<char>, AuthValidationError>(e),
            },
    {
        let expected = calculate_hmac(self.key.as_slice(), self.target.as_str().as_bytes());
        self.target_if_digest_is(&expected)
    }

    /// The hex-encoded digest: the first segment of the path.
    pub fn encoded_digest(&self) -> (r: String)
        ensures
            r@ == hex_encoded(self@.digest),
    {
        hex_encode(self.digest.as_slice())
    }

    /// The hex-encoded target: the second segment of the path.
    pub fn encoded_target_url(&self) -> (r: String)
        ensures
            r@ == hex_encoded(encode_utf8(self@.target)),
    {
        hex_encode(self.target.as_str().as_bytes())
    }

    /// The full path, `{digest hex}/{target hex}`, without a leading slash.
    pub fn encoded_full_path(&self) -> (r: String)
        ensures
            r@ == self@.encoded_path(),
    {
        let mut path = self.encoded_digest();
        let target = self.encoded_target_url();
        proof {
            reveal_strlit("/");
        }
        path.append("/");
        path.append(target.as_str());
        assert("/"@ =~= seq!['/']);
        path
    }
}

/// `bytes` with one bit of one byte inverted.
pub open spec fn with_flipped_bit(bytes: Seq<u8>, position: int, bit: u8) -> Seq<u8> {
    bytes.update(position, bytes[position] ^ (1u8 << bit))
}

/// Inverting a bit changes the sequence.
pub proof fn lemma_flipped_bit_differs(bytes: Seq<u8>, position: int, bit: u8)
    requires
        0 <= position < bytes.len(),
        bit < 8,
    ensures
        with_flipped_bit(bytes, position, bit) != bytes,
{
    let b = bytes[position];
    assert(b ^ (1u8 << bit) != b) by (bit_vector)
        requires
            bit < 8,
    ;
    assert(with_flipped_bit(bytes, position, bit)[position] != bytes[position]);
}

/// Round trip. A target signed under a non-empty key, written as its two
/// hex segments and parsed back under the same key, is the signed value
/// again, and verifying it yields the target.
pub proof fn lemma_round_trip(key: Seq<u8>, target: Seq<char>)
    requires
        key.len() > 0,
    ensures
        parsed(
            key,
            hex_encoded(signed(key, target).digest),
            hex_encoded(encode_utf8(target)),
        ) == Ok::<TargetModel, ParsingFailure>(signed(key, target)),
        signed(key, target).verified() == Ok::<Seq<char>, AuthValidationError>(target),
{
    lemma_hex_round_trip(signed(key, target).digest);
    lemma_hex_round_trip(encode_utf8(target));
    encode_utf8_valid_utf8(target);
    encode_utf8_decode_utf8(target);
}

/// Tamper detection, digest. Whatever the key and the target, a digest that
/// is not their HMAC is rejected with `HmacInvalid`; so is the true digest
/// with any one bit inverted.
pub proof fn lemma_tampered_digest_is_rejected(
    key: Seq<u8>,
    target: Seq<char>,
    digest: Seq<u8>,
    position: int,
    bit: u8,
)
    ensures
        digest != signed(key, target).digest ==> (TargetModel { key, digest, target }).verified()
            == Err::<Seq<char>, AuthValidationError>(AuthValidationError::HmacInvalid),
        0 <= position < signed(key, target).digest.len() && bit < 8 ==> (TargetModel {
            key,
            digest: with_flipped_bit(signed(key, target).digest, position, bit),
            target,
        }).verified() == Err::<Seq<char>, AuthValidationError>(AuthValidationError::HmacInvalid),
{
    if 0 <= position < signed(key, target).digest.len() && bit < 8 {
        lemma_flipped_bit_differs(signed(key, target).digest, position, bit);
    }
}

/// Tamper detection, target. A digest made for one target is rejected with
/// `HmacInvalid` beside any other target whose HMAC under the key differs.
pub proof fn lemma_tampered_target_is_rejected(key: Seq<u8>, target: Seq<char>, other: Seq<char>)
    requires
        hmac_sha1(key, encode_utf8(other)) != hmac_sha1(key, encode_utf8(target)),
    ensures
        (TargetModel { key, digest: signed(key, target).digest, target: other }).verified() == Err::<
            Seq<char>,
            AuthValidationError,
        >(AuthValidationError::HmacInvalid),
{
}

} // verus!
