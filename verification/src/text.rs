//! Text helpers: printable ASCII bytes as text, decimal numbers in both
//! directions, and prefixes.

use vstd::prelude::*;
use vstd::string::*;
use vstd::utf8::*;

verus! {

/// A printable ASCII byte or a tab: what a header value may hold if it is to
/// be read as text.
pub open spec fn is_visible_byte(byte: u8) -> bool {
    (32 <= byte && byte < 127) || byte == 9
}

/// Whether all of `bytes` are printable ASCII or tabs.
pub open spec fn is_visible_ascii(bytes: Seq<u8>) -> bool {
    forall|i: int| 0 <= i < bytes.len() ==> is_visible_byte(#[trigger] bytes[i])
}

/// ASCII bytes as characters, one for one.
pub open spec fn ascii_text(bytes: Seq<u8>) -> Seq<char> {
    Seq::new(bytes.len(), |i: int| bytes[i] as char)
}

/// The text of a header value: its characters where all its bytes are
/// visible ASCII, nothing otherwise.
pub open spec fn visible_text(bytes: Seq<u8>) -> Option<Seq<char>> {
    if is_visible_ascii(bytes) {
        Some(ascii_text(bytes))
    } else {
        None
    }
}

/// Whether `text` begins with `prefix`.
pub open spec fn has_prefix(text: Seq<char>, prefix: Seq<char>) -> bool {
    prefix.len() <= text.len() && text.subrange(0, prefix.len() as int) == prefix
}

/// Visible ASCII bytes are the UTF-8 encoding of their own characters.
pub proof fn lemma_visible_ascii_is_utf8(bytes: Seq<u8>)
    requires
        is_visible_ascii(bytes),
    ensures
        valid_utf8(bytes),
        decode_utf8(bytes) == ascii_text(bytes),
        encode_utf8(ascii_text(bytes)) == bytes,
{
    let text = ascii_text(bytes);
    assert forall|i: int| 0 <= i < text.len() implies '\0' <= #[trigger] text[i] <= '\u{7f}' by {
        assert(is_visible_byte(bytes[i]));
    }
    assert(is_ascii_chars(text));
    is_ascii_chars_encode_utf8(text);
    assert forall|i: int| 0 <= i < bytes.len() implies #[trigger] encode_utf8(text)[i] == bytes[i] by {
        assert(is_visible_byte(bytes[i]));
        assert(text[i] as u8 == bytes[i]);
    }
    assert(encode_utf8(text) =~= bytes);
    encode_utf8_valid_utf8(text);
    encode_utf8_decode_utf8(text);
}

/// The UTF-8 encoding of two texts in a row is their encodings in a row.
pub proof fn lemma_encode_utf8_concat(first: Seq<char>, second: Seq<char>)
    ensures
        encode_utf8(first + second) == encode_utf8(first) + encode_utf8(second),
    decreases first.len(),
{
    if first.len() == 0 {
        assert(first + second =~= second);
        assert(encode_utf8(first) + encode_utf8(second) =~= encode_utf8(second));
    } else {
        lemma_encode_utf8_concat(first.drop_first(), second);
        assert((first + second).drop_first() =~= first.drop_first() + second);
        assert(encode_utf8(first + second) =~= encode_utf8(first) + encode_utf8(second));
    }
}

/// What `String::from_utf8` reports of bytes that it refuses: the words of
/// the `FromUtf8Error` that it gives for those bytes.
pub uninterp spec fn utf8_refusal(bytes: Seq<u8>) -> Seq<char>;

/// `String::from_utf8`, and `Display` of the `FromUtf8Error` that it gives.
/// It succeeds exactly on valid UTF-8, and then gives the text that the
/// bytes encode; otherwise the error's words are named `utf8_refusal` of the
/// bytes.
#[verifier::external_body]
pub(crate) fn string_from_utf8(bytes: Vec<u8>) -> (r: Result<String, String>)
    ensures
        match r {
            Ok(text) => valid_utf8(bytes@) && text@ == decode_utf8(bytes@),
            Err(report) => !valid_utf8(bytes@) && report@ == utf8_refusal(bytes@),
        },
{
    match String::from_utf8(bytes) {
        Ok(text) => Ok(text),
        Err(error) => Err(error.to_string()),
    }
}

/// `str::starts_with` with a string as the pattern: whether the text begins
/// with the prefix.
#[verifier::external_body]
pub(crate) fn text_starts_with(text: &str, prefix: &str) -> (r: bool)
    ensures
        r == has_prefix(text@, prefix@),
{
    text.starts_with(prefix)
}

/// Whether all of `bytes` are printable ASCII or tabs.
pub fn is_visible(bytes: &[u8]) -> (visible: bool)
    ensures
        visible == is_visible_ascii(bytes@),
{
    let mut i: usize = 0;
    while i < bytes.len()
        invariant
            0 <= i <= bytes.len(),
            forall|j: int| 0 <= j < i ==> is_visible_byte(#[trigger] bytes@[j]),
        decreases bytes.len() - i,
    {
        let byte = bytes[i];
        if !((32 <= byte && byte < 127) || byte == 9) {
            return false;
        }
        i = i + 1;
    }
    true
}

/// Reads a header value as text. A value with a byte that is not visible
/// ASCII has no text.
pub fn text_of(bytes: Vec<u8>) -> (text: Option<String>)
    ensures
        match text {
            Some(s) => visible_text(bytes@) == Some(s@),
            None => visible_text(bytes@) is None,
        },
{
    if !is_visible(bytes.as_slice()) {
        return None;
    }
    proof {
        lemma_visible_ascii_is_utf8(bytes@);
    }
    match string_from_utf8(bytes) {
        Ok(s) => Some(s),
        Err(_) => None,
    }
}

/// An ASCII decimal digit.
pub open spec fn is_digit(byte: u8) -> bool {
    48 <= byte && byte <= 57
}

/// One or more decimal digits.
pub open spec fn is_digits(bytes: Seq<u8>) -> bool {
    &&& bytes.len() > 0
    &&& forall|i: int| 0 <= i < bytes.len() ==> is_digit(#[trigger] bytes[i])
}

/// The number that a sequence of decimal digits writes.
pub open spec fn digits_value(bytes: Seq<u8>) -> nat
    decreases bytes.len(),
{
    if bytes.len() == 0 {
        0
    } else {
        10 * digits_value(bytes.drop_last()) + (bytes.last() - 48) as nat
    }
}

/// The digits of a decimal number: the bytes without a leading `+`.
pub open spec fn unsigned_part(bytes: Seq<u8>) -> Seq<u8> {
    if bytes.len() > 0 && bytes[0] == 43 {
        bytes.skip(1)
    } else {
        bytes
    }
}

/// The number that `bytes` write in decimal: an optional `+`, then one or
/// more digits and nothing else, for a number that fits `usize`. Anything
/// else writes no number.
pub open spec fn decimal_number(bytes: Seq<u8>) -> Option<usize> {
    if is_digits(unsigned_part(bytes)) && digits_value(unsigned_part(bytes)) <= usize::MAX {
        Some(digits_value(unsigned_part(bytes)) as usize)
    } else {
        None
    }
}

/// A number written with more digits is no smaller than the number that a
/// prefix of those digits writes.
proof fn lemma_digits_value_grows(bytes: Seq<u8>, count: int)
    requires
        0 <= count <= bytes.len(),
        forall|i: int| 0 <= i < bytes.len() ==> is_digit(#[trigger] bytes[i]),
    ensures
        digits_value(bytes.take(count)) <= digits_value(bytes),
    decreases bytes.len() - count,
{
    if count == bytes.len() {
        assert(bytes.take(count) =~= bytes);
    } else {
        lemma_digits_value_grows(bytes, count + 1);
        let longer = bytes.take(count + 1);
        assert(longer.drop_last() =~= bytes.take(count));
        assert(is_digit(bytes[count]));
        assert(longer.last() == bytes[count]);
    }
}

/// Parses a decimal number as `usize`.
pub fn parse_decimal(bytes: &[u8]) -> (number: Option<usize>)
    ensures
        number == decimal_number(bytes@),
{
    let start: usize = if bytes.len() > 0 && bytes[0] == 43 { 1 } else { 0 };
    let ghost digits = unsigned_part(bytes@);
    assert(digits =~= bytes@.skip(start as int));
    if start == bytes.len() {
        return None;
    }
    let mut value: usize = 0;
    let mut i: usize = start;
    assert(digits.take(0) =~= Seq::<u8>::empty());
    while i < bytes.len()
        invariant
            start <= i <= bytes.len(),
            start <= 1,
            digits == bytes@.skip(start as int),
            digits == unsigned_part(bytes@),
            digits.len() > 0,
            forall|j: int| 0 <= j < i - start ==> is_digit(#[trigger] digits[j]),
            value == digits_value(digits.take(i - start)),
        decreases bytes.len() - i,
    {
        let byte = bytes[i];
        assert(byte == digits[i - start]);
        if !(48 <= byte && byte <= 57) {
            assert(!is_digit(digits[i - start]));
            return None;
        }
        let digit: usize = (byte - 48) as usize;
        let ghost longer = digits.take(i - start + 1);
        assert(longer.drop_last() =~= digits.take(i - start));
        assert(longer.last() == byte);
        assert(digits_value(longer) == 10 * value + digit);
        if value > (usize::MAX - digit) / 10 {
            proof {
                assert(10 * value + digit > usize::MAX);
                if is_digits(digits) {
                    lemma_digits_value_grows(digits, i - start + 1);
                }
            }
            return None;
        }
        value = 10 * value + digit;
        i = i + 1;
    }
    assert(digits.take(i - start) =~= digits);
    Some(value)
}

/// The character of a decimal digit.
pub open spec fn digit_char(digit: nat) -> char {
    ('0' as nat + digit) as char
}

/// The decimal digits of a number, without a sign or leading zeros.
pub open spec fn decimal_text(number: nat) -> Seq<char>
    decreases number,
{
    if number < 10 {
        seq![digit_char(number)]
    } else {
        decimal_text(number / 10).push(digit_char(number % 10))
    }
}

fn digit_text(digit: usize) -> (text: &'static str)
    requires
        digit < 10,
    ensures
        text@ == seq![digit_char(digit as nat)],
{
    proof {
        reveal_strlit("0");
        reveal_strlit("1");
        reveal_strlit("2");
        reveal_strlit("3");
        reveal_strlit("4");
        reveal_strlit("5");
        reveal_strlit("6");
        reveal_strlit("7");
        reveal_strlit("8");
        reveal_strlit("9");
    }
    let text = if digit == 0 {
        "0"
    } else if digit == 1 {
        "1"
    } else if digit == 2 {
        "2"
    } else if digit == 3 {
        "3"
    } else if digit == 4 {
        "4"
    } else if digit == 5 {
        "5"
    } else if digit == 6 {
        "6"
    } else if digit == 7 {
        "7"
    } else if digit == 8 {
        "8"
    } else {
        "9"
    };
    assert(text@ =~= seq![digit_char(digit as nat)]);
    text
}

/// Writes a number in decimal.
pub fn to_decimal(number: usize) -> (text: String)
    ensures
        text@ == decimal_text(number as nat),
    decreases number,
{
    if number < 10 {
        digit_text(number).to_owned()
    } else {
        let mut text = to_decimal(number / 10);
        text.append(digit_text(number % 10));
        text
    }
}

} // verus!
