//! Content digests, hexadecimal text and name-based identifiers.

use sha2::Digest as _;
use vstd::prelude::*;
use vstd::utf8::encode_utf8;

use crate::text::decimal_text;

verus! {

broadcast use crate::model::group_model;

/// The SHA-256 digest of some bytes.
pub uninterp spec fn sha256_of(bytes: Seq<u8>) -> Seq<u8>;

/// `sha2::Sha256::digest`: 32 bytes that depend on the hashed bytes alone.
#[verifier::external_body]
pub(crate) fn sha256(bytes: &[u8]) -> (r: [u8; 32])
    ensures
        r@ == sha256_of(bytes@),
{
    sha2::Sha256::digest(bytes).into()
}

/// The BLAKE3 digest of some bytes.
pub uninterp spec fn blake3_of(bytes: Seq<u8>) -> Seq<u8>;

/// `blake3::hash`: 32 bytes that depend on the hashed bytes alone.
#[verifier::external_body]
pub(crate) fn blake3(bytes: &[u8]) -> (r: [u8; 32])
    ensures
        r@ == blake3_of(bytes@),
{
    *blake3::hash(bytes).as_bytes()
}

/// The version 5 UUID of a name in a namespace.
pub uninterp spec fn uuid_v5_of(namespace: Seq<u8>, name: Seq<u8>) -> Seq<u8>;

/// `uuid::Uuid::new_v5`: 16 bytes that depend on the namespace and the name alone.
#[verifier::external_body]
pub(crate) fn uuid_v5(namespace: [u8; 16], name: &[u8]) -> (r: [u8; 16])
    ensures
        r@ == uuid_v5_of(namespace@, name@),
{
    *uuid::Uuid::new_v5(&uuid::Uuid::from_bytes(namespace), name).as_bytes()
}

// ---------------------------------------------------------------------------
// Hexadecimal text
// ---------------------------------------------------------------------------

/// The lowercase hexadecimal digit of a number below 16.
pub open spec fn hex_digit(n: int) -> char {
    if n < 10 {
        (48 + n) as char
    } else {
        (87 + n) as char
    }
}

/// Two lowercase hexadecimal digits for each byte, the high half first.
pub open spec fn hex_text(bytes: Seq<u8>) -> Seq<char> {
    Seq::new(
        2 * bytes.len(),
        |i: int|
            if i % 2 == 0 {
                hex_digit(bytes[i / 2] as int / 16)
            } else {
                hex_digit(bytes[i / 2] as int % 16)
            },
    )
}

/// The number that a hexadecimal digit of either case stands for.
pub open spec fn hex_value(digit: u8) -> Option<int> {
    if 48 <= digit <= 57 {
        Some(digit - 48)
    } else if 97 <= digit <= 102 {
        Some(digit - 87)
    } else if 65 <= digit <= 70 {
        Some(digit - 55)
    } else {
        None
    }
}

/// Every byte is a hexadecimal digit.
pub open spec fn all_hex(digits: Seq<u8>) -> bool {
    forall|i: int| 0 <= i < digits.len() ==> hex_value(#[trigger] digits[i]) is Some
}

/// The position of the first byte that is no hexadecimal digit.
pub open spec fn first_not_hex(digits: Seq<u8>) -> int
    decreases digits.len(),
{
    if digits.len() == 0 || hex_value(digits[0]) is None {
        0
    } else {
        1 + first_not_hex(digits.drop_first())
    }
}

/// The bytes that pairs of hexadecimal digits stand for.
pub open spec fn hex_bytes(digits: Seq<u8>) -> Seq<u8> {
    Seq::new(
        digits.len() / 2,
        |i: int| (16 * hex_value(digits[2 * i])->0 + hex_value(digits[2 * i + 1])->0) as u8,
    )
}

/// A text that decodes as hexadecimal.
pub open spec fn is_hex(text: Seq<char>) -> bool {
    encode_utf8(text).len() % 2 == 0 && all_hex(encode_utf8(text))
}

/// What `{:?}` writes for a character: the character in single quotes, with escapes.
pub uninterp spec fn debug_char(c: char) -> Seq<char>;

/// `hex::encode`: two lowercase digits for each byte.
#[verifier::external_body]
pub(crate) fn encode(bytes: &[u8]) -> (r: String)
    ensures
        r@ == hex_text(bytes@),
{
    hex::encode(bytes)
}

/// What is wrong with bytes that are not hexadecimal: their number is odd, or the first that is no
/// hexadecimal digit, shown as the character of that code.
pub open spec fn hex_complaint(digits: Seq<u8>) -> Seq<char> {
    if digits.len() % 2 != 0 {
        "Odd number of digits"@
    } else {
        "Invalid character "@ + debug_char(digits[first_not_hex(digits)] as char)
            + " at position "@ + decimal_text(first_not_hex(digits) as nat)
    }
}

/// `hex::decode` on a text, by its UTF-8 bytes, with the text of its error.
#[verifier::external_body]
pub(crate) fn decode(text: &str) -> (r: Result<Vec<u8>, String>)
    ensures
        match r {
            Ok(bytes) => is_hex(text@) && bytes@ == hex_bytes(encode_utf8(text@)),
            Err(message) => {
                let digits = encode_utf8(text@);
                !is_hex(text@) && message@ == if digits.len() % 2 != 0 {
                    "Odd number of digits"@
                } else {
                    "Invalid character "@ + debug_char(digits[first_not_hex(digits)] as char)
                        + " at position "@ + decimal_text(first_not_hex(digits) as nat)
                }
            },
        },
{
    hex::decode(text).map_err(|error| error.to_string())
}

/// Hexadecimal digits are ASCII characters.
proof fn hex_text_is_ascii(bytes: Seq<u8>)
    ensures
        vstd::utf8::is_ascii_chars(hex_text(bytes)),
{
    let text = hex_text(bytes);
    assert forall|i: int| 0 <= i < text.len() implies '\0' <= #[trigger] text[i] <= '\u{7f}' by {
        assert(0 <= bytes[i / 2] as int / 16 < 16);
    }
}

/// Decoding what was encoded gives back the bytes.
pub proof fn hex_gives_back(bytes: Seq<u8>)
    ensures
        is_hex(hex_text(bytes)),
        hex_bytes(encode_utf8(hex_text(bytes))) == bytes,
{
    let text = hex_text(bytes);
    hex_text_is_ascii(bytes);
    vstd::utf8::is_ascii_chars_encode_utf8(text);
    let digits = encode_utf8(text);
    assert(digits =~= Seq::new(text.len(), |i: int| text[i] as u8));
    assert forall|i: int| 0 <= i < digits.len() implies hex_value(#[trigger] digits[i]) == Some(
        if i % 2 == 0 {
            bytes[i / 2] as int / 16
        } else {
            bytes[i / 2] as int % 16
        },
    ) by {
        assert(0 <= bytes[i / 2] as int / 16 < 16);
    }
    assert forall|i: int| 0 <= i < bytes.len() implies #[trigger] hex_bytes(digits)[i]
        == bytes[i] by {
        let high = digits[2 * i];
        let low = digits[2 * i + 1];
        assert((2 * i) / 2 == i && (2 * i) % 2 == 0);
        assert((2 * i + 1) / 2 == i && (2 * i + 1) % 2 == 1);
        assert(hex_value(high) == Some(bytes[i] as int / 16));
        assert(hex_value(low) == Some(bytes[i] as int % 16));
    }
    assert(hex_bytes(digits) =~= bytes);
}

/// Different bytes have different hexadecimal texts.
pub proof fn hex_tells_apart(a: Seq<u8>, b: Seq<u8>)
    requires
        hex_text(a) == hex_text(b),
    ensures
        a == b,
{
    hex_gives_back(a);
    hex_gives_back(b);
}

// ---------------------------------------------------------------------------
// Labelled digests
// ---------------------------------------------------------------------------

/// A SHA-256 digest as labelled hexadecimal text.
pub open spec fn sha256_label(digest: Seq<u8>) -> Seq<char> {
    "sha256:"@ + hex_text(digest)
}

/// The SHA-256 digest of some bytes as labelled hexadecimal text.
pub open spec fn sha256_text(bytes: Seq<u8>) -> Seq<char> {
    sha256_label(sha256_of(bytes))
}

/// A BLAKE3 digest as labelled hexadecimal text.
pub open spec fn blake3_text(digest: Seq<u8>) -> Seq<char> {
    "blake3:"@ + hex_text(digest)
}

/// Labels a SHA-256 digest.
pub fn label_digest(digest: &[u8; 32]) -> (r: String)
    ensures
        r@ == sha256_label(digest@),
{
    let mut out = "sha256:".to_owned();
    out.push_str(encode(digest).as_str());
    out
}

/// Hashes some bytes with SHA-256 and labels the digest.
pub(crate) fn label_sha256(bytes: &[u8]) -> (r: String)
    ensures
        r@ == sha256_text(bytes@),
{
    label_digest(&sha256(bytes))
}

/// Labels a BLAKE3 digest.
pub fn label_blake3(digest: &[u8; 32]) -> (r: String)
    ensures
        r@ == blake3_text(digest@),
{
    let mut out = "blake3:".to_owned();
    out.push_str(encode(digest).as_str());
    out
}

/// Whether two hashes are the same.
pub(crate) fn same_hash(a: &[u8; 32], b: &[u8; 32]) -> (r: bool)
    ensures
        r == (a@ == b@),
{
    let mut i: usize = 0;
    while i < 32
        invariant
            i <= 32,
            forall|j: int| 0 <= j < i ==> #[trigger] a@[j] == b@[j],
        decreases 32 - i,
    {
        if a[i] != b[i] {
            assert(a@[i as int] != b@[i as int]);
            return false;
        }
        i += 1;
    }
    assert(a@ =~= b@);
    true
}

}
