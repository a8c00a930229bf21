//! Encodings, digests and random bytes of the outside crates, as functions on
//! plain values.

use crate::text::lower;
use vstd::arithmetic::power2::pow2;
use vstd::prelude::*;
use vstd::utf8::{decode_utf8, is_ascii_chars, valid_utf8};

verus! {

/// A byte sequence in standard base64 with padding.
pub uninterp spec fn base64_text(bytes: Seq<u8>) -> Seq<char>;

/// What a text decodes to as standard base64, or the message of the error.
pub uninterp spec fn base64_bytes(text: Seq<char>) -> Result<Seq<u8>, Seq<char>>;

/// The five bits of a byte sequence from bit `k` on, the highest bit of each
/// byte first; behind the last byte stand zeros.
pub open spec fn five_bits(bytes: Seq<u8>, k: int) -> int {
    let high = bytes[k / 8] as int;
    let low = if k / 8 + 1 < bytes.len() {
        bytes[k / 8 + 1] as int
    } else {
        0
    };
    (256 * high + low) / pow2((11 - k % 8) as nat) as int % 32
}

/// A byte sequence in unpadded Crockford base32: a symbol for each five bits.
pub open spec fn crockford_text(bytes: Seq<u8>) -> Seq<char> {
    Seq::new(
        (8 * bytes.len() + 4) / 5,
        |i: int| "0123456789ABCDEFGHJKMNPQRSTVWXYZ"@[five_bits(bytes, 5 * i)],
    )
}

/// The SHA-256 digest of a byte sequence.
pub uninterp spec fn sha256_digest(bytes: Seq<u8>) -> Seq<u8>;

/// The BLAKE3 digest of a byte sequence.
pub uninterp spec fn blake3_digest(bytes: Seq<u8>) -> Seq<u8>;

/// The raw public-key info of a DER certificate, or the message of the error.
pub uninterp spec fn certificate_spki(der: Seq<u8>) -> Result<Seq<u8>, Seq<char>>;

/// A character of standard base64.
pub open spec fn is_base64_char(c: char) -> bool {
    ||| 'A' <= c <= 'Z'
    ||| 'a' <= c <= 'z'
    ||| '0' <= c <= '9'
    ||| c == '+'
    ||| c == '/'
    ||| c == '='
}

/// A result of bytes, or of an error message, by its view.
pub open spec fn bytes_result(r: Result<Vec<u8>, String>) -> Result<Seq<u8>, Seq<char>> {
    match r {
        Ok(b) => Ok(b@),
        Err(e) => Err(e@),
    }
}

/// `encode` of base64's `STANDARD` engine. The text is made of base64
/// characters, is not empty unless the bytes are, and decodes to the bytes
/// again.
#[verifier::external_body]
pub(crate) fn base64_encode(bytes: &[u8]) -> (r: String)
    requires
        bytes@.len() <= 0x1000_0000,
    ensures
        r@ == base64_text(bytes@),
        base64_bytes(r@) is Ok && base64_bytes(r@)->Ok_0 == bytes@,
        bytes@.len() > 0 ==> r@.len() > 0,
        forall|i: int| 0 <= i < r@.len() ==> is_base64_char(#[trigger] r@[i]),
{
    base64::Engine::encode(&base64::engine::general_purpose::STANDARD, bytes)
}

/// `decode` of base64's `STANDARD` engine.
#[verifier::external_body]
pub(crate) fn base64_decode(text: &str) -> (r: Result<Vec<u8>, String>)
    ensures
        bytes_result(r) == base64_bytes(text@),
{
    base64::Engine::decode(&base64::engine::general_purpose::STANDARD, text).map_err(
        |e| e.to_string(),
    )
}

/// `base32::encode` with the Crockford alphabet: each five bits give a symbol,
/// without padding.
#[verifier::external_body]
pub(crate) fn crockford_encode(bytes: &[u8; 32]) -> (r: String)
    ensures
        r@ == crockford_text(bytes@),
{
    base32::encode(base32::Alphabet::Crockford, bytes)
}

/// `sha2::Sha256::digest`.
#[verifier::external_body]
pub(crate) fn sha256(bytes: &[u8]) -> (r: [u8; 32])
    ensures
        r@ == sha256_digest(bytes@),
{
    <sha2::Sha256 as sha2::Digest>::digest(bytes).into()
}

/// `blake3::hash`.
#[verifier::external_body]
pub(crate) fn blake3_hash(bytes: &[u8]) -> (r: [u8; 32])
    ensures
        r@ == blake3_digest(bytes@),
{
    *blake3::hash(bytes).as_bytes()
}

/// `x509_parser::parse_x509_certificate`: the raw public-key info of the certificate.
#[verifier::external_body]
pub(crate) fn spki_of(der: &[u8]) -> (r: Result<Vec<u8>, String>)
    ensures
        bytes_result(r) == certificate_spki(der@),
{
    match x509_parser::parse_x509_certificate(der) {
        Ok((_, cert)) => Ok(cert.tbs_certificate.subject_pki.raw.to_vec()),
        Err(e) => Err(e.to_string()),
    }
}

/// A JSON object with one member, a string, as compact UTF-8.
pub uninterp spec fn json_member(key: Seq<char>, value: Seq<char>) -> Seq<u8>;

/// `serde_json::to_vec` of an object with one string member.
#[verifier::external_body]
pub(crate) fn json_object(key: &str, value: &str) -> (r: Vec<u8>)
    ensures
        r@ == json_member(key@, value@),
{
    serde_json::to_vec(&std::collections::BTreeMap::from([(key, value)])).unwrap_or_default()
}

/// `rand::rngs::OsRng`, 16 bytes. Nothing is promised of them.
#[verifier::external_body]
pub(crate) fn random16() -> (r: [u8; 16]) {
    let mut b = [0u8; 16];
    rand::RngCore::fill_bytes(&mut rand::rngs::OsRng, &mut b);
    b
}

/// `rand::rngs::OsRng`, 32 bytes. Nothing is promised of them.
#[verifier::external_body]
pub(crate) fn random32() -> (r: [u8; 32]) {
    let mut b = [0u8; 32];
    rand::RngCore::fill_bytes(&mut rand::rngs::OsRng, &mut b);
    b
}

/// `std::str::from_utf8`: the text that the bytes encode, if they are UTF-8.
#[verifier::external_body]
pub(crate) fn utf8_text(bytes: &[u8]) -> (r: Option<&str>)
    ensures
        match r {
            Some(t) => valid_utf8(bytes@) && t@ == decode_utf8(bytes@),
            None => !valid_utf8(bytes@),
        },
{
    std::str::from_utf8(bytes).ok()
}

/// The text of a byte sequence, with replacement characters for what is not UTF-8.
pub uninterp spec fn utf8_lossy(bytes: Seq<u8>) -> Seq<char>;

/// `String::from_utf8_lossy` of `std`. Valid UTF-8 is decoded as it is.
#[verifier::external_body]
pub(crate) fn lossy_text(bytes: &[u8]) -> (r: String)
    ensures
        r@ == utf8_lossy(bytes@),
        valid_utf8(bytes@) ==> r@ == decode_utf8(bytes@),
{
    String::from_utf8_lossy(bytes).into_owned()
}

/// A text in lower case, by the Unicode mapping.
pub uninterp spec fn unicode_lower(text: Seq<char>) -> Seq<char>;

/// Whether a text holds none of the letters `A` to `Z`.
pub open spec fn no_ascii_capital(text: Seq<char>) -> bool {
    forall|i: int| 0 <= i < text.len() ==> !('A' <= #[trigger] text[i] <= 'Z')
}

/// `str::to_lowercase` of `std`. On ASCII text it lowers the letters `A` to
/// `Z`; on any text it leaves none of them.
#[verifier::external_body]
pub(crate) fn to_lowercase(text: &str) -> (r: String)
    ensures
        r@ == unicode_lower(text@),
        is_ascii_chars(text@) ==> r@ == lower(text@),
        no_ascii_capital(r@),
{
    text.to_lowercase()
}

/// The value of a hexadecimal digit of either case.
pub open spec fn hex_value(c: char) -> Option<u8> {
    if '0' <= c <= '9' {
        Some((c as u32 - '0' as u32) as u8)
    } else if 'a' <= c <= 'f' {
        Some((c as u32 - 'a' as u32 + 10) as u8)
    } else if 'A' <= c <= 'F' {
        Some((c as u32 - 'A' as u32 + 10) as u8)
    } else {
        None
    }
}

/// The lower-case hexadecimal text of a byte sequence, two digits per byte.
pub open spec fn hex_text(bytes: Seq<u8>) -> Seq<char> {
    Seq::new(
        2 * bytes.len(),
        |i: int|
            crate::text::lower_hex(
                if i % 2 == 0 {
                    bytes[i / 2] as int / 16
                } else {
                    bytes[i / 2] as int % 16
                },
            ),
    )
}

/// Whether a text is an even number of hexadecimal digits.
pub open spec fn is_hex(text: Seq<char>) -> bool {
    text.len() % 2 == 0 && forall|i: int| 0 <= i < text.len() ==> hex_value(#[trigger] text[i]) is Some
}

/// The bytes of a text of hexadecimal digits.
pub open spec fn hex_bytes(text: Seq<char>) -> Seq<u8> {
    Seq::new(
        text.len() / 2,
        |i: int| (16 * hex_value(text[2 * i])->0 + hex_value(text[2 * i + 1])->0) as u8,
    )
}

/// `hex::encode`.
#[verifier::external_body]
pub(crate) fn hex_encode(bytes: &[u8]) -> (r: String)
    ensures
        r@ == hex_text(bytes@),
{
    hex::encode(bytes)
}

/// The message of the error for a text that is not hexadecimal.
pub uninterp spec fn hex_error(text: Seq<char>) -> Seq<char>;

/// `hex::decode`: digits of either case, an even number of them.
#[verifier::external_body]
pub(crate) fn hex_decode(text: &str) -> (r: Result<Vec<u8>, String>)
    ensures
        match r {
            Ok(b) => is_hex(text@) && b@ == hex_bytes(text@),
            Err(e) => !is_hex(text@) && e@ == hex_error(text@),
        },
{
    hex::decode(text).map_err(|e| e.to_string())
}

/// Bytes are read back from their hexadecimal text.
pub proof fn law_hex_roundtrip(bytes: Seq<u8>)
    ensures
        is_hex(hex_text(bytes)),
        hex_bytes(hex_text(bytes)) == bytes,
{
    let t = hex_text(bytes);
    assert forall|i: int| 0 <= i < t.len() implies hex_value(#[trigger] t[i]) is Some by {}
    assert forall|i: int| 0 <= i < bytes.len() implies #[trigger] hex_bytes(t)[i] == bytes[i] by {
        assert(t[2 * i] == crate::text::lower_hex(bytes[i] as int / 16));
        assert(t[2 * i + 1] == crate::text::lower_hex(bytes[i] as int % 16));
    }
    assert(hex_bytes(t) =~= bytes);
}

} // verus!
