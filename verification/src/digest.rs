//! Hashing and byte encodings provided by outside crates.

use base64::Engine;
use hmac::Mac;
use sha2::Digest;
use vstd::prelude::*;

verus! {

/// SHA-256 digest of the bytes, as computed by the `sha2` crate.
pub uninterp spec fn sha256_of(data: Seq<u8>) -> Seq<u8>;

/// SHA-512 digest of the bytes, as computed by the `sha2` crate.
pub uninterp spec fn sha512_of(data: Seq<u8>) -> Seq<u8>;

/// SHA3-256 digest of the bytes, as computed by the `sha3` crate.
pub uninterp spec fn sha3_256_of(data: Seq<u8>) -> Seq<u8>;

/// HMAC-SHA256 of a message under a key, as computed by the `hmac` crate.
pub uninterp spec fn hmac_sha256_of(key: Seq<u8>, msg: Seq<u8>) -> Seq<u8>;

/// HMAC-SHA1 of a message under a key, as computed by the `hmac` crate.
pub uninterp spec fn hmac_sha1_of(key: Seq<u8>, msg: Seq<u8>) -> Seq<u8>;

/// HMAC-SHA512 of a message under a key, as computed by the `hmac` crate.
pub uninterp spec fn hmac_sha512_of(key: Seq<u8>, msg: Seq<u8>) -> Seq<u8>;

/// Bytes of standard base64 text, as `base64`'s STANDARD engine decodes it.
pub uninterp spec fn base64_decoded(text: Seq<u8>) -> Option<Seq<u8>>;

/// Standard base64 text of bytes, as `base64`'s STANDARD engine encodes it.
pub uninterp spec fn base64_encoded(data: Seq<u8>) -> Seq<char>;

/// Bytes of unpadded RFC 4648 base32 text, as the `base32` crate decodes it.
pub uninterp spec fn base32_decoded(text: Seq<char>) -> Option<Seq<u8>>;

/// SHA-256 digest.
///
/// Trusted: calls `sha2::Sha256::digest`; a SHA-256 digest is 32 bytes.
#[verifier::external_body]
pub(crate) fn sha256(data: &[u8]) -> (d: Vec<u8>)
    ensures
        d@ == sha256_of(data@),
        d@.len() == 32,
{
    sha2::Sha256::digest(data).to_vec()
}

/// SHA-512 digest.
///
/// Trusted: calls `sha2::Sha512::digest`; a SHA-512 digest is 64 bytes.
#[verifier::external_body]
pub(crate) fn sha512(data: &[u8]) -> (d: Vec<u8>)
    ensures
        d@ == sha512_of(data@),
        d@.len() == 64,
{
    sha2::Sha512::digest(data).to_vec()
}

/// SHA3-256 digest.
///
/// Trusted: calls `sha3::Sha3_256::digest`; the digest is 32 bytes.
#[verifier::external_body]
pub(crate) fn sha3_256(data: &[u8]) -> (d: Vec<u8>)
    ensures
        d@ == sha3_256_of(data@),
        d@.len() == 32,
{
    sha3::Sha3_256::digest(data).to_vec()
}

/// HMAC-SHA256 tag.
///
/// Trusted: calls `hmac::Hmac::<Sha256>::new_from_slice` (which accepts keys
/// of any length), `update` and `finalize`; the tag is 32 bytes.
#[verifier::external_body]
pub(crate) fn hmac_sha256(key: &[u8], msg: &[u8]) -> (t: Vec<u8>)
    ensures
        t@ == hmac_sha256_of(key@, msg@),
        t@.len() == 32,
{
    let mut mac = hmac::Hmac::<sha2::Sha256>::new_from_slice(key).unwrap();
    mac.update(msg);
    mac.finalize().into_bytes().to_vec()
}

/// HMAC-SHA1 tag.
///
/// Trusted: calls `hmac::Hmac::<Sha1>::new_from_slice` (which accepts keys
/// of any length), `update` and `finalize`; the tag is 20 bytes.
#[verifier::external_body]
pub(crate) fn hmac_sha1(key: &[u8], msg: &[u8]) -> (t: Vec<u8>)
    ensures
        t@ == hmac_sha1_of(key@, msg@),
        t@.len() == 20,
{
    let mut mac = hmac::Hmac::<sha1::Sha1>::new_from_slice(key).unwrap();
    mac.update(msg);
    mac.finalize().into_bytes().to_vec()
}

/// The lowercase hexadecimal digit of a nibble.
pub open spec fn hex_digit(n: u8) -> char {
    if n < 10 {
        ((n + 48) as u8) as char
    } else {
        ((n + 87) as u8) as char
    }
}

/// Lowercase hexadecimal text of bytes, two digits per byte.
pub open spec fn hex_of(data: Seq<u8>) -> Seq<char>
    decreases data.len(),
{
    if data.len() == 0 {
        Seq::empty()
    } else {
        hex_of(data.drop_last()) + seq![hex_digit(data.last() / 16), hex_digit(data.last() % 16)]
    }
}

/// Lowercase hexadecimal encoding.
///
/// Trusted: calls `hex::encode`, which writes each byte as two lowercase
/// hexadecimal digits, high nibble first.
#[verifier::external_body]
pub(crate) fn hex_encode(data: &[u8]) -> (s: String)
    ensures
        s@ == hex_of(data@),
{
    hex::encode(data)
}

/// The value of a hexadecimal digit (either case), if it is one.
pub open spec fn hex_value(c: char) -> Option<u8> {
    if '0' <= c && c <= '9' {
        Some((c as u8 - 48) as u8)
    } else if 'a' <= c && c <= 'f' {
        Some((c as u8 - 87) as u8)
    } else if 'A' <= c && c <= 'F' {
        Some((c as u8 - 55) as u8)
    } else {
        None
    }
}

/// The bytes of hexadecimal text: even length, every character a digit.
pub open spec fn hex_decoded(s: Seq<char>) -> Option<Seq<u8>>
    decreases s.len(),
{
    if s.len() % 2 != 0 {
        None
    } else if s.len() == 0 {
        Some(Seq::empty())
    } else {
        match (hex_decoded(s.subrange(0, s.len() - 2)), hex_value(s[s.len() - 2]), hex_value(
            s[s.len() - 1],
        )) {
            (Some(front), Some(hi), Some(lo)) => Some(front.push((hi * 16 + lo) as u8)),
            _ => None,
        }
    }
}

/// Hexadecimal decoding.
///
/// Trusted: calls `hex::decode`, which accepts text of even length made of
/// hexadecimal digits of either case and rejects anything else.
#[verifier::external_body]
pub(crate) fn hex_decode(s: &str) -> (r: Option<Vec<u8>>)
    ensures
        match r {
            Some(v) => hex_decoded(s@) == Some(v@),
            None => hex_decoded(s@) is None,
        },
{
    hex::decode(s).ok()
}

/// Standard base64 decoding.
///
/// Trusted: calls `base64::engine::general_purpose::STANDARD.decode`; the
/// result is named by `base64_decoded`.
#[verifier::external_body]
pub(crate) fn base64_decode(text: &[u8]) -> (r: Option<Vec<u8>>)
    ensures
        match r {
            Some(v) => base64_decoded(text@) == Some(v@),
            None => base64_decoded(text@) is None,
        },
{
    base64::engine::general_purpose::STANDARD.decode(text).ok()
}

/// Standard base64 encoding.
///
/// Trusted: calls `base64::engine::general_purpose::STANDARD.encode`; the
/// result is named by `base64_encoded`.
#[verifier::external_body]
pub(crate) fn base64_encode(data: &[u8]) -> (s: String)
    ensures
        s@ == base64_encoded(data@),
{
    base64::engine::general_purpose::STANDARD.encode(data)
}

/// Unpadded RFC 4648 base32 decoding.
///
/// Trusted: calls `base32::decode` with `Alphabet::Rfc4648 { padding: false }`;
/// the result is named by `base32_decoded`.
#[verifier::external_body]
pub(crate) fn base32_decode(text: &str) -> (r: Option<Vec<u8>>)
    ensures
        match r {
            Some(v) => base32_decoded(text@) == Some(v@),
            None => base32_decoded(text@) is None,
        },
{
    base32::decode(base32::Alphabet::Rfc4648 { padding: false }, text)
}

} // verus!
