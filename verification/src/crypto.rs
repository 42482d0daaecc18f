//! The crypto service's own rules: how the root key is derived from its
//! configured text, where system keys are stored, how long the active key
//! is cached, and the operations that are not implemented yet.
//!
//! Encryption itself is done by the crypto engine.

use vstd::prelude::*;
use vstd::string::StringSliceAdditionalSpecFns;
use crate::digest::{base64_decode, base64_decoded, sha256, sha256_of};
use crate::text::{concat_str, owned, seq_starts_with, string_from_chars, strip_prefix};

verus! {

/// Storage prefix of system keys.
pub const SYSTEM_KEY_PREFIX: &'static str = "sys/keys/";

/// Length of a root key, in bytes (AES-256).
pub const ROOT_KEY_LEN: usize = 32;

/// How long the active key stays cached, in nanoseconds (five minutes).
pub const KEY_CACHE_NANOS: u64 = 300000000000;

/// How often system keys are rotated, in seconds (thirty days).
pub const KEY_ROTATION_SECONDS: u64 = 2592000;

/// The key material named by the configured root key text: its base64
/// decoding when it is base64, else its bytes; without a configured text,
/// a freshly generated key.
pub open spec fn root_key_material(configured: Option<Seq<u8>>, generated: Seq<u8>) -> Seq<u8> {
    match configured {
        Some(k) => match base64_decoded(k) {
            Some(b) => b,
            None => k,
        },
        None => generated,
    }
}

/// The root key made of key material: the material itself when it is 32
/// bytes long, else its SHA-256 digest.
pub open spec fn root_key_of(material: Seq<u8>) -> Seq<u8> {
    if material.len() == 32 {
        material
    } else {
        sha256_of(material)
    }
}

/// Derives the root key from the configured text (if any) or from a
/// generated key.  The result is always 32 bytes.
pub fn derive_root_key(configured: Option<&str>, generated: Vec<u8>) -> (k: Vec<u8>)
    requires
        generated@.len() == 32,
    ensures
        k@ == root_key_of(
            root_key_material(
                match configured {
                    Some(s) => Some(s.spec_bytes()),
                    None => None,
                },
                generated@,
            ),
        ),
        k@.len() == 32,
{
    let material = match configured {
        Some(s) => {
            let bytes = s.as_bytes();
            match base64_decode(bytes) {
                Some(b) => b,
                None => vstd::slice::slice_to_vec(bytes),
            }
        },
        None => generated,
    };
    if material.len() == ROOT_KEY_LEN {
        material
    } else {
        sha256(material.as_slice())
    }
}

/// Storage path of a system key.
pub fn system_key_path(key_id: &str) -> (p: String)
    ensures
        p@ == "sys/keys/"@ + key_id@,
{
    let v = concat_str("sys/keys/", key_id);
    string_from_chars(v.as_slice())
}

/// The id of the system key stored at `path`, if it is under the prefix.
pub fn system_key_id(path: &str) -> (r: Option<String>)
    ensures
        r is Some <==> seq_starts_with(path@, "sys/keys/"@),
        r matches Some(n) ==> "sys/keys/"@ + n@ == path@,
{
    let r = strip_prefix(path, "sys/keys/");
    proof {
        reveal_strlit("sys/keys/");
        if r is Some {
            let p: Seq<char> = "sys/keys/"@;
            assert(p + path@.skip(p.len() as int) =~= path@);
        }
    }
    r
}

/// Whether the cached active key may still be used, `elapsed_nanos` after
/// it was cached.
pub fn cached_key_usable(elapsed_nanos: u64) -> (b: bool)
    ensures
        b == (elapsed_nanos < KEY_CACHE_NANOS),
{
    elapsed_nanos < KEY_CACHE_NANOS
}

/// Signing with a system key is not implemented: the signature is 64 zero
/// bytes, whatever the key and data.
pub fn sign_data(key: &[u8], data: &[u8]) -> (s: Vec<u8>)
    ensures
        s@ == Seq::new(64, |i: int| 0u8),
{
    let mut s: Vec<u8> = Vec::new();
    for i in 0..64usize
        invariant
            s@ == Seq::new(i as nat, |j: int| 0u8),
    {
        s.push(0u8);
        assert(s@ =~= Seq::new((i + 1) as nat, |j: int| 0u8));
    }
    s
}

/// Verification with a system key is not implemented: every signature is
/// accepted.
pub fn verify_signature(key: &[u8], data: &[u8], signature: &[u8]) -> (b: bool)
    ensures
        b,
{
    true
}

/// Low-level decryption from raw parts is refused, always.
pub fn decrypt_full(key: &[u8], nonce: &[u8], ciphertext: &[u8]) -> (r: Result<Vec<u8>, String>)
    ensures
        r matches Err(m) && m@
            == "Direct low-level decryption via decrypt_full is deprecated. Use decrypt_with_key."@,
{
    Err(
        owned(
            "Direct low-level decryption via decrypt_full is deprecated. Use decrypt_with_key.",
        ),
    )
}

} // verus!
