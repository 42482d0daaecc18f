//! Key management rules of the secret service: key names, key paths, the
//! algorithms each key type serves, hashing and the version-tagged cache
//! payload.

use vstd::prelude::*;
use crate::digest::{hex_encode, hex_of, sha256, sha256_of, sha3_256, sha3_256_of, sha512, sha512_of};
use crate::access::{parse_usize, parsed_usize};
use crate::admin::{parse_rfc3339, rfc3339_utc};
use crate::secrets::{SecretError, SecretVersionInfo, denied_msg, err_invalid, sort_versions_desc, sorted_desc};
use crate::text::{
    all_digits, chars_of, concat_str, contains, decimal, decimal_chars, is_all_digits, occurs_at,
    owned, push_all, push_str, rfind, seq_contains, seq_starts_with, slice_chars, str_is,
    string_from_chars, strip_prefix, vec_has_str, views,
};

verus! {

/// Algorithms of the keys the secret service manages.
#[derive(Debug, Clone, Copy, PartialEq, Eq, Structural)]
pub enum KeyAlgorithm {
    Aes256Gcm,
    ChaCha20Poly1305,
    Rsa2048,
    Rsa4096,
    EcdsaP256,
    EcdsaP384,
    Ed25519,
}

/// Key information.
#[derive(Debug)]
pub struct KeyInfo {
    pub id: String,
    pub name: String,
    pub key_type: String,
    pub version: u32,
    pub status: String,
    pub created_at: i64,
}

/// Signing result.
#[derive(Debug)]
pub struct SignResult {
    pub signature: String,
    pub key_version: u32,
    pub algorithm: String,
}

/// Encryption result.
#[derive(Debug)]
pub struct EncryptResult {
    pub ciphertext: String,
    pub key_version: u32,
}

/// Decryption result.
#[derive(Debug)]
pub struct DecryptResult {
    pub plaintext: String,
}

/// The name ends with `_v` followed by at least one digit.
pub open spec fn ends_with_key_version(n: Seq<char>) -> bool {
    exists|i: int|
        occurs_at(n, "_v"@, i) && (forall|k: int| i < k ==> !occurs_at(n, "_v"@, k)) && i + 2
            < n.len() && all_digits(n.subrange(i + 2, n.len() as int))
}

/// Message for a key name that collides with versioned key data paths.
pub open spec fn key_name_msg(name: Seq<char>) -> Seq<char> {
    "Key name '"@ + name + "' must not end with '_v' followed by digits (reserved for versioning)"@
}

/// Rejects key names ending with `_v` and digits, which would collide with
/// the paths of versioned key material.
pub fn validate_key_name(name: &str) -> (r: Result<(), SecretError>)
    ensures
        ends_with_key_version(name@) ==> err_invalid(r, key_name_msg(name@)),
        !ends_with_key_version(name@) ==> r is Ok,
{
    let n = chars_of(name);
    let pat = chars_of("_v");
    proof {
        reveal_strlit("_v");
    }
    assert(pat@.len() == 2);
    let found = rfind(n.as_slice(), pat.as_slice());
    let bad = match found {
        Some(i) => {
            assert(occurs_at(n@, pat@, i as int));
            let len = n.len();
            assert(i + 2 <= len);
            let suffix = slice_chars(n.as_slice(), i + 2, len);
            let r = suffix.len() > 0 && is_all_digits(suffix.as_slice());
            proof {
                if !r {
                    assert forall|j: int|
                        occurs_at(n@, "_v"@, j) && (forall|k: int| j < k ==> !occurs_at(n@, "_v"@, k))
                        implies !(j + 2 < n@.len() && all_digits(n@.subrange(j + 2, n@.len() as int))) by {
                        if j != i {
                            assert(!occurs_at(n@, "_v"@, j) || !occurs_at(n@, "_v"@, i as int));
                        }
                    }
                }
            }
            r
        },
        None => false,
    };
    if bad {
        let mut m = chars_of("Key name '");
        push_all(&mut m, n.as_slice());
        push_str(&mut m, "' must not end with '_v' followed by digits (reserved for versioning)");
        Err(SecretError::InvalidOperation(string_from_chars(m.as_slice())))
    } else {
        Ok(())
    }
}

/// Metadata path of a key: `keys/{user}/{name}`.
pub open spec fn key_path(user: Seq<char>, name: Seq<char>) -> Seq<char> {
    "keys/"@ + user + "/"@ + name
}

/// Path of a version's key material: `key_data/{user}/{name}_v{version}`.
pub open spec fn key_data_path(user: Seq<char>, name: Seq<char>, v: u32) -> Seq<char> {
    "key_data/"@ + user + "/"@ + name + "_v"@ + decimal(v as nat)
}

/// Path of key material written before versioning: `key_data/{user}/{name}`.
pub open spec fn legacy_key_data_path(user: Seq<char>, name: Seq<char>) -> Seq<char> {
    "key_data/"@ + user + "/"@ + name
}

/// Builds the metadata path of a key.
pub fn make_key_path(user: &str, name: &str) -> (p: Vec<char>)
    ensures
        p@ == key_path(user@, name@),
{
    let mut p = chars_of("keys/");
    push_str(&mut p, user);
    push_str(&mut p, "/");
    push_str(&mut p, name);
    p
}

/// Builds the path of a version's key material.
pub fn make_key_data_path(user: &str, name: &str, v: u32) -> (p: Vec<char>)
    ensures
        p@ == key_data_path(user@, name@, v),
{
    let mut p = chars_of("key_data/");
    push_str(&mut p, user);
    push_str(&mut p, "/");
    push_str(&mut p, name);
    push_str(&mut p, "_v");
    let d = decimal_chars(v as u64);
    push_all(&mut p, d.as_slice());
    p
}

/// Builds the legacy path of key material.
pub fn make_legacy_key_data_path(user: &str, name: &str) -> (p: Vec<char>)
    ensures
        p@ == legacy_key_data_path(user@, name@),
{
    let mut p = chars_of("key_data/");
    push_str(&mut p, user);
    push_str(&mut p, "/");
    push_str(&mut p, name);
    p
}

/// Where the key material of an operation is looked up: the requested
/// version (or the key's current one), and for version 1 the legacy path
/// when the versioned one is missing.
pub fn key_version_for(requested: Option<u32>, current: u32) -> (v: u32)
    ensures
        v == match requested {
            Some(x) => x,
            None => current,
        },
{
    match requested {
        Some(x) => x,
        None => current,
    }
}

/// Whether the legacy path is to be tried after the versioned path missed.
pub fn try_legacy_key_path(versioned_found: bool, version: u32) -> (b: bool)
    ensures
        b == (!versioned_found && version == 1),
{
    !versioned_found && version == 1
}

/// The algorithm a new key of the given type is generated with.
pub open spec fn creatable_algorithm(t: Seq<char>) -> Option<KeyAlgorithm> {
    if t == "aes256-gcm"@ {
        Some(KeyAlgorithm::Aes256Gcm)
    } else if t == "chacha20-poly1305"@ {
        Some(KeyAlgorithm::ChaCha20Poly1305)
    } else if t == "rsa-2048"@ {
        Some(KeyAlgorithm::Rsa2048)
    } else if t == "rsa-4096"@ {
        Some(KeyAlgorithm::Rsa4096)
    } else if t == "ecdsa-p256"@ {
        Some(KeyAlgorithm::EcdsaP256)
    } else if t == "ecdsa-p384"@ {
        Some(KeyAlgorithm::EcdsaP384)
    } else if t == "ed25519"@ {
        Some(KeyAlgorithm::Ed25519)
    } else {
        None
    }
}

/// The key types that only the transit engine serves.
pub open spec fn transit_only(t: Seq<char>) -> bool {
    t == "xchacha20-poly1305"@ || t == "ecdsa-secp256k1"@ || t == "x25519"@
}

/// Message for a transit-only key type at creation.
pub open spec fn transit_create_msg(t: Seq<char>) -> Seq<char> {
    "Key type '"@ + t + "' is only supported via the transit engine. Use POST /api/v1/transit/keys/{name} instead."@
}

/// Message for an unknown key type.
pub open spec fn unsupported_type_msg(t: Seq<char>) -> Seq<char> {
    "Unsupported key type: "@ + t
}

fn reveal_key_types()
    ensures
        "aes256-gcm"@.len() == 10,
{
    proof {
        reveal_strlit("aes256-gcm");
        reveal_strlit("chacha20-poly1305");
        reveal_strlit("xchacha20-poly1305");
        reveal_strlit("rsa-2048");
        reveal_strlit("rsa-4096");
        reveal_strlit("ecdsa-p256");
        reveal_strlit("ecdsa-p384");
        reveal_strlit("ecdsa-secp256k1");
        reveal_strlit("ed25519");
        reveal_strlit("x25519");
    }
}

/// Looks up the algorithm of a key type among the creatable ones.
pub fn creatable_key_algorithm(t: &str) -> (a: Option<KeyAlgorithm>)
    ensures
        a == creatable_algorithm(t@),
{
    if str_is(t, "aes256-gcm") {
        Some(KeyAlgorithm::Aes256Gcm)
    } else if str_is(t, "chacha20-poly1305") {
        Some(KeyAlgorithm::ChaCha20Poly1305)
    } else if str_is(t, "rsa-2048") {
        Some(KeyAlgorithm::Rsa2048)
    } else if str_is(t, "rsa-4096") {
        Some(KeyAlgorithm::Rsa4096)
    } else if str_is(t, "ecdsa-p256") {
        Some(KeyAlgorithm::EcdsaP256)
    } else if str_is(t, "ecdsa-p384") {
        Some(KeyAlgorithm::EcdsaP384)
    } else if str_is(t, "ed25519") {
        Some(KeyAlgorithm::Ed25519)
    } else {
        None
    }
}

/// Whether the key type is served by the transit engine only.
pub fn is_transit_only(t: &str) -> (b: bool)
    ensures
        b == transit_only(t@),
{
    str_is(t, "xchacha20-poly1305") || str_is(t, "ecdsa-secp256k1") || str_is(t, "x25519")
}

/// Message of a key that already exists.
pub open spec fn key_exists_msg(name: Seq<char>) -> Seq<char> {
    "Key '"@ + name + "' already exists. Delete it first or use a different name."@
}

/// Decides the creation of a key `key_name` of type `key_type` by user
/// `user_id`, in this order: a name ending in a version suffix is refused;
/// then the policy verdict on "create" at the key's path (`allowed`); then
/// an existing key of that name (`exists`) is never overwritten; then the
/// key type gives the algorithm, or the refusal of its type.
pub fn create_key_check(
    user_id: &str,
    key_name: &str,
    key_type: &str,
    allowed: bool,
    exists: bool,
) -> (r: Result<KeyAlgorithm, SecretError>)
    ensures
        ends_with_key_version(key_name@) ==> err_invalid(r, key_name_msg(key_name@)),
        !ends_with_key_version(key_name@) && !allowed ==> (r matches Err(
            SecretError::PermissionDenied(m),
        ) && m@ == denied_msg("create"@, key_path(user_id@, key_name@))),
        !ends_with_key_version(key_name@) && allowed && exists ==> err_invalid(
            r,
            key_exists_msg(key_name@),
        ),
        !ends_with_key_version(key_name@) && allowed && !exists ==> match creatable_algorithm(
            key_type@,
        ) {
            Some(a) => r == Ok::<KeyAlgorithm, SecretError>(a),
            None => if transit_only(key_type@) {
                err_invalid(r, transit_create_msg(key_type@))
            } else {
                err_invalid(r, unsupported_type_msg(key_type@))
            },
        },
{
    match validate_key_name(key_name) {
        Err(e) => {
            return Err(e);
        },
        Ok(()) => {},
    }
    if !allowed {
        let p = make_key_path(user_id, key_name);
        return Err(crate::secrets::denied("create", p.as_slice()));
    }
    if exists {
        let mut m = chars_of("Key '");
        push_str(&mut m, key_name);
        push_str(&mut m, "' already exists. Delete it first or use a different name.");
        return Err(SecretError::InvalidOperation(string_from_chars(m.as_slice())));
    }
    create_key_algorithm(key_type)
}

/// The algorithm a new key is generated with; transit-only and unknown key
/// types are refused.
pub fn create_key_algorithm(key_type: &str) -> (r: Result<KeyAlgorithm, SecretError>)
    ensures
        creatable_algorithm(key_type@) matches Some(a) ==> r == Ok::<KeyAlgorithm, SecretError>(a),
        creatable_algorithm(key_type@) is None && transit_only(key_type@) ==> err_invalid(
            r,
            transit_create_msg(key_type@),
        ),
        creatable_algorithm(key_type@) is None && !transit_only(key_type@) ==> err_invalid(
            r,
            unsupported_type_msg(key_type@),
        ),
{
    match creatable_key_algorithm(key_type) {
        Some(a) => Ok(a),
        None => {
            if is_transit_only(key_type) {
                let mut m = chars_of("Key type '");
                push_str(&mut m, key_type);
                push_str(
                    &mut m,
                    "' is only supported via the transit engine. Use POST /api/v1/transit/keys/{name} instead.",
                );
                Err(SecretError::InvalidOperation(string_from_chars(m.as_slice())))
            } else {
                let m = concat_str("Unsupported key type: ", key_type);
                Err(SecretError::InvalidOperation(string_from_chars(m.as_slice())))
            }
        },
    }
}

/// Message for a transit-only key type at rotation.
pub open spec fn transit_rotate_msg(t: Seq<char>) -> Seq<char> {
    "Key type '"@ + t + "' is only supported via the transit engine and cannot be rotated here."@
}

/// The algorithm a key is rotated with; transit-only and unknown key types
/// are refused.
pub fn rotate_key_algorithm(key_type: &str) -> (r: Result<KeyAlgorithm, SecretError>)
    ensures
        creatable_algorithm(key_type@) matches Some(a) ==> r == Ok::<KeyAlgorithm, SecretError>(a),
        creatable_algorithm(key_type@) is None && transit_only(key_type@) ==> err_invalid(
            r,
            transit_rotate_msg(key_type@),
        ),
        creatable_algorithm(key_type@) is None && !transit_only(key_type@) ==> err_invalid(
            r,
            unsupported_type_msg(key_type@),
        ),
{
    match creatable_key_algorithm(key_type) {
        Some(a) => Ok(a),
        None => {
            if is_transit_only(key_type) {
                let mut m = chars_of("Key type '");
                push_str(&mut m, key_type);
                push_str(
                    &mut m,
                    "' is only supported via the transit engine and cannot be rotated here.",
                );
                Err(SecretError::InvalidOperation(string_from_chars(m.as_slice())))
            } else {
                let m = concat_str("Unsupported key type: ", key_type);
                Err(SecretError::InvalidOperation(string_from_chars(m.as_slice())))
            }
        },
    }
}

/// The algorithm data is encrypted with under a key of this type.
/// Symmetric types serve; a type stored as "unknown" defaults to
/// AES-256-GCM; others are refused.
pub open spec fn encryption_algorithm(t: Seq<char>) -> Option<KeyAlgorithm> {
    if t == "aes256-gcm"@ || t == "unknown"@ {
        Some(KeyAlgorithm::Aes256Gcm)
    } else if t == "chacha20-poly1305"@ {
        Some(KeyAlgorithm::ChaCha20Poly1305)
    } else {
        None
    }
}

/// The message for a key type that cannot encrypt.
pub open spec fn encrypt_refusal_msg(t: Seq<char>) -> Seq<char> {
    if t == "xchacha20-poly1305"@ {
        "Key type 'xchacha20-poly1305' encryption is only supported via the transit engine."@
    } else if t == "rsa-2048"@ || t == "rsa-4096"@ || t == "ecdsa-p256"@ || t == "ecdsa-p384"@
        || t == "ecdsa-secp256k1"@ || t == "ed25519"@ {
        "Key type '"@ + t + "' does not support encryption. Use sign/verify instead."@
    } else if t == "x25519"@ {
        "Key type 'x25519' is for key agreement, not direct encryption."@
    } else {
        "Unsupported key type for encryption: "@ + t
    }
}

/// Selects the encryption algorithm of a key type.
pub fn encrypt_key_algorithm(key_type: &str) -> (r: Result<KeyAlgorithm, SecretError>)
    ensures
        encryption_algorithm(key_type@) matches Some(a) ==> r == Ok::<KeyAlgorithm, SecretError>(a),
        encryption_algorithm(key_type@) is None ==> err_invalid(r, encrypt_refusal_msg(key_type@)),
{
    if str_is(key_type, "aes256-gcm") || str_is(key_type, "unknown") {
        Ok(KeyAlgorithm::Aes256Gcm)
    } else if str_is(key_type, "chacha20-poly1305") {
        Ok(KeyAlgorithm::ChaCha20Poly1305)
    } else if str_is(key_type, "xchacha20-poly1305") {
        Err(
            SecretError::InvalidOperation(
                owned(
                    "Key type 'xchacha20-poly1305' encryption is only supported via the transit engine.",
                ),
            ),
        )
    } else if str_is(key_type, "rsa-2048") || str_is(key_type, "rsa-4096") || str_is(
        key_type,
        "ecdsa-p256",
    ) || str_is(key_type, "ecdsa-p384") || str_is(key_type, "ecdsa-secp256k1") || str_is(
        key_type,
        "ed25519",
    ) {
        let mut m = chars_of("Key type '");
        push_str(&mut m, key_type);
        push_str(&mut m, "' does not support encryption. Use sign/verify instead.");
        Err(SecretError::InvalidOperation(string_from_chars(m.as_slice())))
    } else if str_is(key_type, "x25519") {
        Err(
            SecretError::InvalidOperation(
                owned("Key type 'x25519' is for key agreement, not direct encryption."),
            ),
        )
    } else {
        let m = concat_str("Unsupported key type for encryption: ", key_type);
        Err(SecretError::InvalidOperation(string_from_chars(m.as_slice())))
    }
}

/// The signature algorithm of a key type.
pub open spec fn signing_algorithm(t: Seq<char>) -> Option<KeyAlgorithm> {
    if t == "rsa-2048"@ {
        Some(KeyAlgorithm::Rsa2048)
    } else if t == "rsa-4096"@ {
        Some(KeyAlgorithm::Rsa4096)
    } else if t == "ecdsa-p256"@ {
        Some(KeyAlgorithm::EcdsaP256)
    } else if t == "ecdsa-p384"@ {
        Some(KeyAlgorithm::EcdsaP384)
    } else if t == "ed25519"@ {
        Some(KeyAlgorithm::Ed25519)
    } else {
        None
    }
}

/// The message for a key type that cannot sign (`verify` selects the
/// wording of verification).
pub open spec fn sign_refusal_msg(t: Seq<char>, verify: bool) -> Seq<char> {
    let op = if verify { "verification"@ } else { "signing"@ };
    if t == "ecdsa-secp256k1"@ {
        "Key type 'ecdsa-secp256k1' "@ + op + " is only supported via the transit engine."@
    } else if t == "aes256-gcm"@ || t == "chacha20-poly1305"@ || t == "xchacha20-poly1305"@ {
        "Key type '"@ + t + "' does not support "@ + op + ". Use encrypt/decrypt instead."@
    } else if t == "x25519"@ {
        "Key type 'x25519' is for key agreement, not "@ + op + "."@
    } else {
        "Unsupported key type for "@ + op + ": "@ + t
    }
}

/// Selects the signature algorithm of a key type, for signing or (when
/// `verify`) for verification.
pub fn sign_key_algorithm(key_type: &str, verify: bool) -> (r: Result<KeyAlgorithm, SecretError>)
    ensures
        signing_algorithm(key_type@) matches Some(a) ==> r == Ok::<KeyAlgorithm, SecretError>(a),
        signing_algorithm(key_type@) is None ==> err_invalid(
            r,
            sign_refusal_msg(key_type@, verify),
        ),
{
    let op = if verify {
        "verification"
    } else {
        "signing"
    };
    if str_is(key_type, "rsa-2048") {
        Ok(KeyAlgorithm::Rsa2048)
    } else if str_is(key_type, "rsa-4096") {
        Ok(KeyAlgorithm::Rsa4096)
    } else if str_is(key_type, "ecdsa-p256") {
        Ok(KeyAlgorithm::EcdsaP256)
    } else if str_is(key_type, "ecdsa-p384") {
        Ok(KeyAlgorithm::EcdsaP384)
    } else if str_is(key_type, "ed25519") {
        Ok(KeyAlgorithm::Ed25519)
    } else if str_is(key_type, "ecdsa-secp256k1") {
        let mut m = chars_of("Key type 'ecdsa-secp256k1' ");
        push_str(&mut m, op);
        push_str(&mut m, " is only supported via the transit engine.");
        Err(SecretError::InvalidOperation(string_from_chars(m.as_slice())))
    } else if str_is(key_type, "aes256-gcm") || str_is(key_type, "chacha20-poly1305") || str_is(
        key_type,
        "xchacha20-poly1305",
    ) {
        let mut m = chars_of("Key type '");
        push_str(&mut m, key_type);
        push_str(&mut m, "' does not support ");
        push_str(&mut m, op);
        push_str(&mut m, ". Use encrypt/decrypt instead.");
        Err(SecretError::InvalidOperation(string_from_chars(m.as_slice())))
    } else if str_is(key_type, "x25519") {
        let mut m = chars_of("Key type 'x25519' is for key agreement, not ");
        push_str(&mut m, op);
        push_str(&mut m, ".");
        Err(SecretError::InvalidOperation(string_from_chars(m.as_slice())))
    } else {
        let mut m = chars_of("Unsupported key type for ");
        push_str(&mut m, op);
        push_str(&mut m, ": ");
        push_str(&mut m, key_type);
        Err(SecretError::InvalidOperation(string_from_chars(m.as_slice())))
    }
}

/// The display name of a signature algorithm.
pub open spec fn signature_algorithm_name(a: KeyAlgorithm) -> Seq<char> {
    match a {
        KeyAlgorithm::Rsa2048 => "RSA-2048"@,
        KeyAlgorithm::Rsa4096 => "RSA-4096"@,
        KeyAlgorithm::EcdsaP256 => "ECDSA-P256"@,
        KeyAlgorithm::EcdsaP384 => "ECDSA-P384"@,
        KeyAlgorithm::Ed25519 => "ED25519"@,
        KeyAlgorithm::Aes256Gcm => "Aes256Gcm"@,
        KeyAlgorithm::ChaCha20Poly1305 => "ChaCha20Poly1305"@,
    }
}

/// The name a signature result reports for its algorithm.
pub fn algorithm_name(a: KeyAlgorithm) -> (s: String)
    ensures
        s@ == signature_algorithm_name(a),
{
    match a {
        KeyAlgorithm::Rsa2048 => owned("RSA-2048"),
        KeyAlgorithm::Rsa4096 => owned("RSA-4096"),
        KeyAlgorithm::EcdsaP256 => owned("ECDSA-P256"),
        KeyAlgorithm::EcdsaP384 => owned("ECDSA-P384"),
        KeyAlgorithm::Ed25519 => owned("ED25519"),
        KeyAlgorithm::Aes256Gcm => owned("Aes256Gcm"),
        KeyAlgorithm::ChaCha20Poly1305 => owned("ChaCha20Poly1305"),
    }
}

/// Hash algorithms of `hash_data`.
pub open spec fn spec_hash_hex(data: Seq<u8>, algorithm: Seq<char>) -> Option<Seq<char>> {
    if algorithm == "SHA-256"@ || algorithm == "sha256"@ {
        Some(hex_of(sha256_of(data)))
    } else if algorithm == "SHA-512"@ || algorithm == "sha512"@ {
        Some(hex_of(sha512_of(data)))
    } else if algorithm == "SHA3-256"@ || algorithm == "sha3-256"@ {
        Some(hex_of(sha3_256_of(data)))
    } else {
        None
    }
}

/// Hashes data and returns the lowercase hexadecimal digest. The policy
/// verdict for action "hash" on `sys/crypto` is `allowed`.
pub fn hash_data(data: &[u8], algorithm: &str, allowed: bool) -> (r: Result<String, SecretError>)
    ensures
        !allowed ==> crate::secrets::err_denied(r, "Action 'hash' denied on 'sys/crypto'"@),
        allowed ==> match spec_hash_hex(data@, algorithm@) {
            Some(h) => r matches Ok(s) && s@ == h,
            None => err_invalid(r, "Unsupported hash algorithm: "@ + algorithm@),
        },
{
    if !allowed {
        return Err(SecretError::PermissionDenied(owned("Action 'hash' denied on 'sys/crypto'")));
    }
    if str_is(algorithm, "SHA-256") || str_is(algorithm, "sha256") {
        let d = sha256(data);
        Ok(hex_encode(d.as_slice()))
    } else if str_is(algorithm, "SHA-512") || str_is(algorithm, "sha512") {
        let d = sha512(data);
        Ok(hex_encode(d.as_slice()))
    } else if str_is(algorithm, "SHA3-256") || str_is(algorithm, "sha3-256") {
        let d = sha3_256(data);
        Ok(hex_encode(d.as_slice()))
    } else {
        let m = concat_str("Unsupported hash algorithm: ", algorithm);
        Err(SecretError::InvalidOperation(string_from_chars(m.as_slice())))
    }
}

/// Big-endian bytes of a 32-bit version.
pub open spec fn be_bytes(v: u32) -> Seq<u8> {
    seq![(v / 16777216) as u8, ((v / 65536) % 256) as u8, ((v / 256) % 256) as u8, (v % 256) as u8]
}

/// The version read back from four big-endian bytes.
pub open spec fn be_value(b: Seq<u8>) -> u32 {
    (b[0] * 16777216 + b[1] * 65536 + b[2] * 256 + b[3]) as u32
}

/// The cache payload of a secret: its version in four big-endian bytes,
/// followed by the serialized data.
pub fn cache_payload(version: u32, data: &[u8]) -> (p: Vec<u8>)
    ensures
        p@ == be_bytes(version) + data@,
{
    let mut p: Vec<u8> = Vec::new();
    p.push((version / 16777216) as u8);
    p.push(((version / 65536) % 256) as u8);
    p.push(((version / 256) % 256) as u8);
    p.push((version % 256) as u8);
    let n = data.len();
    for i in 0..n
        invariant
            n == data@.len(),
            p@ == be_bytes(version) + data@.take(i as int),
    {
        p.push(data[i]);
        assert(data@.take(i + 1) == data@.take(i as int).push(data@[i as int]));
    }
    assert(data@.take(n as int) == data@);
    p
}

/// What a cache lookup yields for the current version of a secret.
pub enum CacheRead {
    /// The cached data belongs to the current version.
    Hit(Vec<u8>),
    /// The cached data belongs to another version; read from storage.
    Stale,
    /// The cached payload is malformed; drop it.
    Malformed,
}

/// Reads a cached payload against the version in storage: payloads of four
/// bytes or fewer are malformed, others hit only when their version is the
/// stored one.
pub fn read_cached(cached: &[u8], current_version: u32) -> (r: CacheRead)
    ensures
        cached@.len() <= 4 ==> r is Malformed,
        cached@.len() > 4 && be_value(cached@) != current_version ==> r is Stale,
        cached@.len() > 4 && be_value(cached@) == current_version ==> (r matches CacheRead::Hit(d)
            && d@ == cached@.subrange(4, cached@.len() as int)),
{
    if cached.len() <= 4 {
        return CacheRead::Malformed;
    }
    let v: u64 = (cached[0] as u64) * 16777216 + (cached[1] as u64) * 65536 + (cached[2] as u64)
        * 256 + (cached[3] as u64);
    if v != current_version as u64 {
        return CacheRead::Stale;
    }
    let mut d: Vec<u8> = Vec::new();
    let n = cached.len();
    for i in 4..n
        invariant
            n == cached@.len(),
            d@ == cached@.subrange(4, i as int),
    {
        d.push(cached[i]);
        assert(cached@.subrange(4, i + 1) == cached@.subrange(4, i as int).push(cached@[i as int]));
    }
    CacheRead::Hit(d)
}

/// A payload written for a version reads back as that version's data.
pub proof fn law_cache_roundtrip(version: u32, data: Seq<u8>)
    ensures
        be_value(be_bytes(version) + data) == version,
        (be_bytes(version) + data).subrange(4, (be_bytes(version) + data).len() as int) == data,
{
    let p = be_bytes(version) + data;
    assert(p[0] == (version / 16777216) as u8);
    assert(p[3] == (version % 256) as u8);
    assert(p.subrange(4, p.len() as int) =~= data);
}

/// The name a stored key is listed under: its path after the user's key
/// prefix, kept only when it contains the filter (if one is given).
pub open spec fn listed_name(path: Seq<char>, prefix: Seq<char>, filter: Option<Seq<char>>) -> Option<
    Seq<char>,
> {
    if seq_starts_with(path, prefix) {
        let n = path.skip(prefix.len() as int);
        match filter {
            Some(f) => if seq_contains(n, f) {
                Some(n)
            } else {
                None
            },
            None => Some(n),
        }
    } else {
        None
    }
}

/// The name a stored key is listed under, if it is listed.
pub fn listed_key_name(path: &str, prefix: &str, filter: Option<&str>) -> (r: Option<String>)
    ensures
        match r {
            Some(n) => listed_name(path@, prefix@, match filter {
                Some(f) => Some(f@),
                None => None,
            }) == Some(n@),
            None => listed_name(path@, prefix@, match filter {
                Some(f) => Some(f@),
                None => None,
            }) is None,
        },
{
    match strip_prefix(path, prefix) {
        None => None,
        Some(n) => match filter {
            Some(f) => {
                let nc = chars_of(n.as_str());
                let fc = chars_of(f);
                if contains(nc.as_slice(), fc.as_slice()) {
                    Some(n)
                } else {
                    None
                }
            },
            None => Some(n),
        },
    }
}

/// The information of a key (as read or listed) from the fields of its
/// stored metadata:
/// the id defaults to the name, the type to "unknown", the version to 1
/// (a stored version is cut to 32 bits), the creation time to `now` when it
/// is missing or not RFC 3339; such keys are reported active.
pub fn listed_key_info(
    name: String,
    key_id: Option<String>,
    key_type: Option<String>,
    version: Option<u64>,
    created_at: Option<&str>,
    now: i64,
) -> (k: KeyInfo)
    ensures
        k.id@ == match key_id {
            Some(i) => i@,
            None => name@,
        },
        k.name@ == name@,
        k.key_type@ == match key_type {
            Some(t) => t@,
            None => "unknown"@,
        },
        k.version == match version {
            Some(v) => v as u32,
            None => 1u32,
        },
        k.status@ == "active"@,
        k.created_at == match created_at {
            Some(t) => match rfc3339_utc(t@) {
                Some(x) => x.0,
                None => now,
            },
            None => now,
        },
{
    let id = match key_id {
        Some(i) => i,
        None => name.clone(),
    };
    let key_type = match key_type {
        Some(t) => t,
        None => owned("unknown"),
    };
    let version: u32 = match version {
        Some(v) => v as u32,
        None => 1,
    };
    let created_at = match created_at {
        Some(t) => match parse_rfc3339(t) {
            Some(x) => x.0,
            None => now,
        },
        None => now,
    };
    KeyInfo { id, name, key_type, version, status: owned("active"), created_at }
}

/// The value of a decimal text as `str::parse::<u32>` reads it.
pub open spec fn parsed_u32(s: Seq<char>) -> Option<u32> {
    match parsed_usize(s) {
        Some(n) => if n <= u32::MAX {
            Some(n as u32)
        } else {
            None
        },
        None => None,
    }
}

/// The version of key material stored at `path` under the versioned
/// prefix `key_data/{user}/{key}_v` of a key.
pub fn material_version(path: &str, prefix: &str) -> (r: Option<u32>)
    ensures
        r == if seq_starts_with(path@, prefix@) {
            parsed_u32(path@.skip(prefix@.len() as int))
        } else {
            None::<u32>
        },
{
    match strip_prefix(path, prefix) {
        None => None,
        Some(rest) => match parse_usize(rest.as_str()) {
            Some(n) => if n <= 4294967295usize {
                Some(n as u32)
            } else {
                None
            },
            None => None,
        },
    }
}

/// The key whose versioned material a key name would collide with: for a
/// name ending with `_v` and digits, the part before that last `_v`.
pub open spec fn version_parent(key_id: Seq<char>) -> Option<Seq<char>> {
    if ends_with_key_version(key_id) {
        let i = choose|i: int|
            occurs_at(key_id, "_v"@, i) && (forall|k: int| i < k ==> !occurs_at(key_id, "_v"@, k));
        Some(key_id.take(i))
    } else {
        None
    }
}

/// The key whose versioned material the legacy material of `key_id` could
/// be, if any; the legacy entry counts only when that key does not exist.
pub fn legacy_collision_parent(key_id: &str) -> (r: Option<String>)
    ensures
        match r {
            Some(p) => version_parent(key_id@) == Some(p@),
            None => version_parent(key_id@) is None,
        },
{
    let n = chars_of(key_id);
    let pat = chars_of("_v");
    proof {
        reveal_strlit("_v");
    }
    match rfind(n.as_slice(), pat.as_slice()) {
        Some(i) => {
            let len = n.len();
            let suffix = slice_chars(n.as_slice(), i + 2, len);
            if suffix.len() > 0 && is_all_digits(suffix.as_slice()) {
                proof {
                    assert(occurs_at(n@, "_v"@, i as int));
                    assert(ends_with_key_version(key_id@));
                    let j = choose|j: int|
                        occurs_at(key_id@, "_v"@, j) && (forall|k: int|
                            j < k ==> !occurs_at(key_id@, "_v"@, k));
                    if j != i as int {
                        assert(!occurs_at(key_id@, "_v"@, j) || !occurs_at(key_id@, "_v"@, i as int));
                    }
                }
                let p = slice_chars(n.as_slice(), 0, i);
                assert(p@ =~= key_id@.take(i as int));
                Some(string_from_chars(p.as_slice()))
            } else {
                proof {
                    assert forall|j: int|
                        occurs_at(n@, "_v"@, j) && (forall|k: int| j < k ==> !occurs_at(n@, "_v"@, k))
                        implies !(j + 2 < n@.len() && all_digits(n@.subrange(j + 2, n@.len() as int))) by {
                        if j != i {
                            assert(!occurs_at(n@, "_v"@, j) || !occurs_at(n@, "_v"@, i as int));
                        }
                    }
                }
                None
            }
        },
        None => None,
    }
}

/// The versions of a key, newest first, each with its creation time: the
/// versioned material found, plus version 1 from the legacy material when
/// it is to be counted and no version 1 was found.
pub fn collect_key_versions(
    found: &Vec<SecretVersionInfo>,
    legacy_created_at: Option<i64>,
) -> (r: Vec<SecretVersionInfo>)
    ensures
        sorted_desc(r@),
        r@.to_multiset() == match legacy_created_at {
            Some(t) => if exists|i: int| 0 <= i < found@.len() && (#[trigger] found@[i]).version == 1 {
                found@.to_multiset()
            } else {
                found@.push(SecretVersionInfo { version: 1, created_at: t }).to_multiset()
            },
            None => found@.to_multiset(),
        },
{
    let mut all: Vec<SecretVersionInfo> = Vec::new();
    let n = found.len();
    let mut has_v1 = false;
    for i in 0..n
        invariant
            n == found@.len(),
            all@ == found@.take(i as int),
            has_v1 == exists|j: int| 0 <= j < i && (#[trigger] found@[j]).version == 1,
    {
        if found[i].version == 1 {
            has_v1 = true;
        }
        all.push(found[i]);
        assert(found@.take(i + 1) =~= found@.take(i as int).push(found@[i as int]));
    }
    assert(found@.take(n as int) =~= found@);
    match legacy_created_at {
        Some(t) => {
            if !has_v1 {
                all.push(SecretVersionInfo { version: 1, created_at: t });
            }
        },
        None => {},
    }
    sort_versions_desc(&all)
}

/// The status a version of a key is listed with.
pub fn version_status(version: u32, current: u32) -> (s: String)
    ensures
        s@ == if version == current {
            "active"@
        } else {
            "historical"@
        },
{
    if version == current {
        owned("active")
    } else {
        owned("historical")
    }
}

/// The listed versions of a key: its id, name and type with each version's
/// number, status and creation time, in the given order.
pub fn key_version_infos(current: &KeyInfo, versions: &Vec<SecretVersionInfo>) -> (r: Vec<KeyInfo>)
    ensures
        r@.len() == versions@.len(),
        forall|i: int|
            0 <= i < r@.len() ==> {
                &&& (#[trigger] r@[i]).id@ == current.id@
                &&& r@[i].name@ == current.name@
                &&& r@[i].key_type@ == current.key_type@
                &&& r@[i].version == versions@[i].version
                &&& r@[i].created_at == versions@[i].created_at
                &&& r@[i].status@ == if versions@[i].version == current.version {
                    "active"@
                } else {
                    "historical"@
                }
            },
{
    let mut r: Vec<KeyInfo> = Vec::new();
    let n = versions.len();
    for i in 0..n
        invariant
            n == versions@.len(),
            r@.len() == i,
            forall|k: int|
                0 <= k < i ==> {
                    &&& (#[trigger] r@[k]).id@ == current.id@
                    &&& r@[k].name@ == current.name@
                    &&& r@[k].key_type@ == current.key_type@
                    &&& r@[k].version == versions@[k].version
                    &&& r@[k].created_at == versions@[k].created_at
                    &&& r@[k].status@ == if versions@[k].version == current.version {
                        "active"@
                    } else {
                        "historical"@
                    }
                },
    {
        let v = versions[i];
        r.push(
            KeyInfo {
                id: current.id.clone(),
                name: current.name.clone(),
                key_type: current.key_type.clone(),
                version: v.version,
                status: version_status(v.version, current.version),
                created_at: v.created_at,
            },
        );
    }
    r
}

/// The error for key material missing at a version: the key's name and
/// "(v{version})".
pub fn key_material_not_found(name: &str, version: u32) -> (e: SecretError)
    ensures
        e matches SecretError::KeyNotFound { key_id } && key_id@ == name@ + " (v"@ + decimal(
            version as nat,
        ) + ")"@,
{
    let mut v = chars_of(name);
    push_str(&mut v, " (v");
    let d = decimal_chars(version as u64);
    push_all(&mut v, d.as_slice());
    push_str(&mut v, ")");
    SecretError::KeyNotFound { key_id: string_from_chars(v.as_slice()) }
}

/// The member names of the JSON object that stored bytes hold, as
/// `serde_json` reads them; `None` when the bytes are not JSON or not an
/// object.
pub uninterp spec fn json_object_keys(data: Seq<u8>) -> Option<Seq<Seq<char>>>;

/// The member names of the JSON object in `data`.
///
/// Trusted: calls `serde_json::from_slice::<serde_json::Value>` and, for an
/// object, collects its keys; any other outcome gives `None`.  The names
/// are named by `json_object_keys`.
#[verifier::external_body]
fn object_keys(data: &[u8]) -> (r: Option<Vec<String>>)
    ensures
        match r {
            Some(k) => json_object_keys(data@) == Some(views(k@)),
            None => json_object_keys(data@) is None,
        },
{
    match serde_json::from_slice::<serde_json::Value>(data) {
        Ok(serde_json::Value::Object(m)) => Some(m.keys().cloned().collect()),
        _ => None,
    }
}

/// Stored bytes are an encrypted packet: a JSON object with a "key_id"
/// member.
pub open spec fn is_key_packet(data: Seq<u8>) -> bool {
    match json_object_keys(data) {
        Some(ks) => ks.contains("key_id"@),
        None => false,
    }
}

/// Whether stored bytes look like an encrypted packet.
fn looks_like_packet(data: &[u8]) -> (b: bool)
    ensures
        b == is_key_packet(data@),
{
    match object_keys(data) {
        Some(k) => {
            let b = vec_has_str(&k, "key_id");
            proof {
                if b {
                    let i = choose|i: int| 0 <= i < k@.len() && (#[trigger] k@[i])@ == "key_id"@;
                    assert(views(k@)[i] == "key_id"@);
                } else {
                    assert forall|i: int| 0 <= i < views(k@).len() implies views(k@)[i]
                        != "key_id"@ by {
                        assert(views(k@)[i] == k@[i]@);
                    }
                }
            }
            b
        },
        None => false,
    }
}

/// The key material of a stored entry, from the outcome of decrypting it
/// (`Err` with the crypto service's message when it failed): decrypted
/// material is used as it is; when decryption failed on an encrypted
/// packet the failure is reported; otherwise the stored bytes are legacy
/// unencrypted material and are used as they are.
pub fn key_material(stored: &[u8], decrypted: Result<Vec<u8>, String>) -> (r: Result<
    Vec<u8>,
    SecretError,
>)
    ensures
        match decrypted {
            Ok(d) => r matches Ok(k) && k@ == d@,
            Err(m) => if is_key_packet(stored@) {
                r matches Err(SecretError::Internal(x)) && x@
                    == "Failed to decrypt key material (CryptoPacket detected but decryption failed \u{2014} system key may be unavailable): "@
                    + m@
            } else {
                r matches Ok(k) && k@ == stored@
            },
        },
{
    match decrypted {
        Ok(d) => Ok(d),
        Err(m) => {
            if looks_like_packet(stored) {
                let mut v = chars_of(
                    "Failed to decrypt key material (CryptoPacket detected but decryption failed \u{2014} system key may be unavailable): ",
                );
                push_str(&mut v, m.as_str());
                Err(SecretError::Internal(string_from_chars(v.as_slice())))
            } else {
                Ok(vstd::slice::slice_to_vec(stored))
            }
        },
    }
}

} // verus!
