//! Properties of the library that span several operations.
//!
//! Each proof function states one property over the spec functions that the
//! operations' own contracts use, so that it holds of every call of them.

use vstd::prelude::*;
use vstd::arithmetic::div_mod::{
    lemma_div_denominator, lemma_div_multiples_vanish_quotient, lemma_fundamental_div_mod,
    lemma_fundamental_div_mod_converse,
};
use vstd::arithmetic::mul::{lemma_mul_inequality, lemma_mul_strict_inequality};
use vstd::arithmetic::power2::{lemma2_to64, lemma_pow2_adds, lemma_pow2_pos, pow2};
use crate::totp::{b32_char, b32_symbols, b32_value, base32_text, bytes_value, lenient_base32, symbols_value, top_bytes};
use crate::auth::{
    after_failed_attempt, after_success, is_locked_at, privileged_roles, spec_login_precheck,
    spec_mfa_outcome, mfa_allows, LoginDenial, UserAccount, MAX_FAILED_ATTEMPTS,
    LOCKOUT_SECONDS, TokenBlacklist, revoked_at, live_at,
};
use crate::audit::{
    AuditEvent, AuditFilters, is_newest_first, kept, lemma_kept, lemma_newest_first,
    newest_first, passes, rich_of,
};
use crate::access::{cache_hit, cached_as, recent, CertificateCache, CertificateValidation, RATE_WINDOW_NANOS};
use crate::lifecycle::{is_reserved, lemma_swept_paths, swept_paths};
use crate::monitoring::{after_auth_attempt, SecurityMetrics};
use crate::seal::{after_submit, holds_index, Share};
use crate::secrets::{
    delete_outcome, err_not_found, get_outcome, history_path, put_outcome, rollback_outcome,
    same_meta, SecretError, SecretMetadata, SecretStore,
};

use crate::api::{error_answer, rejection_answer, ServiceError};
use crate::auth::{authenticate_gate, is_unusable, login_gate, AuthError, UserRecordRead};
use crate::keys::{be_bytes, law_cache_roundtrip};
use crate::secrets::{cache_hit_for, json_string_map, listable, listed_indices, StoredSecret};
use crate::seal::init_refusal;
use crate::admin::{merged_user_doc, DocValue, UpdateUserRequest};
use crate::admin::{
    activity_alerts, expired_at, expired_paths_of, failed_login_count, meta_lookup, rfc3339_utc,
    AuditLogEntry, EntryMeta,
};
use crate::auth::spec_has_permission;
use crate::keys::{creatable_algorithm, encryption_algorithm, KeyAlgorithm};
use crate::totp::{algorithm_named, be8, engine_code, pow10, truncated, TotpAlgorithm};
use crate::digest::{hmac_sha1_of, hmac_sha256_of, hmac_sha512_of};
use crate::text::{decimal, decimal_padded, seq_has_str};

verus! {

/// A correct password of a user without MFA enrollment is answered exactly
/// as a wrong password, by the router and by the security server's
/// rejection handler alike, so the answer never confirms the password.
pub proof fn law_mfa_enrollment_not_revealed(username: String, message: String)
    requires
        message@ == "Invalid credentials"@,
    ensures
        error_answer(ServiceError::MfaNotConfigured { username }) == error_answer(
            ServiceError::Authentication { message },
        ),
        rejection_answer(ServiceError::MfaNotConfigured { username }) == rejection_answer(
            ServiceError::Authentication { message },
        ),
{
}

/// `authenticate` answers root, a locked account and a disabled or inactive
/// account alike, with invalid credentials, before any password check; a
/// failed read of the user record fails closed with a storage error.
pub proof fn law_authenticate_refusals_uniform(
    username: Seq<char>,
    u: UserAccount,
    now: i64,
    e: String,
)
    ensures
        (username == "root"@ || is_locked_at(u, now) || is_unusable(u)) ==> authenticate_gate(
            username,
            UserRecordRead::Stored(u),
            now,
        ) == Err::<Option<UserAccount>, AuthError>(AuthError::InvalidCredentials),
        username != "root"@ ==> authenticate_gate(username, UserRecordRead::StorageFailed(e), now)
            == Err::<Option<UserAccount>, AuthError>(AuthError::Storage(e)),
{
}

/// After a read refreshed the cache with the stored version's payload, the
/// next read of that version is served from the cache with exactly the
/// stored payload (the cached payload of a secret whose data is a JSON map
/// of strings is a hit).
pub proof fn law_cache_refresh_then_hit(version: u32, payload: Seq<u8>)
    requires
        payload.len() > 0,
        json_string_map(payload),
    ensures
        cache_hit_for(Some(be_bytes(version) + payload), version),
        (be_bytes(version) + payload).subrange(4, (be_bytes(version) + payload).len() as int)
            == payload,
{
    law_cache_roundtrip(version, payload);
}

/// Once sealed, or freshly initialized, a vault never unseals on a single
/// share: the shares held start empty and the threshold is at least 2.
pub proof fn law_single_share_never_unseals(shares: u8, threshold: u8, share: Share)
    requires
        init_refusal(false, shares, threshold) is None,
    ensures
        after_submit(Seq::<Share>::empty(), share).len() < threshold,
{
    assert(!holds_index(Seq::<Share>::empty(), share.index));
}

/// A listing names each listable, readable entry exactly once, in store
/// order, and nothing else: its positions strictly increase, each names an
/// entry the user owns under the prefix and outside the archive that the
/// policy lets the user read, and every such entry is named.
pub proof fn law_listing_exact(
    s: Seq<StoredSecret>,
    readable: Seq<bool>,
    prefix: Option<&str>,
    owner: u128,
    n: int,
)
    requires
        0 <= n <= s.len(),
        n <= readable.len(),
    ensures
        forall|a: int, b: int|
            0 <= a < b < listed_indices(s, readable, prefix, owner, n).len() ==> listed_indices(
                s,
                readable,
                prefix,
                owner,
                n,
            )[a] < listed_indices(s, readable, prefix, owner, n)[b],
        forall|k: int|
            0 <= k < listed_indices(s, readable, prefix, owner, n).len() ==> {
                let i = #[trigger] listed_indices(s, readable, prefix, owner, n)[k];
                0 <= i < n && listable(s[i], prefix, owner) && readable[i]
            },
        forall|i: int|
            0 <= i < n && listable(#[trigger] s[i], prefix, owner) && readable[i] ==> listed_indices(
                s,
                readable,
                prefix,
                owner,
                n,
            ).contains(i),
    decreases n,
{
    if n > 0 {
        law_listing_exact(s, readable, prefix, owner, n - 1);
        let before = listed_indices(s, readable, prefix, owner, n - 1);
        let now = listed_indices(s, readable, prefix, owner, n);
        if listable(s[n - 1], prefix, owner) && readable[n - 1] {
            assert(now == before.push(n - 1));
            assert forall|i: int|
                0 <= i < n && listable(#[trigger] s[i], prefix, owner) && readable[i] implies now.contains(i) by {
                if i < n - 1 {
                    let k = choose|k: int| 0 <= k < before.len() && before[k] == i;
                    assert(now[k] == i);
                } else {
                    assert(now[now.len() - 1] == i);
                }
            }
        } else {
            assert(now == before);
        }
    }
}

/// An admitted user update keeps every member of the stored document other
/// than email, full name, enabled flag, roles and update time, with its
/// value: password hash, MFA secret, lock state and unknown members alike.
pub proof fn law_user_update_keeps_other_members(
    d: Map<Seq<char>, DocValue>,
    request: UpdateUserRequest,
    now_text: String,
    k: Seq<char>,
)
    requires
        k != "email"@,
        k != "full_name"@,
        k != "enabled"@,
        k != "roles"@,
        k != "updated_at"@,
    ensures
        merged_user_doc(d, request, now_text).contains_key(k) == d.contains_key(k),
        d.contains_key(k) ==> merged_user_doc(d, request, now_text)[k] == d[k],
{
}

/// What each role may do: an admin may do anything; a user may read, list
/// and write; a viewer may only read and list.  Writing needs the "admin"
/// or "user" role, any permission other than read, list and write needs
/// "admin", and an account without any of the three roles holds nothing.
pub proof fn law_permissions_by_role(roles: Seq<String>, permission: Seq<char>)
    ensures
        seq_has_str(roles, "admin"@) ==> spec_has_permission(roles, permission),
        seq_has_str(roles, "user"@) ==> spec_has_permission(roles, "secreton:read"@)
            && spec_has_permission(roles, "secreton:list"@) && spec_has_permission(
            roles,
            "secreton:write"@,
        ),
        seq_has_str(roles, "viewer"@) ==> spec_has_permission(roles, "secreton:read"@)
            && spec_has_permission(roles, "secreton:list"@),
        spec_has_permission(roles, "secreton:write"@) ==> seq_has_str(roles, "admin"@)
            || seq_has_str(roles, "user"@),
        (permission != "secreton:read"@ && permission != "secreton:list"@ && permission
            != "secreton:write"@ && spec_has_permission(roles, permission)) ==> seq_has_str(
            roles,
            "admin"@,
        ),
        spec_has_permission(roles, permission) ==> seq_has_str(roles, "admin"@) || seq_has_str(
            roles,
            "user"@,
        ) || seq_has_str(roles, "viewer"@),
{
    reveal_strlit("secreton:read");
    reveal_strlit("secreton:list");
    reveal_strlit("secreton:write");
    assert("secreton:write"@.len() == 14);
    assert("secreton:read"@.len() == 13);
    assert("secreton:list"@.len() == 13);
    assert("secreton:read"@[9] != "secreton:list"@[9]);
}

/// The failed-login count of the suspicious-activity scan is the number of
/// audit lines for the action "login" that did not succeed: successful
/// logins and other actions never add to it.  The authentication finding
/// is reported exactly when that number exceeds 10.
pub proof fn law_failed_logins_counted(logs: Seq<AuditLogEntry>)
    ensures
        failed_login_count(logs) == logs.filter(
            |l: AuditLogEntry| l.action@ == "login"@ && !l.success,
        ).len(),
        (forall|i: int| 0 <= i < logs.len() ==> (#[trigger] logs[i]).success)
            ==> failed_login_count(logs) == 0,
        (forall|i: int|
            0 <= i < logs.len() ==> (#[trigger] logs[i]).action@ == "login"@ && !logs[i].success)
            ==> failed_login_count(logs) == logs.len(),
        (failed_login_count(logs) > 10) == (activity_alerts(logs).len() > 0 && activity_alerts(
            logs,
        )[0].1 == "authentication"@),
        failed_login_count(logs) > 10 ==> activity_alerts(logs)[0].0 == "medium"@
            && activity_alerts(logs)[0].2 == "High number of failed login attempts"@
            && activity_alerts(logs)[0].3 == "Detected "@ + decimal(
            logs.filter(|l: AuditLogEntry| l.action@ == "login"@ && !l.success).len(),
        ) + " failed login attempts in the last 24 hours"@,
    decreases logs.len(),
{
    reveal(Seq::filter);
    reveal_strlit("authentication");
    reveal_strlit("access_control");
    assert("authentication"@[1] != "access_control"@[1]);
    if logs.len() > 0 {
        law_failed_logins_counted(logs.drop_last());
        let d = logs.drop_last();
        assert forall|i: int| 0 <= i < d.len() implies #[trigger] d[i] == logs[i] by {}
    }
    let a = activity_alerts(logs);
    if failed_login_count(logs) > 10 {
        assert(a[0].1 == "authentication"@);
    } else {
        if a.len() > 0 {
            assert(a[0].1 == "access_control"@);
        }
    }
}

/// The cleanup of expired secrets returns exactly the paths of entries
/// whose "expires_at" is readable and not after `now`: every returned path
/// is such an entry's, every such entry's path is returned, and (with
/// distinct paths) an entry with no readable expiry, or one after `now`,
/// is never returned.
pub proof fn law_expired_paths_exact(es: Seq<EntryMeta>, now: (i64, u32))
    ensures
        expired_paths_of(es, now).len() <= es.len(),
        forall|k: int|
            #![trigger expired_paths_of(es, now)[k]]
            0 <= k < expired_paths_of(es, now).len() ==> exists|i: int|
                0 <= i < es.len() && (#[trigger] es[i]).path@ == expired_paths_of(es, now)[k] && (
                meta_lookup(es[i].metadata@, "expires_at"@) matches Some(t) && rfc3339_utc(t) matches Some(x) && (
                x.0 < now.0 || (x.0 == now.0 && x.1 <= now.1))),
        forall|i: int|
            0 <= i < es.len() && (meta_lookup((#[trigger] es[i]).metadata@, "expires_at"@) matches Some(t)
                && rfc3339_utc(t) matches Some(x) && (x.0 < now.0 || (x.0 == now.0 && x.1
                <= now.1))) ==> expired_paths_of(es, now).contains(es[i].path@),
        (forall|a: int, b: int| 0 <= a < b < es.len() ==> (#[trigger] es[a]).path@ != (#[trigger] es[b]).path@)
            ==> forall|i: int|
            0 <= i < es.len() && !(meta_lookup((#[trigger] es[i]).metadata@, "expires_at"@) matches Some(t)
                && rfc3339_utc(t) matches Some(x) && (x.0 < now.0 || (x.0 == now.0 && x.1
                <= now.1))) ==> !expired_paths_of(es, now).contains(es[i].path@),
    decreases es.len(),
{
    let r = expired_paths_of(es, now);
    if es.len() > 0 {
        let d = es.drop_last();
        law_expired_paths_exact(d, now);
        let p = expired_paths_of(d, now);
        assert forall|i: int| 0 <= i < d.len() implies #[trigger] d[i] == es[i] by {}
        assert(es.last() == es[es.len() - 1]);
        if expired_at(es.last(), now) {
            assert(r == p.push(es.last().path@));
        } else {
            assert(r == p);
        }
        assert forall|k: int| #![trigger r[k]] 0 <= k < r.len() implies exists|i: int|
            0 <= i < es.len() && (#[trigger] es[i]).path@ == r[k] && (
            meta_lookup(es[i].metadata@, "expires_at"@) matches Some(t) && rfc3339_utc(t) matches Some(x) && (
            x.0 < now.0 || (x.0 == now.0 && x.1 <= now.1))) by {
            if k < p.len() {
                assert(r[k] == p[k]);
                let i = choose|i: int|
                    0 <= i < d.len() && (#[trigger] d[i]).path@ == p[k] && (
                    meta_lookup(d[i].metadata@, "expires_at"@) matches Some(t) && rfc3339_utc(t) matches Some(x) && (
                    x.0 < now.0 || (x.0 == now.0 && x.1 <= now.1)));
                assert(es[i] == d[i]);
            } else {
                assert(es[es.len() - 1] == es.last());
            }
        }
        assert forall|i: int|
            0 <= i < es.len() && (meta_lookup((#[trigger] es[i]).metadata@, "expires_at"@) matches Some(t)
                && rfc3339_utc(t) matches Some(x) && (x.0 < now.0 || (x.0 == now.0 && x.1
                <= now.1))) implies r.contains(es[i].path@) by {
            if i < d.len() {
                assert(d[i] == es[i]);
                assert(p.contains(es[i].path@));
                let k = choose|k: int| 0 <= k < p.len() && p[k] == es[i].path@;
                assert(r[k] == p[k]);
            } else {
                assert(r[r.len() - 1] == es[i].path@);
            }
        }
    }
    assert forall|i: int|
        0 <= i < es.len() && r.contains(es[i].path@) && (forall|a: int, b: int| 0 <= a < b < es.len() ==> (#[trigger] es[a]).path@ != (#[trigger] es[b]).path@)
        implies (meta_lookup(es[i].metadata@, "expires_at"@) matches Some(t)
                && rfc3339_utc(t) matches Some(x) && (x.0 < now.0 || (x.0 == now.0 && x.1
                <= now.1))) by {
        let k = choose|k: int| 0 <= k < r.len() && r[k] == es[i].path@;
        let j = choose|j: int|
            0 <= j < es.len() && (#[trigger] es[j]).path@ == r[k] && (
            meta_lookup(es[j].metadata@, "expires_at"@) matches Some(t) && rfc3339_utc(t) matches Some(x) && (
            x.0 < now.0 || (x.0 == now.0 && x.1 <= now.1)));
        if j != i {
            if j < i {
                assert(es[j].path@ != es[i].path@);
            } else {
                assert(es[i].path@ != es[j].path@);
            }
        }
    }
}

/// A symmetric key encrypts with the algorithm it was created with, and
/// only symmetric keys encrypt: an AES-256-GCM key with AES-256-GCM, a
/// ChaCha20-Poly1305 key with ChaCha20-Poly1305.
pub proof fn law_encryption_uses_key_algorithm(t: Seq<char>)
    ensures
        (creatable_algorithm(t) matches Some(a) && (a == KeyAlgorithm::Aes256Gcm || a
            == KeyAlgorithm::ChaCha20Poly1305)) ==> encryption_algorithm(t) == creatable_algorithm(t),
        encryption_algorithm(t) matches Some(a) ==> (a == KeyAlgorithm::Aes256Gcm || a
            == KeyAlgorithm::ChaCha20Poly1305),
        (t != "unknown"@ && encryption_algorithm(t) is Some) ==> encryption_algorithm(t)
            == creatable_algorithm(t),
{
    reveal_strlit("aes256-gcm");
    reveal_strlit("chacha20-poly1305");
    reveal_strlit("unknown");
    reveal_strlit("rsa-2048");
    reveal_strlit("rsa-4096");
    reveal_strlit("ecdsa-p256");
    reveal_strlit("ecdsa-p384");
    reveal_strlit("ed25519");
    assert("aes256-gcm"@.len() == 10 && "chacha20-poly1305"@.len() == 17 && "unknown"@.len() == 7);
}

/// The code of a stored TOTP key is computed with the HMAC its stored
/// algorithm names: "SHA512" with HMAC-SHA512, "SHA256" with HMAC-SHA256,
/// and any other name, or none, with HMAC-SHA1.
pub proof fn law_stored_algorithm_selects_hmac(
    name: Option<String>,
    digits: usize,
    step: u64,
    secret: Seq<u8>,
    time: u64,
)
    ensures
        ({
            let msg = be8((time / step) as u64);
            let mac = if name matches Some(n) && n@ == "SHA512"@ {
                hmac_sha512_of(secret, msg)
            } else if name matches Some(n) && n@ == "SHA256"@ {
                hmac_sha256_of(secret, msg)
            } else {
                hmac_sha1_of(secret, msg)
            };
            engine_code(algorithm_named(name), digits, step, secret, time) == decimal_padded(
                truncated(mac) % pow10(digits as nat),
                digits as nat,
            )
        }),
{
    reveal_strlit("SHA512");
    reveal_strlit("SHA256");
    assert("SHA512"@[3] != "SHA256"@[3]);
    match name {
        Some(n) => {
            if n@ == "SHA512"@ {
                assert(algorithm_named(name) == TotpAlgorithm::SHA512);
            } else if n@ == "SHA256"@ {
                assert(algorithm_named(name) == TotpAlgorithm::SHA256);
            } else {
                assert(algorithm_named(name) == TotpAlgorithm::SHA1);
            }
        },
        None => {},
    }
}

/// Reading a secret right after its owner wrote it gives back the written
/// payload, at the version one above the previous one (1 for a new path).
pub proof fn law_read_after_write(
    s0: SecretStore,
    s1: SecretStore,
    r: Result<crate::secrets::SecretData, SecretError>,
    path: Seq<char>,
    payload: Seq<u8>,
    metadata: Option<SecretMetadata>,
    owner: u128,
    ttl: Option<u64>,
    allowed: bool,
    now: i64,
    g: Result<crate::secrets::SecretData, SecretError>,
)
    requires
        s0.wf(),
        s1.wf(),
        s0.at(path) matches Some(o) ==> o.version < u32::MAX,
        put_outcome(s0, s1, r, path, payload, metadata, owner, ttl, None, allowed, now),
        r is Ok,
        get_outcome(s1, g, path, owner, None, true),
    ensures
        g matches Ok(d) && d.payload@ == payload && d.version as int == match s0.at(path) {
            Some(o) => o.version + 1,
            None => 1,
        },
{
}

/// A write keeps the version it replaces: reading that version afterwards
/// gives back the payload and metadata it held.
pub proof fn law_previous_version_readable(
    s0: SecretStore,
    s1: SecretStore,
    r: Result<crate::secrets::SecretData, SecretError>,
    path: Seq<char>,
    payload: Seq<u8>,
    metadata: Option<SecretMetadata>,
    owner: u128,
    ttl: Option<u64>,
    allowed: bool,
    now: i64,
    g: Result<crate::secrets::SecretData, SecretError>,
)
    requires
        s0.wf(),
        s1.wf(),
        s0.at(path) matches Some(o) && o.version < u32::MAX,
        put_outcome(s0, s1, r, path, payload, metadata, owner, ttl, None, allowed, now),
        r is Ok,
        get_outcome(s1, g, path, owner, Some(s0.at(path).unwrap().version), true),
    ensures
        g matches Ok(d) && d.payload@ == s0.at(path).unwrap().payload@ && d.version == s0.at(
            path,
        ).unwrap().version && same_meta(d.metadata, s0.at(path).unwrap().metadata),
{
}

/// A secret owned by one user is never read by another: the read is
/// refused with a permission error.
pub proof fn law_foreign_read_refused(
    s: SecretStore,
    g: Result<crate::secrets::SecretData, SecretError>,
    path: Seq<char>,
    user: u128,
    version: Option<u32>,
    allowed: bool,
)
    requires
        s.wf(),
        s.at(path) matches Some(e) && e.owner_id != user,
        get_outcome(s, g, path, user, version, allowed),
    ensures
        g matches Err(SecretError::PermissionDenied(_)),
{
}

/// A secret owned by one user is never overwritten by another: the write is
/// refused and the store is left as it was.
pub proof fn law_foreign_write_refused(
    s0: SecretStore,
    s1: SecretStore,
    r: Result<crate::secrets::SecretData, SecretError>,
    path: Seq<char>,
    payload: Seq<u8>,
    metadata: Option<SecretMetadata>,
    user: u128,
    ttl: Option<u64>,
    allowed: bool,
    now: i64,
)
    requires
        s0.wf(),
        s0.at(path) matches Some(e) && e.owner_id != user,
        put_outcome(s0, s1, r, path, payload, metadata, user, ttl, None, allowed, now),
    ensures
        r is Err,
        s1.entries@ == s0.entries@,
{
}

/// Once a secret is deleted, reading it fails with "not found", whoever
/// reads it and at whatever version.
pub proof fn law_read_after_delete(
    s0: SecretStore,
    s1: SecretStore,
    r: Result<(), SecretError>,
    path: Seq<char>,
    owner: u128,
    delete_history: bool,
    check_perms: bool,
    allowed: bool,
    reader: u128,
    version: Option<u32>,
    g: Result<crate::secrets::SecretData, SecretError>,
)
    requires
        s0.wf(),
        s1.wf(),
        delete_outcome(s0, s1, r, path, owner, delete_history, check_perms, allowed),
        r is Ok,
        get_outcome(s1, g, path, reader, version, true),
    ensures
        err_not_found(g, path),
{
}

/// A rollback makes the archived version current again: reading the
/// secret afterwards gives back that version's payload and metadata.
pub proof fn law_rollback_restores(
    s0: SecretStore,
    s1: SecretStore,
    r: Result<crate::secrets::SecretData, SecretError>,
    path: Seq<char>,
    version: u32,
    owner: u128,
    write_allowed: bool,
    read_allowed: bool,
    now: i64,
    g: Result<crate::secrets::SecretData, SecretError>,
)
    requires
        s0.wf(),
        s1.wf(),
        rollback_outcome(s0, s1, r, path, version, owner, write_allowed, read_allowed, now),
        r is Ok,
        get_outcome(s1, g, path, owner, None, true),
    ensures
        s0.at(history_path(path, version)) matches Some(h) && (g matches Ok(d) && d.payload@
            == h.payload@ && same_meta(d.metadata, h.metadata)),
{
}

/// An unprivileged account that reaches the limit of failed attempts is
/// locked for the lockout period, and every login in that period is
/// refused as locked.
pub proof fn law_lockout_after_failures(u: UserAccount, now: i64, t: i64, username: Seq<char>)
    requires
        !privileged_roles(u.roles@),
        u.failed_login_attempts + 1 >= MAX_FAILED_ATTEMPTS,
        u.failed_login_attempts < u32::MAX,
        now <= i64::MAX - LOCKOUT_SECONDS,
        now <= t < now + LOCKOUT_SECONDS,
        username != "root"@,
    ensures
        is_locked_at(after_failed_attempt(u, now), t),
        spec_login_precheck(username, Some(after_failed_attempt(u, now)), t) == Some(
            LoginDenial::Locked,
        ),
        login_gate(username, UserRecordRead::Stored(after_failed_attempt(u, now)), t) == Err::<
            (Option<UserAccount>, bool),
            Seq<char>,
        >("Account is locked. Please try again later."@),
        authenticate_gate(username, UserRecordRead::Stored(after_failed_attempt(u, now)), t)
            == Err::<Option<UserAccount>, AuthError>(AuthError::InvalidCredentials),
{
}

/// Failed attempts never lock an account that holds "admin" or "root".
pub proof fn law_privileged_never_locked(u: UserAccount, now: i64)
    requires
        privileged_roles(u.roles@),
        u.failed_login_attempts < u32::MAX,
    ensures
        after_failed_attempt(u, now).locked_until == u.locked_until,
{
}

/// A successful login clears the lock: the account is not locked at any
/// time and its failure count is zero.
pub proof fn law_success_unlocks(u: UserAccount, t: i64)
    ensures
        !is_locked_at(after_success(u), t),
        after_success(u).failed_login_attempts == 0,
{
}

/// When MFA is required (privileged account or global MFA), the MFA service
/// is present and the user has MFA (or the service could not tell), the
/// login proceeds only with a code that the service found valid.
pub proof fn law_mfa_requires_valid_code(
    is_privileged: bool,
    global_mfa: bool,
    configured: Option<bool>,
    code_present: bool,
    code_valid: bool,
)
    requires
        is_privileged || global_mfa,
        configured != Some(false),
    ensures
        mfa_allows(
            spec_mfa_outcome(is_privileged, global_mfa, true, configured, code_present, code_valid),
        ) <==> code_present && code_valid,
{
}

/// When MFA is required and no MFA service is registered, no login
/// proceeds.
pub proof fn law_mfa_fails_closed(
    is_privileged: bool,
    global_mfa: bool,
    configured: Option<bool>,
    code_present: bool,
    code_valid: bool,
)
    requires
        is_privileged || global_mfa,
    ensures
        !mfa_allows(
            spec_mfa_outcome(is_privileged, global_mfa, false, configured, code_present, code_valid),
        ),
{
}

/// A revoked token stays revoked until the lapse time it was revoked with,
/// and no longer.
pub proof fn law_revoked_until_lapse(b: TokenBlacklist, token: Seq<char>, expires_at: i64, t: i64)
    requires
        b.lapse_of(token) == Some(expires_at),
    ensures
        revoked_at(b, token, t) <==> t < expires_at,
{
}

/// Pruning at revocation time never revives a token: a token revoked at
/// `t` stays revoked at `t` after another token is revoked at `now <= t`.
pub proof fn law_revocation_survives_pruning(
    b0: TokenBlacklist,
    b1: TokenBlacklist,
    other: Seq<char>,
    token: Seq<char>,
    now: i64,
    t: i64,
)
    requires
        token != other,
        now <= t,
        b1.lapse_of(token) == live_at(b0.lapse_of(token), now),
    ensures
        revoked_at(b0, token, t) ==> revoked_at(b1, token, t),
{
}


/// An audit query returns, newest first, the result of every stored record
/// that passes the filters and of no other: as many results as passing
/// records, each the result of a passing record.
pub proof fn law_query_results(events: Seq<AuditEvent>, f: AuditFilters)
    ensures
        ({
            let r = newest_first(kept(events, f).map_values(|e: AuditEvent| rich_of(e)));
            &&& is_newest_first(r)
            &&& r.len() == kept(events, f).len()
            &&& forall|i: int|
                0 <= i < r.len() ==> exists|k: int|
                    0 <= k < events.len() && passes(events[k], f) && #[trigger] r[i] == rich_of(
                        events[k],
                    )
        }),
{
    let m = kept(events, f).map_values(|e: AuditEvent| rich_of(e));
    let r = newest_first(m);
    lemma_newest_first(m);
    lemma_kept(events, f);
    assert forall|i: int| 0 <= i < r.len() implies exists|k: int|
        0 <= k < events.len() && passes(events[k], f) && #[trigger] r[i] == rich_of(events[k]) by {
        assert(m.contains(r[i]));
        let a = choose|a: int| 0 <= a < m.len() && m[a] == r[i];
        let e = kept(events, f)[a];
        assert(passes(e, f) && events.contains(e));
        let k = choose|k: int| 0 <= k < events.len() && events[k] == e;
        assert(r[i] == rich_of(events[k]));
    }
}

/// Submitting a share whose index is already held changes nothing: a share
/// submitted twice counts once, and after a submission its index is held.
pub proof fn law_share_counted_once(held: Seq<Share>, share: Share)
    ensures
        after_submit(after_submit(held, share), share) == after_submit(held, share),
        holds_index(after_submit(held, share), share.index),
        after_submit(held, share).len() <= held.len() + 1,
{
    if !holds_index(held, share.index) {
        let s = held.push(share);
        assert(s[held.len() as int].index == share.index);
    }
}

proof fn lemma_recent_of_recent(times: Seq<u64>, now: u64)
    ensures
        recent(recent(times, now), now) == recent(times, now),
    decreases times.len(),
{
    if times.len() > 0 {
        lemma_recent_of_recent(times.drop_last(), now);
        let r = recent(times.drop_last(), now);
        if times.last() > now - RATE_WINDOW_NANOS {
            assert(r.push(times.last()).drop_last() =~= r);
        }
    }
}

proof fn lemma_recent_later(times: Seq<u64>, now: u64, later: u64)
    requires
        now <= later,
    ensures
        recent(times, later).len() <= recent(times, now).len(),
    decreases times.len(),
{
    if times.len() > 0 {
        lemma_recent_later(times.drop_last(), now, later);
    }
}

/// The rate limiter never lets a client exceed its limit: if at most `max`
/// of the client's requests lay in the window before a check at `now`,
/// then at `now` and at every later time at most `max` do afterwards,
/// whether the request was admitted or refused.
pub proof fn law_rate_limit_bound(
    before: Seq<u64>,
    after: Seq<u64>,
    allowed: bool,
    max: u32,
    now: u64,
    later: u64,
)
    requires
        recent(before, now).len() <= max,
        allowed == (recent(before, now).len() < max),
        after == if allowed {
            recent(before, now).push(now)
        } else {
            recent(before, now)
        },
        now <= later,
    ensures
        recent(after, later).len() <= max,
{
    let r = recent(before, now);
    lemma_recent_of_recent(before, now);
    if allowed {
        assert(r.push(now).drop_last() =~= r);
        assert(recent(after, now) == recent(r, now).push(now));
    }
    lemma_recent_later(after, now, later);
}

/// Once the check of a certificate is cached, checking the same
/// certificate again before the entry expires gives the same outcome.
pub proof fn law_cached_check_repeats(
    c1: CertificateCache,
    key: Seq<char>,
    v1: CertificateValidation,
    mono: u64,
    later: u64,
)
    requires
        cached_as(c1, key, v1, (mono + c1.ttl_nanos) as u64),
        mono + c1.ttl_nanos <= u64::MAX,
        later <= mono + c1.ttl_nanos,
    ensures
        cache_hit(c1, key, later),
        c1.entries()[key].validation == v1,
{
}

/// The authentication counters stay balanced: when successes and failures
/// add up to the attempts before a recorded attempt, they still do after
/// it (below the counters' wrap-around).
pub proof fn law_auth_counts_balance(m: SecurityMetrics, success: bool)
    requires
        m.auth_successes + m.auth_failures == m.auth_attempts,
        m.auth_attempts < u64::MAX,
    ensures
        ({
            let n = after_auth_attempt(m, success);
            &&& n.auth_successes + n.auth_failures == n.auth_attempts
            &&& n.auth_attempts == m.auth_attempts + 1
        }),
{
}

/// The lifecycle sweep spares reserved paths: every path it goes on to
/// delete was listed as expired and lies under no reserved prefix.
pub proof fn law_sweep_spares_reserved(entries: Seq<(Seq<char>, bool)>)
    ensures
        forall|i: int|
            0 <= i < swept_paths(entries).len() ==> !is_reserved(#[trigger] swept_paths(entries)[i])
                && entries.contains((swept_paths(entries)[i], true)),
{
    lemma_swept_paths(entries);
    assert forall|i: int| 0 <= i < swept_paths(entries).len() implies !is_reserved(
        #[trigger] swept_paths(entries)[i],
    ) && entries.contains((swept_paths(entries)[i], true)) by {
        let j = choose|j: int| 0 <= j < entries.len() && entries[j] == (swept_paths(entries)[i], true);
    }
}

proof fn lemma_b32_char_value(x: nat)
    requires
        x < 32,
    ensures
        b32_value(b32_char(x)) == Some(x),
        b32_char(x) != '=',
{
}

proof fn lemma_symbols_of_chars(xs: Seq<nat>)
    requires
        forall|i: int| 0 <= i < xs.len() ==> #[trigger] xs[i] < 32,
    ensures
        b32_symbols(xs.map_values(|x: nat| b32_char(x))) == Some(xs),
    decreases xs.len(),
{
    if xs.len() > 0 {
        let cs = xs.map_values(|x: nat| b32_char(x));
        let d = xs.drop_last();
        assert(cs.drop_last() =~= d.map_values(|x: nat| b32_char(x)));
        assert forall|i: int| 0 <= i < d.len() implies #[trigger] d[i] < 32 by {
            assert(d[i] == xs[i]);
        }
        lemma_symbols_of_chars(d);
        lemma_b32_char_value(xs.last());
        assert(cs.last() == b32_char(xs.last()));
        assert(d.push(xs.last()) =~= xs);
    }
}

proof fn lemma_symbols_value_prefix(v: nat, p: nat, ds: Seq<nat>, j: nat)
    requires
        p == 5 * ds.len(),
        v < pow2(p),
        j <= ds.len(),
        forall|k: int|
            0 <= k < ds.len() ==> #[trigger] ds[k] == (v / pow2((p - 5 * (k + 1)) as nat)) % 32,
    ensures
        symbols_value(ds.take(j as int)) == v / pow2((p - 5 * j) as nat),
    decreases j,
{
    lemma_pow2_pos(p);
    if j == 0 {
        assert(ds.take(0) =~= Seq::<nat>::empty());
        lemma_fundamental_div_mod_converse(v as int, pow2(p) as int, 0, v as int);
    } else {
        lemma_symbols_value_prefix(v, p, ds, (j - 1) as nat);
        assert(ds.take(j as int).drop_last() =~= ds.take(j - 1));
        assert(ds.take(j as int).last() == ds[j - 1]);
        let e = (p - 5 * j) as nat;
        let q = v / pow2(e);
        lemma_pow2_pos(e);
        lemma2_to64();
        lemma_pow2_adds(e, 5);
        assert((p - 5 * (j - 1)) as nat == e + 5);
        lemma_div_denominator(v as int, pow2(e) as int, 32);
        lemma_fundamental_div_mod(q as int, 32);
        assert(ds[j - 1] == q % 32);
        assert(symbols_value(ds.take(j as int)) == (q / 32) * 32 + q % 32);
    }
}

proof fn lemma_bytes_value_bound(b: Seq<u8>)
    ensures
        bytes_value(b) < pow2(8 * b.len()),
    decreases b.len(),
{
    lemma2_to64();
    if b.len() > 0 {
        let d = b.drop_last();
        lemma_bytes_value_bound(d);
        lemma_pow2_adds(8 * d.len(), 8);
        assert(8 * b.len() == 8 * d.len() + 8);
        let x = bytes_value(d);
        let y = pow2(8 * d.len());
        assert(x + 1 <= y);
        lemma_mul_inequality((x + 1) as int, y as int, 256);
        assert(bytes_value(b) == x * 256 + b.last());
    }
}

proof fn lemma_byte_at(b: Seq<u8>, k: int)
    requires
        0 <= k < b.len(),
    ensures
        (bytes_value(b) / pow2((8 * (b.len() - 1 - k)) as nat)) % 256 == b[k],
    decreases b.len(),
{
    lemma2_to64();
    let d = b.drop_last();
    let n = b.len();
    assert(bytes_value(b) == bytes_value(d) * 256 + b.last());
    lemma_fundamental_div_mod_converse(
        bytes_value(b) as int,
        256,
        bytes_value(d) as int,
        b.last() as int,
    );
    if k == n - 1 {
        assert((8 * (n - 1 - k)) as nat == 0);
        vstd::arithmetic::div_mod::lemma_div_basics(bytes_value(b) as int);
        assert(bytes_value(b) / pow2(0) == bytes_value(b));
        assert(b[k] == b.last());
    } else {
        let e = (8 * (n - 2 - k)) as nat;
        lemma_pow2_pos(e);
        lemma_pow2_adds(8, e);
        assert((8 * (n - 1 - k)) as nat == 8 + e);
        assert(pow2(8 + e) == 256 * pow2(e));
        lemma_div_denominator(bytes_value(b) as int, 256, pow2(e) as int);
        assert(bytes_value(b) / pow2(8 + e) == bytes_value(d) / pow2(e));
        lemma_byte_at(d, k);
        assert((8 * (d.len() - 1 - k)) as nat == e);
        assert(d[k] == b[k]);
    }
}

/// A TOTP secret reads back as the bytes it was made from: reading the
/// unpadded base32 text of any bytes leniently gives those bytes again.
pub proof fn law_base32_roundtrip(b: Seq<u8>)
    ensures
        lenient_base32(base32_text(b)) == Some(b),
{
    let n = b.len();
    let l = 8 * n;
    let m = (l + 4) / 5;
    let p = 5 * m;
    let bv = bytes_value(b);
    let sh = (p - l) as nat;
    let v = bv * pow2(sh);
    let ds = Seq::new(m, |k: int| (v / pow2((p - 5 * (k + 1)) as nat)) % 32);
    assert(l <= p <= l + 4);
    assert(base32_text(b) =~= ds.map_values(|x: nat| b32_char(x)));
    lemma_symbols_of_chars(ds);
    lemma_bytes_value_bound(b);
    lemma_pow2_pos(sh);
    lemma_pow2_adds(l, sh);
    assert(l + sh == p);
    lemma_mul_strict_inequality(bv as int, pow2(l) as int, pow2(sh) as int);
    assert(v < pow2(p));
    lemma_symbols_value_prefix(v, p, ds, m);
    assert(ds.take(m as int) =~= ds);
    assert(pow2(0) == 1) by {
        lemma2_to64();
    }
    assert((p - 5 * m) as nat == 0);
    vstd::arithmetic::div_mod::lemma_div_basics(v as int);
    assert(symbols_value(ds) == v);
    lemma_fundamental_div_mod_converse(p as int, 8, n as int, (p - l) as int);
    assert(p / 8 == n);
    assert forall|k: int| 0 <= k < n implies #[trigger] top_bytes(v, p)[k] == b[k] by {
        let e = (8 * (n - 1 - k)) as nat;
        assert((p - 8 * (k + 1)) as nat == sh + e);
        lemma_pow2_adds(sh, e);
        lemma_pow2_pos(e);
        lemma_div_multiples_vanish_quotient(pow2(sh) as int, bv as int, pow2(e) as int);
        vstd::arithmetic::mul::lemma_mul_is_commutative(bv as int, pow2(sh) as int);
        assert(v == pow2(sh) * bv);
        assert(v / pow2((p - 8 * (k + 1)) as nat) == bv / pow2(e));
        lemma_byte_at(b, k);
    }
    assert(top_bytes(v, p) =~= b);
}

} // verus!
