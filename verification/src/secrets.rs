//! Versioned secret storage rules of the secret service.
//!
//! `SecretStore` holds the entries of the secret namespace as the service
//! keeps them: current versions at their own path and archived versions at
//! `sys/history/{path}::v{version}`.  The operations are those of the
//! service: ownership, versioning and archiving, expiry carry-forward,
//! metadata replacement or carry-forward, deletion with history and
//! rollback.  The policy verdict for each operation (`allowed`) comes from
//! the policy engine.

use vstd::prelude::*;
use crate::ids::{get_user_uuid, owner_uuid};
use crate::keys::{be_bytes, be_value, cache_payload, read_cached, CacheRead};
use crate::text::{concat_str, seq_contains};
use crate::text::{
    chars_eq, chars_of, chars_of_string, decimal, decimal_chars, is_all_digits, occurs_at,
    push_all, push_str, rfind, seq_starts_with, slice_chars, starts_with, string_from_chars,
    all_digits, signed_decimal, signed_decimal_chars,
};

verus! {

/// Largest accepted TTL in seconds (about 100 years).
pub const MAX_TTL_SECONDS: u64 = 3153600000;

/// Prefix of the archive namespace.
pub const HISTORY_PREFIX: &'static str = "sys/history/";

/// Secret service errors.
#[derive(Debug)]
pub enum SecretError {
    SecretNotFound { path: String },
    KeyNotFound { key_id: String },
    PolicyNotFound { name: String },
    BackupNotFound { id: String },
    InvalidOperation(String),
    PermissionDenied(String),
    Crypto(String),
    Storage(String),
    Internal(String),
}

/// Policy metadata.  Tags map a key to a value; no key occurs twice.
#[derive(Debug)]
pub struct PolicyMetadata {
    pub description: Option<String>,
    pub created_by: String,
    pub owner: Option<String>,
    pub tags: Vec<(String, String)>,
}

/// Secret metadata.
#[derive(Debug)]
pub struct SecretMetadata {
    pub description: Option<String>,
    pub tags: Vec<String>,
    pub owner: Option<String>,
    pub classification: Option<String>,
}

/// A stored entry of the secret namespace. Times are Unix seconds.
#[derive(Debug)]
pub struct StoredSecret {
    pub path: String,
    /// The serialized secret data.
    pub payload: Vec<u8>,
    /// UUID value of the owner.
    pub owner_id: u128,
    pub version: u32,
    pub created_at: i64,
    pub updated_at: i64,
    pub expires_at: Option<i64>,
    pub metadata: SecretMetadata,
}

/// A secret as returned to callers.
#[derive(Debug)]
pub struct SecretData {
    pub path: String,
    pub payload: Vec<u8>,
    pub metadata: SecretMetadata,
    pub version: u32,
    pub previous_version: Option<u32>,
    pub created_at: i64,
    pub updated_at: i64,
    pub expires_at: Option<i64>,
}

/// The bytes behind an optional slice.
pub open spec fn unref_bytes(o: Option<&[u8]>) -> Option<Seq<u8>> {
    match o {
        Some(c) => Some(c@),
        None => None,
    }
}

/// Whether bytes are a JSON object mapping strings to strings, as
/// `serde_json` reads them into a `HashMap<String, String>`.
pub uninterp spec fn json_string_map(data: Seq<u8>) -> bool;

/// Whether bytes parse as a JSON map of strings to strings.
///
/// Trusted: calls `serde_json::from_slice::<HashMap<String, String>>` and
/// tells success from failure; the answer is named by `json_string_map`.
#[verifier::external_body]
fn parses_as_string_map(data: &[u8]) -> (b: bool)
    ensures
        b == json_string_map(data@),
{
    serde_json::from_slice::<std::collections::HashMap<String, String>>(data).is_ok()
}

/// The cached payload serves a read of `version`: more than the four
/// version bytes, those bytes spell `version`, and the data after them is
/// a JSON map of strings to strings (any other cached payload is dropped
/// and replaced from storage).
pub open spec fn cache_hit_for(cached: Option<Seq<u8>>, version: u32) -> bool {
    cached matches Some(c) && c.len() > 4 && be_value(c) == version && json_string_map(
        c.subrange(4, c.len() as int),
    )
}

/// A read of the current entry `cur` through a cache holding `cached`
/// served `d` and updates the cache by `upd`: on a hit the cached data is
/// served with everything else from storage and the cache is kept;
/// otherwise the stored data is served and the cache gets the stored
/// version's payload.
pub open spec fn cached_read(
    d: SecretData,
    cur: StoredSecret,
    cached: Option<Seq<u8>>,
    upd: CacheUpdate,
) -> bool {
    if cache_hit_for(cached, cur.version) {
        let c = cached.unwrap();
        &&& d.payload@ == c.subrange(4, c.len() as int)
        &&& d.path@ == cur.path@ && same_meta(d.metadata, cur.metadata) && d.version == cur.version
            && d.previous_version is None && d.created_at == cur.created_at && d.updated_at
            == cur.updated_at && d.expires_at == cur.expires_at
        &&& upd is Keep
    } else {
        &&& data_of(d, cur, None)
        &&& upd matches CacheUpdate::Put(p) && p@ == be_bytes(cur.version) + cur.payload@
    }
}

/// What a read does to the cached payload of its path.
#[derive(Debug)]
pub enum CacheUpdate {
    /// The cache is left as it is.
    Keep,
    /// The cached payload is replaced by this one.
    Put(Vec<u8>),
}

/// Version information of a secret.
#[derive(Debug, Clone, Copy)]
pub struct SecretVersionInfo {
    pub version: u32,
    pub created_at: i64,
}

fn clone_string_opt(o: &Option<String>) -> (r: Option<String>)
    ensures
        r == *o,
{
    match o {
        Some(s) => Some(s.clone()),
        None => None,
    }
}

/// A copy of a vector of strings.
pub fn clone_strings(v: &Vec<String>) -> (r: Vec<String>)
    ensures
        r@ == v@,
{
    let mut r: Vec<String> = Vec::new();
    let n = v.len();
    for i in 0..n
        invariant
            n == v@.len(),
            r@ == v@.take(i as int),
    {
        r.push(v[i].clone());
        assert(v@.take(i + 1) == v@.take(i as int).push(v@[i as int]));
    }
    assert(v@.take(n as int) == v@);
    r
}

/// A copy of a byte vector.
pub fn clone_bytes(v: &Vec<u8>) -> (r: Vec<u8>)
    ensures
        r@ == v@,
{
    let mut r: Vec<u8> = Vec::new();
    let n = v.len();
    for i in 0..n
        invariant
            n == v@.len(),
            r@ == v@.take(i as int),
    {
        r.push(v[i]);
        assert(v@.take(i + 1) == v@.take(i as int).push(v@[i as int]));
    }
    assert(v@.take(n as int) == v@);
    r
}

impl SecretMetadata {
    /// The same metadata, in a new value.
    pub fn duplicate(&self) -> (r: Self)
        ensures
            r.description == self.description,
            r.owner == self.owner,
            r.classification == self.classification,
            r.tags@ == self.tags@,
    {
        SecretMetadata {
            description: clone_string_opt(&self.description),
            tags: clone_strings(&self.tags),
            owner: clone_string_opt(&self.owner),
            classification: clone_string_opt(&self.classification),
        }
    }

    /// Empty metadata.
    pub fn empty() -> (r: Self)
        ensures
            r.description is None && r.owner is None && r.classification is None,
            r.tags@.len() == 0,
    {
        SecretMetadata { description: None, tags: Vec::new(), owner: None, classification: None }
    }
}

/// Two metadata values agree on every field.
pub open spec fn same_meta(a: SecretMetadata, b: SecretMetadata) -> bool {
    a.description == b.description && a.owner == b.owner && a.classification == b.classification
        && a.tags@ == b.tags@
}

/// Two entries agree on every field.
pub open spec fn same_entry(a: StoredSecret, b: StoredSecret) -> bool {
    a.path@ == b.path@ && a.payload@ == b.payload@ && a.owner_id == b.owner_id && a.version
        == b.version && a.created_at == b.created_at && a.updated_at == b.updated_at
        && a.expires_at == b.expires_at && same_meta(a.metadata, b.metadata)
}

impl StoredSecret {
    /// The same entry, in a new value.
    pub fn duplicate(&self) -> (r: Self)
        ensures
            same_entry(r, *self),
    {
        StoredSecret {
            path: self.path.clone(),
            payload: clone_bytes(&self.payload),
            owner_id: self.owner_id,
            version: self.version,
            created_at: self.created_at,
            updated_at: self.updated_at,
            expires_at: self.expires_at,
            metadata: self.metadata.duplicate(),
        }
    }

    /// The entry as returned to callers.
    pub fn to_data(&self, previous_version: Option<u32>) -> (d: SecretData)
        ensures
            d.path@ == self.path@,
            d.payload@ == self.payload@,
            same_meta(d.metadata, self.metadata),
            d.version == self.version,
            d.previous_version == previous_version,
            d.created_at == self.created_at,
            d.updated_at == self.updated_at,
            d.expires_at == self.expires_at,
    {
        SecretData {
            path: self.path.clone(),
            payload: clone_bytes(&self.payload),
            metadata: self.metadata.duplicate(),
            version: self.version,
            previous_version,
            created_at: self.created_at,
            updated_at: self.updated_at,
            expires_at: self.expires_at,
        }
    }
}

/// The archive path of version `v` of `path`.
pub open spec fn history_path(path: Seq<char>, v: u32) -> Seq<char> {
    HISTORY_PREFIX@ + path + "::v"@ + decimal(v as nat)
}

/// The prefix under which the archived versions of `path` lie.
pub open spec fn history_prefix(path: Seq<char>) -> Seq<char> {
    HISTORY_PREFIX@ + path + "::v"@
}

/// Builds the archive path of a version.
pub fn make_history_path(path: &[char], v: u32) -> (p: Vec<char>)
    ensures
        p@ == history_path(path@, v),
{
    let mut p = chars_of(HISTORY_PREFIX);
    push_all(&mut p, path);
    push_str(&mut p, "::v");
    let d = decimal_chars(v as u64);
    push_all(&mut p, d.as_slice());
    p
}

/// Builds the archive prefix of a path.
pub fn make_history_prefix(path: &[char]) -> (p: Vec<char>)
    ensures
        p@ == history_prefix(path@),
{
    let mut p = chars_of(HISTORY_PREFIX);
    push_all(&mut p, path);
    push_str(&mut p, "::v");
    p
}

/// The path ends with `::v` followed by at least one digit.
pub open spec fn ends_with_version_suffix(p: Seq<char>) -> bool {
    exists|i: int|
        occurs_at(p, "::v"@, i) && (forall|k: int| i < k ==> !occurs_at(p, "::v"@, k)) && i + 3
            < p.len() && all_digits(p.subrange(i + 3, p.len() as int))
}

/// Why a path may not be written.
pub open spec fn path_rejected(p: Seq<char>) -> bool {
    seq_starts_with(p, HISTORY_PREFIX@) || ends_with_version_suffix(p)
}

/// Message of a refused policy check.
pub open spec fn denied_msg(action: Seq<char>, path: Seq<char>) -> Seq<char> {
    "Action '"@ + action + "' denied on '"@ + path + "'"@
}

/// Message of an ownership violation.
pub open spec fn not_owner_msg(path: Seq<char>) -> Seq<char> {
    "Access restricted: User is not the owner of '"@ + path + "'"@
}

pub(crate) fn denied(action: &str, path: &[char]) -> (e: SecretError)
    ensures
        e matches SecretError::PermissionDenied(m) && m@ == denied_msg(action@, path@),
{
    let mut m = chars_of("Action '");
    push_str(&mut m, action);
    push_str(&mut m, "' denied on '");
    push_all(&mut m, path);
    push_str(&mut m, "'");
    SecretError::PermissionDenied(string_from_chars(m.as_slice()))
}

fn not_owner(path: &[char]) -> (e: SecretError)
    ensures
        e matches SecretError::PermissionDenied(m) && m@ == not_owner_msg(path@),
{
    let mut m = chars_of("Access restricted: User is not the owner of '");
    push_all(&mut m, path);
    push_str(&mut m, "'");
    SecretError::PermissionDenied(string_from_chars(m.as_slice()))
}

fn not_found(path: &[char]) -> (e: SecretError)
    ensures
        e matches SecretError::SecretNotFound { path: p } && p@ == path@,
{
    SecretError::SecretNotFound { path: string_from_chars(path) }
}

/// Whether the path ends with `::v` followed by digits.
pub fn has_version_suffix(p: &[char]) -> (b: bool)
    ensures
        b == ends_with_version_suffix(p@),
{
    let pat = chars_of("::v");
    proof {
        reveal_strlit("::v");
    }
    assert(pat@.len() == 3);
    let found = rfind(p, pat.as_slice());
    match found {
        Some(i) => {
            assert(occurs_at(p@, pat@, i as int));
            assert(i + 3 <= p@.len());
            let plen = p.len();
            assert(plen == p@.len());
            let suffix = slice_chars(p, i + 3, p.len());
            let r = suffix.len() > 0 && is_all_digits(suffix.as_slice());
            proof {
                if !r {
                    assert forall|j: int|
                        occurs_at(p@, "::v"@, j) && (forall|k: int| j < k ==> !occurs_at(p@, "::v"@, k))
                        implies !(j + 3 < p@.len() && all_digits(p@.subrange(j + 3, p@.len() as int))) by {
                        if j != i {
                            assert(!occurs_at(p@, "::v"@, j) || !occurs_at(p@, "::v"@, i as int));
                        }
                    }
                }
            }
            r
        },
        None => false,
    }
}

/// Whether a path may not be written by callers.
pub fn is_rejected_path(p: &[char]) -> (b: bool)
    ensures
        b == path_rejected(p@),
{
    let pre = chars_of(HISTORY_PREFIX);
    starts_with(p, pre.as_slice()) || has_version_suffix(p)
}

/// The versioned secret namespace.
pub struct SecretStore {
    pub entries: Vec<StoredSecret>,
}

/// No two entries share a path.
pub open spec fn unique_paths(s: Seq<StoredSecret>) -> bool {
    forall|i: int, j: int|
        0 <= i < j < s.len() ==> (#[trigger] s[i]).path@ != (#[trigger] s[j]).path@
}

/// Some entry lies at `p`.
pub open spec fn has_path(s: Seq<StoredSecret>, p: Seq<char>) -> bool {
    exists|i: int| 0 <= i < s.len() && (#[trigger] s[i]).path@ == p
}

/// The entry at `p`.
pub open spec fn entry_at(s: Seq<StoredSecret>, p: Seq<char>) -> Option<StoredSecret> {
    if has_path(s, p) {
        Some(s[choose|i: int| 0 <= i < s.len() && (#[trigger] s[i]).path@ == p])
    } else {
        None
    }
}

proof fn lemma_entry_at_index(s: Seq<StoredSecret>, i: int)
    requires
        unique_paths(s),
        0 <= i < s.len(),
    ensures
        entry_at(s, s[i].path@) == Some(s[i]),
{
    let p = s[i].path@;
    assert(has_path(s, p));
    let j = choose|j: int| 0 <= j < s.len() && (#[trigger] s[j]).path@ == p;
    if j != i {
        if j < i {
            assert(s[j].path@ != s[i].path@);
        } else {
            assert(s[i].path@ != s[j].path@);
        }
    }
}

impl SecretStore {
    /// Well-formed: no two entries share a path.
    pub open spec fn wf(&self) -> bool {
        unique_paths(self.entries@)
    }

    /// The entry stored at a path.
    pub open spec fn at(&self, p: Seq<char>) -> Option<StoredSecret> {
        entry_at(self.entries@, p)
    }

    /// An empty store.
    pub fn new() -> (s: Self)
        ensures
            s.wf(),
            forall|p: Seq<char>| s.at(p) is None,
    {
        SecretStore { entries: Vec::new() }
    }

    /// Index of the entry at a path.
    pub fn find(&self, p: &[char]) -> (r: Option<usize>)
        requires
            self.wf(),
        ensures
            match r {
                Some(i) => i < self.entries@.len() && self.entries@[i as int].path@ == p@
                    && self.at(p@) == Some(self.entries@[i as int]),
                None => self.at(p@) is None,
            },
    {
        let n = self.entries.len();
        for i in 0..n
            invariant
                n == self.entries@.len(),
                self.wf(),
                forall|k: int| 0 <= k < i ==> (#[trigger] self.entries@[k]).path@ != p@,
        {
            let cp = chars_of_string(&self.entries[i].path);
            if chars_eq(cp.as_slice(), p) {
                proof {
                    lemma_entry_at_index(self.entries@, i as int);
                }
                return Some(i);
            }
        }
        None
    }

    /// Stores an entry at its path, replacing what was there.
    pub fn upsert(&mut self, e: StoredSecret)
        requires
            old(self).wf(),
        ensures
            final(self).wf(),
            final(self).at(e.path@) == Some(e),
            forall|q: Seq<char>| q != e.path@ ==> #[trigger] final(self).at(q) == old(self).at(q),
    {
        let p = chars_of_string(&e.path);
        let ghost ep = e.path@;
        match self.find(p.as_slice()) {
            Some(i) => {
                let ghost before = self.entries@;
                self.entries.set(i, e);
                proof {
                    let s = self.entries@;
                    assert(s == before.update(i as int, e));
                    assert forall|a: int, b: int| 0 <= a < b < s.len() implies (#[trigger] s[a]).path@
                        != (#[trigger] s[b]).path@ by {
                        if a != i && b != i {
                            assert(s[a] == before[a] && s[b] == before[b]);
                        } else if a == i {
                            assert(before[b].path@ != before[a].path@);
                        } else {
                            assert(before[a].path@ != before[b].path@);
                        }
                    }
                    lemma_entry_at_index(s, i as int);
                    assert forall|q: Seq<char>| q != ep implies #[trigger] entry_at(s, q) == entry_at(
                        before,
                        q,
                    ) by {
                        if has_path(before, q) {
                            let k = choose|k: int| 0 <= k < before.len() && (#[trigger] before[k]).path@ == q;
                            assert(k != i);
                            assert(s[k] == before[k]);
                            lemma_entry_at_index(before, k);
                            lemma_entry_at_index(s, k);
                        } else {
                            if has_path(s, q) {
                                let k = choose|k: int| 0 <= k < s.len() && (#[trigger] s[k]).path@ == q;
                                assert(k != i);
                                assert(before[k] == s[k]);
                            }
                        }
                    }
                }
            },
            None => {
                let ghost before = self.entries@;
                self.entries.push(e);
                proof {
                    let s = self.entries@;
                    assert(s == before.push(e));
                    assert forall|a: int, b: int| 0 <= a < b < s.len() implies (#[trigger] s[a]).path@
                        != (#[trigger] s[b]).path@ by {
                        if b == s.len() - 1 {
                            assert(s[a] == before[a]);
                            if before[a].path@ == ep {
                                assert(has_path(before, ep));
                            }
                        } else {
                            assert(s[a] == before[a] && s[b] == before[b]);
                        }
                    }
                    lemma_entry_at_index(s, s.len() - 1);
                    assert forall|q: Seq<char>| q != ep implies #[trigger] entry_at(s, q) == entry_at(
                        before,
                        q,
                    ) by {
                        if has_path(before, q) {
                            let k = choose|k: int| 0 <= k < before.len() && (#[trigger] before[k]).path@ == q;
                            assert(s[k] == before[k]);
                            lemma_entry_at_index(before, k);
                            lemma_entry_at_index(s, k);
                        } else {
                            if has_path(s, q) {
                                let k = choose|k: int| 0 <= k < s.len() && (#[trigger] s[k]).path@ == q;
                                assert(k != s.len() - 1);
                                assert(before[k] == s[k]);
                            }
                        }
                    }
                }
            },
        }
    }
}


/// The entry has the fields of `o` but lies at `p`.
pub open spec fn moved_to(e: StoredSecret, o: StoredSecret, p: Seq<char>) -> bool {
    e.path@ == p && e.payload@ == o.payload@ && e.owner_id == o.owner_id && e.version == o.version
        && e.created_at == o.created_at && e.updated_at == o.updated_at && e.expires_at
        == o.expires_at && same_meta(e.metadata, o.metadata)
}

/// The data returned for an entry.
pub open spec fn data_of(d: SecretData, e: StoredSecret, previous: Option<u32>) -> bool {
    d.path@ == e.path@ && d.payload@ == e.payload@ && same_meta(d.metadata, e.metadata)
        && d.version == e.version && d.previous_version == previous && d.created_at
        == e.created_at && d.updated_at == e.updated_at && d.expires_at == e.expires_at
}

/// Message of a TTL beyond the limit.
pub open spec fn ttl_msg(ttl: u64) -> Seq<char> {
    "TTL of "@ + decimal(ttl as nat) + " seconds exceeds the maximum of "@ + decimal(
        MAX_TTL_SECONDS as nat,
    ) + " seconds (~100 years)"@
}

/// Message of a write into the archive namespace.
pub open spec fn history_write_msg() -> Seq<char> {
    "Cannot write directly to reserved sys/history/ namespace"@
}

/// Message of a path ending in a version suffix.
pub open spec fn suffix_msg() -> Seq<char> {
    "Secret path cannot end with '::v' followed by a version number"@
}

/// Message of a missing version.
pub open spec fn missing_version_path(path: Seq<char>, v: u32) -> Seq<char> {
    path + " (version "@ + decimal(v as nat) + ")"@
}

/// The expiry a write gives the new version: an explicit override, else the
/// TTL from now, else the previous version's expiry.
pub open spec fn new_expiry(
    previous: Option<StoredSecret>,
    ttl: Option<u64>,
    expires_override: Option<Option<i64>>,
    now: i64,
) -> Option<i64> {
    match expires_override {
        Some(x) => x,
        None => match ttl {
            Some(t) => Some((now + t) as i64),
            None => match previous {
                Some(o) => o.expires_at,
                None => None,
            },
        },
    }
}

/// A successful write of `payload` at `path` took the store from `s0` to
/// `s1`: the previous version (if any) is archived, the new version holds
/// the payload, and nothing else changed.
pub open spec fn put_effect(
    s0: SecretStore,
    s1: SecretStore,
    path: Seq<char>,
    payload: Seq<u8>,
    metadata: Option<SecretMetadata>,
    owner: u128,
    ttl: Option<u64>,
    expires_override: Option<Option<i64>>,
    now: i64,
) -> bool {
    let prev = s0.at(path);
    &&& s1.at(path) matches Some(e) && {
        &&& e.path@ == path
        &&& e.payload@ == payload
        &&& e.owner_id == owner
        &&& e.version == (match prev {
            Some(o) => (o.version + 1) as u32,
            None => 1u32,
        })
        &&& e.created_at == (match prev {
            Some(o) => o.created_at,
            None => now,
        })
        &&& e.updated_at == now
        &&& e.expires_at == new_expiry(prev, ttl, expires_override, now)
        &&& match metadata {
            Some(m) => same_meta(e.metadata, m),
            None => match prev {
                Some(o) => same_meta(e.metadata, o.metadata),
                None => e.metadata.description is None && e.metadata.owner is None
                    && e.metadata.classification is None && e.metadata.tags@.len() == 0,
            },
        }
    }
    &&& match prev {
        Some(o) => s1.at(history_path(path, o.version)) matches Some(a) && moved_to(
            a,
            o,
            history_path(path, o.version),
        ) && forall|q: Seq<char>|
            q != path && q != history_path(path, o.version) ==> #[trigger] s1.at(q) == s0.at(q),
        None => forall|q: Seq<char>| q != path ==> #[trigger] s1.at(q) == s0.at(q),
    }
}

fn ttl_error(ttl: u64) -> (e: SecretError)
    ensures
        e matches SecretError::InvalidOperation(m) && m@ == ttl_msg(ttl),
{
    let mut m = chars_of("TTL of ");
    let d = decimal_chars(ttl);
    push_all(&mut m, d.as_slice());
    push_str(&mut m, " seconds exceeds the maximum of ");
    let d2 = decimal_chars(MAX_TTL_SECONDS);
    push_all(&mut m, d2.as_slice());
    push_str(&mut m, " seconds (~100 years)");
    SecretError::InvalidOperation(string_from_chars(m.as_slice()))
}

impl SecretStore {
    /// Writes a secret; see `put_secret_internal`. A missing TTL keeps the
    /// previous version's expiry.
    pub fn put_secret(
        &mut self,
        path: &str,
        payload: Vec<u8>,
        metadata: Option<SecretMetadata>,
        user_id: &str,
        ttl: Option<u64>,
        allowed: bool,
        now: i64,
    ) -> (r: Result<SecretData, SecretError>)
        requires
            old(self).wf(),
            0 <= now <= i64::MAX - MAX_TTL_SECONDS,
            old(self).at(path@) matches Some(o) ==> o.version < u32::MAX,
        ensures
            final(self).wf(),
            put_outcome(
                *old(self),
                *final(self),
                r,
                path@,
                payload@,
                metadata,
                owner_uuid(user_id@),
                ttl,
                None,
                allowed,
                now,
            ),
    {
        self.put_secret_internal(path, payload, metadata, user_id, ttl, None, allowed, now)
    }

    /// Writes a new version of a secret.
    ///
    /// Refused, in this order: when the policy denies "write"; when the TTL
    /// exceeds about 100 years; when the path lies in `sys/history/` or ends
    /// with `::v` and digits; when another user owns the current version.
    /// Otherwise the current version is archived at
    /// `sys/history/{path}::v{version}` and the new version, one higher,
    /// replaces it, keeping the creation time.  Provided metadata replaces
    /// the old; without it the old metadata and tags carry over.  The expiry
    /// is `expires_override` when given, else now plus the TTL, else the
    /// previous version's.
    pub fn put_secret_internal(
        &mut self,
        path: &str,
        payload: Vec<u8>,
        metadata: Option<SecretMetadata>,
        user_id: &str,
        ttl: Option<u64>,
        expires_override: Option<Option<i64>>,
        allowed: bool,
        now: i64,
    ) -> (r: Result<SecretData, SecretError>)
        requires
            old(self).wf(),
            0 <= now <= i64::MAX - MAX_TTL_SECONDS,
            old(self).at(path@) matches Some(o) ==> o.version < u32::MAX,
        ensures
            final(self).wf(),
            put_outcome(
                *old(self),
                *final(self),
                r,
                path@,
                payload@,
                metadata,
                owner_uuid(user_id@),
                ttl,
                expires_override,
                allowed,
                now,
            ),
    {
        let p = chars_of(path);
        if !allowed {
            return Err(denied("write", p.as_slice()));
        }
        match ttl {
            Some(t) => if t > MAX_TTL_SECONDS {
                return Err(ttl_error(t));
            },
            None => {},
        }
        let hp = chars_of(HISTORY_PREFIX);
        if starts_with(p.as_slice(), hp.as_slice()) {
            return Err(
                SecretError::InvalidOperation(
                    crate::text::owned("Cannot write directly to reserved sys/history/ namespace"),
                ),
            );
        }
        if has_version_suffix(p.as_slice()) {
            return Err(
                SecretError::InvalidOperation(
                    crate::text::owned(
                        "Secret path cannot end with '::v' followed by a version number",
                    ),
                ),
            );
        }
        let owner = get_user_uuid(user_id);
        let ghost s0 = *self;
        let found = self.find(p.as_slice());
        let (version, previous, created_at, prev_meta, prev_expires) = match found {
            Some(i) => {
                if self.entries[i].owner_id != owner {
                    return Err(not_owner(p.as_slice()));
                }
                let o = self.entries[i].duplicate();
                (o.version + 1, Some(o.version), o.created_at, Some(o.metadata), Some(o.expires_at))
            },
            None => (1u32, None, now, None, None),
        };
        let expires_at = match expires_override {
            Some(x) => x,
            None => match ttl {
                Some(t) => Some(now + t as i64),
                None => match prev_expires {
                    Some(x) => x,
                    None => None,
                },
            },
        };
        let meta = match metadata {
            Some(m) => m,
            None => match prev_meta {
                Some(m) => m,
                None => SecretMetadata::empty(),
            },
        };
        match found {
            Some(i) => {
                let mut archived = self.entries[i].duplicate();
                let ap = make_history_path(p.as_slice(), archived.version);
                archived.path = string_from_chars(ap.as_slice());
                let ghost apath = ap@;
                proof {
                    lemma_history_path_differs(p@, archived.version);
                }
                self.upsert(archived);
            },
            None => {},
        }
        let entry = StoredSecret {
            path: string_from_chars(p.as_slice()),
            payload,
            owner_id: owner,
            version,
            created_at,
            updated_at: now,
            expires_at,
            metadata: meta,
        };
        let data = entry.to_data(previous);
        self.upsert(entry);
        Ok(data)
    }
}

proof fn lemma_history_path_differs(path: Seq<char>, v: u32)
    ensures
        history_path(path, v) != path,
{
    assert(history_path(path, v).len() > path.len()) by {
        reveal_strlit("sys/history/");
    }
}

/// The result is a permission error with this message.
pub open spec fn err_denied<T>(r: Result<T, SecretError>, msg: Seq<char>) -> bool {
    r matches Err(SecretError::PermissionDenied(m)) && m@ == msg
}

/// The result is an invalid-operation error with this message.
pub open spec fn err_invalid<T>(r: Result<T, SecretError>, msg: Seq<char>) -> bool {
    r matches Err(SecretError::InvalidOperation(m)) && m@ == msg
}

/// The result is a not-found error for this path.
pub open spec fn err_not_found<T>(r: Result<T, SecretError>, path: Seq<char>) -> bool {
    r matches Err(SecretError::SecretNotFound { path: p }) && p@ == path
}

/// The outcome of a write: the error owed, or the effect on the store.
pub open spec fn put_outcome(
    s0: SecretStore,
    s1: SecretStore,
    r: Result<SecretData, SecretError>,
    path: Seq<char>,
    payload: Seq<u8>,
    metadata: Option<SecretMetadata>,
    owner: u128,
    ttl: Option<u64>,
    expires_override: Option<Option<i64>>,
    allowed: bool,
    now: i64,
) -> bool {
    let ttl_too_long = ttl matches Some(t) && t > MAX_TTL_SECONDS;
    let foreign = s0.at(path) matches Some(o) && o.owner_id != owner;
    &&& !allowed ==> err_denied(r, denied_msg("write"@, path))
    &&& allowed && ttl_too_long ==> err_invalid(r, ttl_msg(ttl.unwrap()))
    &&& allowed && !ttl_too_long && seq_starts_with(path, HISTORY_PREFIX@) ==> err_invalid(
        r,
        history_write_msg(),
    )
    &&& allowed && !ttl_too_long && !seq_starts_with(path, HISTORY_PREFIX@)
        && ends_with_version_suffix(path) ==> err_invalid(r, suffix_msg())
    &&& allowed && !ttl_too_long && !path_rejected(path) && foreign ==> err_denied(
        r,
        not_owner_msg(path),
    )
    &&& r is Ok <==> allowed && !ttl_too_long && !path_rejected(path) && !foreign
    &&& r is Err ==> s1.entries@ == s0.entries@
    &&& r is Ok ==> put_effect(s0, s1, path, payload, metadata, owner, ttl, expires_override, now)
        && (r matches Ok(d) && data_of(
            d,
            s1.at(path).unwrap(),
            match s0.at(path) {
                Some(o) => Some(o.version),
                None => None,
            },
        ))
}


/// The outcome of a read of `path` (at `version` when given) by `owner`.
pub open spec fn get_outcome(
    s: SecretStore,
    r: Result<SecretData, SecretError>,
    path: Seq<char>,
    owner: u128,
    version: Option<u32>,
    allowed: bool,
) -> bool {
    if !allowed {
        err_denied(r, denied_msg("read"@, path))
    } else {
        match s.at(path) {
            None => err_not_found(r, path),
            Some(cur) => if cur.owner_id != owner {
                err_denied(r, not_owner_msg(path))
            } else {
                match version {
                    Some(v) => if v == cur.version {
                        r matches Ok(d) && data_of(d, cur, None)
                    } else {
                        match s.at(history_path(path, v)) {
                            None => err_not_found(r, missing_version_path(path, v)),
                            Some(h) => r matches Ok(d) && data_of(d, h, None),
                        }
                    },
                    None => r matches Ok(d) && data_of(d, cur, None),
                }
            },
        }
    }
}

/// The store after deleting `path` (and, when asked, the archived versions
/// of it owned by `owner`).
pub open spec fn delete_effect(
    s0: SecretStore,
    s1: SecretStore,
    path: Seq<char>,
    owner: u128,
    delete_history: bool,
) -> bool {
    &&& s1.at(path) is None
    &&& forall|q: Seq<char>|
        q != path ==> #[trigger] s1.at(q) == if delete_history && seq_starts_with(
            q,
            history_prefix(path),
        ) && (s0.at(q) matches Some(e) && e.owner_id == owner) {
            None
        } else {
            s0.at(q)
        }
}

/// Message of a rollback to the current version.
pub open spec fn noop_rollback_msg(v: u32) -> Seq<char> {
    "Version "@ + decimal(v as nat) + " is already the current version \u{2014} rollback is a no-op"@
}

/// Message of a rollback to an expired version.
pub open spec fn expired_rollback_msg(v: u32, expires_at: i64) -> Seq<char> {
    "Cannot rollback to version "@ + decimal(v as nat) + ": its expires_at ("@ + signed_decimal(
        expires_at as int,
    )
        + ") is in the past, which would make the rolled-back secret immediately eligible for lifecycle cleanup. Update the secret with a fresh TTL after rollback, or rollback to a different version."@
}

impl SecretStore {
    /// Reads a secret, at a given version when asked.
    ///
    /// Refused when the policy denies "read", when there is no current
    /// version (history is never served for a deleted secret), or when
    /// another user owns the current version.  A version other than the
    /// current one is served from the archive.
    pub fn get_secret(&self, path: &str, user_id: &str, version: Option<u32>, allowed: bool) -> (r:
        Result<SecretData, SecretError>)
        requires
            self.wf(),
        ensures
            get_outcome(*self, r, path@, owner_uuid(user_id@), version, allowed),
    {
        let p = chars_of(path);
        if !allowed {
            return Err(denied("read", p.as_slice()));
        }
        let owner = get_user_uuid(user_id);
        let i = match self.find(p.as_slice()) {
            None => {
                return Err(not_found(p.as_slice()));
            },
            Some(i) => i,
        };
        if self.entries[i].owner_id != owner {
            return Err(not_owner(p.as_slice()));
        }
        match version {
            Some(v) => {
                if v == self.entries[i].version {
                    Ok(self.entries[i].to_data(None))
                } else {
                    let hp = make_history_path(p.as_slice(), v);
                    match self.find(hp.as_slice()) {
                        None => {
                            let mut m = p.clone();
                            assert(m@ == p@);
                            push_str(&mut m, " (version ");
                            let d = decimal_chars(v as u64);
                            push_all(&mut m, d.as_slice());
                            push_str(&mut m, ")");
                            Err(not_found(m.as_slice()))
                        },
                        Some(j) => Ok(self.entries[j].to_data(None)),
                    }
                }
            },
            None => Ok(self.entries[i].to_data(None)),
        }
    }

    /// Reads a secret through the cache of decrypted payloads, given what the
    /// cache holds for the path (`cached`).  Only a read of the current
    /// version uses the cache: a cached payload serves the read only when
    /// its version is the stored one and its data is a JSON map of strings;
    /// a stale, malformed, unparsable or missing payload is replaced by the
    /// stored version's payload.  Errors and reads of a
    /// given version leave the cache as it is.  Version, times, metadata and
    /// path always come from storage.
    pub fn get_secret_cached(
        &self,
        path: &str,
        user_id: &str,
        version: Option<u32>,
        allowed: bool,
        cached: Option<&[u8]>,
    ) -> (r: (Result<SecretData, SecretError>, CacheUpdate))
        requires
            self.wf(),
        ensures
            (version is Some || r.0 is Err) ==> get_outcome(
                *self,
                r.0,
                path@,
                owner_uuid(user_id@),
                version,
                allowed,
            ) && r.1 is Keep,
            version is None ==> (r.0 is Ok <==> (allowed && match self.at(path@) {
                Some(cur) => cur.owner_id == owner_uuid(user_id@),
                None => false,
            })),
            version is None && r.0 is Ok ==> (self.at(path@) matches Some(cur) && r.0 matches Ok(
                d,
            ) && cached_read(d, cur, unref_bytes(cached), r.1)),
    {
        let r = self.get_secret(path, user_id, version, allowed);
        if version.is_some() {
            return (r, CacheUpdate::Keep);
        }
        match r {
            Err(e) => (Err(e), CacheUpdate::Keep),
            Ok(d) => {
                let hit = match cached {
                    Some(c) => match read_cached(c, d.version) {
                        CacheRead::Hit(bytes) => if parses_as_string_map(bytes.as_slice()) {
                            Some(bytes)
                        } else {
                            None
                        },
                        _ => None,
                    },
                    None => None,
                };
                match hit {
                    Some(bytes) => {
                        let d2 = SecretData { payload: bytes, ..d };
                        (Ok(d2), CacheUpdate::Keep)
                    },
                    None => {
                        let p = cache_payload(d.version, d.payload.as_slice());
                        (Ok(d), CacheUpdate::Put(p))
                    },
                }
            },
        }
    }

    /// Whether a secret exists for its owner, without reading it.
    pub fn exists_secret(&self, path: &str, user_id: &str, action: &str, allowed: bool) -> (r:
        Result<bool, SecretError>)
        requires
            self.wf(),
        ensures
            !allowed ==> err_denied(r, denied_msg(action@, path@)),
            allowed ==> match self.at(path@) {
                None => r == Ok::<bool, SecretError>(false),
                Some(e) => if e.owner_id != owner_uuid(user_id@) {
                    err_denied(r, not_owner_msg(path@))
                } else {
                    r == Ok::<bool, SecretError>(true)
                },
            },
    {
        let p = chars_of(path);
        if !allowed {
            return Err(denied(action, p.as_slice()));
        }
        let owner = get_user_uuid(user_id);
        match self.find(p.as_slice()) {
            None => Ok(false),
            Some(i) => if self.entries[i].owner_id != owner {
                Err(not_owner(p.as_slice()))
            } else {
                Ok(true)
            },
        }
    }

    /// Removes the entry at index `i`.
    fn remove_at(&mut self, i: usize)
        requires
            old(self).wf(),
            i < old(self).entries@.len(),
        ensures
            final(self).wf(),
            final(self).entries@ == old(self).entries@.remove(i as int),
            final(self).at(old(self).entries@[i as int].path@) is None,
            forall|q: Seq<char>|
                q != old(self).entries@[i as int].path@ ==> #[trigger] final(self).at(q) == old(
                    self,
                ).at(q),
    {
        let ghost before = self.entries@;
        let ghost gone = before[i as int].path@;
        self.entries.remove(i);
        proof {
            let s = self.entries@;
            assert forall|a: int, b: int| 0 <= a < b < s.len() implies (#[trigger] s[a]).path@
                != (#[trigger] s[b]).path@ by {
                let a0 = if a < i { a } else { a + 1 };
                let b0 = if b < i { b } else { b + 1 };
                assert(s[a] == before[a0] && s[b] == before[b0]);
            }
            if has_path(s, gone) {
                let k = choose|k: int| 0 <= k < s.len() && (#[trigger] s[k]).path@ == gone;
                let k0 = if k < i { k } else { k + 1 };
                assert(s[k] == before[k0]);
            }
            assert forall|q: Seq<char>| q != gone implies #[trigger] entry_at(s, q) == entry_at(
                before,
                q,
            ) by {
                if has_path(before, q) {
                    let k = choose|k: int| 0 <= k < before.len() && (#[trigger] before[k]).path@ == q;
                    assert(k != i);
                    let k1 = if k < i { k } else { k - 1 };
                    assert(s[k1] == before[k]);
                    lemma_entry_at_index(before, k);
                    lemma_entry_at_index(s, k1);
                } else if has_path(s, q) {
                    let k = choose|k: int| 0 <= k < s.len() && (#[trigger] s[k]).path@ == q;
                    let k0 = if k < i { k } else { k + 1 };
                    assert(s[k] == before[k0]);
                }
            }
        }
    }

    /// Removes every archived version of `prefix`'s secret owned by `owner`.
    fn remove_history(&mut self, prefix: &[char], owner: u128)
        requires
            old(self).wf(),
        ensures
            final(self).wf(),
            forall|q: Seq<char>|
                #[trigger] final(self).at(q) == if seq_starts_with(q, prefix@) && (old(self).at(
                    q,
                ) matches Some(e) && e.owner_id == owner) {
                    None
                } else {
                    old(self).at(q)
                },
    {
        let ghost s0 = *self;
        let mut i: usize = 0;
        while i < self.entries.len()
            invariant
                self.wf(),
                i <= self.entries@.len(),
                forall|k: int|
                    0 <= k < i ==> !(seq_starts_with((#[trigger] self.entries@[k]).path@, prefix@)
                        && self.entries@[k].owner_id == owner),
                forall|q: Seq<char>|
                    #[trigger] self.at(q) == if seq_starts_with(q, prefix@) && (s0.at(q) matches Some(
                        e,
                    ) && e.owner_id == owner) && !exists_pending(self.entries@, i as int, q) {
                        None
                    } else {
                        s0.at(q)
                    },
            decreases self.entries@.len() - i,
        {
            let cp = chars_of_string(&self.entries[i].path);
            let hit = starts_with(cp.as_slice(), prefix) && self.entries[i].owner_id == owner;
            if hit {
                let ghost before = *self;
                proof {
                    lemma_entry_at_index(self.entries@, i as int);
                }
                self.remove_at(i);
                proof {
                    assert forall|k: int| 0 <= k < i implies !(seq_starts_with(
                        (#[trigger] self.entries@[k]).path@,
                        prefix@,
                    ) && self.entries@[k].owner_id == owner) by {
                        assert(self.entries@[k] == before.entries@[k]);
                    }
                    assert forall|q: Seq<char>| #[trigger] self.at(q) == if seq_starts_with(q, prefix@)
                        && (s0.at(q) matches Some(e) && e.owner_id == owner) && !exists_pending(
                        self.entries@,
                        i as int,
                        q,
                    ) {
                        None
                    } else {
                        s0.at(q)
                    } by {
                        lemma_pending_after_remove(before.entries@, i as int, q);
                    }
                }
            } else {
                proof {
                    assert forall|q: Seq<char>| #[trigger] self.at(q) == if seq_starts_with(q, prefix@)
                        && (s0.at(q) matches Some(e) && e.owner_id == owner) && !exists_pending(
                        self.entries@,
                        (i + 1) as int,
                        q,
                    ) {
                        None
                    } else {
                        s0.at(q)
                    } by {
                        lemma_pending_skip(self.entries@, i as int, q);
                    }
                }
                i = i + 1;
            }
        }
        proof {
            assert forall|q: Seq<char>| !exists_pending(self.entries@, i as int, q) by {}
        }
    }
}

/// An entry at `q` lies at or after index `i`.
pub open spec fn exists_pending(s: Seq<StoredSecret>, i: int, q: Seq<char>) -> bool {
    exists|k: int| i <= k < s.len() && (#[trigger] s[k]).path@ == q
}

proof fn lemma_pending_skip(s: Seq<StoredSecret>, i: int, q: Seq<char>)
    requires
        unique_paths(s),
        0 <= i < s.len(),
    ensures
        exists_pending(s, i, q) <==> exists_pending(s, i + 1, q) || s[i].path@ == q,
{
    if exists_pending(s, i, q) && s[i].path@ != q {
        let k = choose|k: int| i <= k < s.len() && (#[trigger] s[k]).path@ == q;
        assert(k != i);
    }
}

proof fn lemma_pending_after_remove(s: Seq<StoredSecret>, i: int, q: Seq<char>)
    requires
        unique_paths(s),
        0 <= i < s.len(),
    ensures
        exists_pending(s.remove(i), i, q) <==> exists_pending(s, i + 1, q),
{
    let r = s.remove(i);
    if exists_pending(r, i, q) {
        let k = choose|k: int| i <= k < r.len() && (#[trigger] r[k]).path@ == q;
        assert(r[k] == s[k + 1]);
    }
    if exists_pending(s, i + 1, q) {
        let k = choose|k: int| i + 1 <= k < s.len() && (#[trigger] s[k]).path@ == q;
        assert(r[k - 1] == s[k]);
    }
}


impl SecretStore {
    /// Deletes a secret together with its archived versions.
    pub fn delete_secret(&mut self, path: &str, user_id: &str, allowed: bool) -> (r: Result<
        (),
        SecretError,
    >)
        requires
            old(self).wf(),
        ensures
            final(self).wf(),
            delete_outcome(*old(self), *final(self), r, path@, owner_uuid(user_id@), true, true, allowed),
    {
        self.delete_secret_internal(path, user_id, true, true, allowed)
    }

    /// Deletes a secret, optionally keeping its archive and optionally
    /// skipping the policy check (internal callers).
    ///
    /// Refused when the policy is checked and denies "delete", when there is
    /// no current version, or when another user owns it.
    pub fn delete_secret_internal(
        &mut self,
        path: &str,
        user_id: &str,
        delete_history: bool,
        check_perms: bool,
        allowed: bool,
    ) -> (r: Result<(), SecretError>)
        requires
            old(self).wf(),
        ensures
            final(self).wf(),
            delete_outcome(
                *old(self),
                *final(self),
                r,
                path@,
                owner_uuid(user_id@),
                delete_history,
                check_perms,
                allowed,
            ),
    {
        let p = chars_of(path);
        if check_perms && !allowed {
            return Err(denied("delete", p.as_slice()));
        }
        let owner = get_user_uuid(user_id);
        let i = match self.find(p.as_slice()) {
            None => {
                return Err(not_found(p.as_slice()));
            },
            Some(i) => i,
        };
        if self.entries[i].owner_id != owner {
            return Err(not_owner(p.as_slice()));
        }
        let ghost s0 = *self;
        self.remove_at(i);
        if delete_history {
            let ghost s1 = *self;
            let hp = make_history_prefix(p.as_slice());
            self.remove_history(hp.as_slice(), owner);
            proof {
                assert(!seq_starts_with(p@, history_prefix(p@))) by {
                    reveal_strlit("sys/history/");
                    assert(history_prefix(p@).len() > p@.len());
                }
            }
        }
        Ok(())
    }

    /// Rolls a secret back to an earlier version by writing that version's
    /// data, metadata and expiry as a new version.
    ///
    /// Refused when the policy denies "write"; when the current version
    /// cannot be read; when `version` is the current one; when that version
    /// cannot be read; when its expiry has passed.
    pub fn rollback_secret(
        &mut self,
        path: &str,
        version: u32,
        user_id: &str,
        write_allowed: bool,
        read_allowed: bool,
        now: i64,
    ) -> (r: Result<SecretData, SecretError>)
        requires
            old(self).wf(),
            0 <= now <= i64::MAX - MAX_TTL_SECONDS,
            old(self).at(path@) matches Some(o) ==> o.version < u32::MAX,
        ensures
            final(self).wf(),
            rollback_outcome(
                *old(self),
                *final(self),
                r,
                path@,
                version,
                owner_uuid(user_id@),
                write_allowed,
                read_allowed,
                now,
            ),
    {
        if !write_allowed {
            let p = chars_of(path);
            return Err(denied("write", p.as_slice()));
        }
        let current = match self.get_secret(path, user_id, None, read_allowed) {
            Ok(d) => d,
            Err(e) => {
                return Err(e);
            },
        };
        if current.version == version {
            let mut m = chars_of("Version ");
            let d = decimal_chars(version as u64);
            push_all(&mut m, d.as_slice());
            push_str(&mut m, " is already the current version \u{2014} rollback is a no-op");
            return Err(SecretError::InvalidOperation(string_from_chars(m.as_slice())));
        }
        let historical = match self.get_secret(path, user_id, Some(version), read_allowed) {
            Ok(d) => d,
            Err(e) => {
                return Err(e);
            },
        };
        match historical.expires_at {
            Some(t) => if t <= now {
                let mut m = chars_of("Cannot rollback to version ");
                let d = decimal_chars(version as u64);
                push_all(&mut m, d.as_slice());
                push_str(&mut m, ": its expires_at (");
                let td = signed_decimal_chars(t);
                push_all(&mut m, td.as_slice());
                push_str(
                    &mut m,
                    ") is in the past, which would make the rolled-back secret immediately eligible for lifecycle cleanup. Update the secret with a fresh TTL after rollback, or rollback to a different version.",
                );
                return Err(SecretError::InvalidOperation(string_from_chars(m.as_slice())));
            },
            None => {},
        }
        let SecretData { payload, metadata, expires_at, .. } = historical;
        self.put_secret_internal(
            path,
            payload,
            Some(metadata),
            user_id,
            None,
            Some(expires_at),
            write_allowed,
            now,
        )
    }
}

/// The outcome of a delete.
pub open spec fn delete_outcome(
    s0: SecretStore,
    s1: SecretStore,
    r: Result<(), SecretError>,
    path: Seq<char>,
    owner: u128,
    delete_history: bool,
    check_perms: bool,
    allowed: bool,
) -> bool {
    if check_perms && !allowed {
        err_denied(r, denied_msg("delete"@, path)) && s1.entries@ == s0.entries@
    } else {
        match s0.at(path) {
            None => err_not_found(r, path) && s1.entries@ == s0.entries@,
            Some(e) => if e.owner_id != owner {
                err_denied(r, not_owner_msg(path)) && s1.entries@ == s0.entries@
            } else {
                r is Ok && delete_effect(s0, s1, path, owner, delete_history)
            },
        }
    }
}

/// The outcome of a rollback.
pub open spec fn rollback_outcome(
    s0: SecretStore,
    s1: SecretStore,
    r: Result<SecretData, SecretError>,
    path: Seq<char>,
    version: u32,
    owner: u128,
    write_allowed: bool,
    read_allowed: bool,
    now: i64,
) -> bool {
    if !write_allowed {
        err_denied(r, denied_msg("write"@, path)) && s1.entries@ == s0.entries@
    } else if !read_allowed {
        err_denied(r, denied_msg("read"@, path)) && s1.entries@ == s0.entries@
    } else {
        match s0.at(path) {
            None => err_not_found(r, path) && s1.entries@ == s0.entries@,
            Some(cur) => if cur.owner_id != owner {
                err_denied(r, not_owner_msg(path)) && s1.entries@ == s0.entries@
            } else if cur.version == version {
                err_invalid(r, noop_rollback_msg(version)) && s1.entries@ == s0.entries@
            } else {
                match s0.at(history_path(path, version)) {
                    None => err_not_found(r, missing_version_path(path, version)) && s1.entries@
                        == s0.entries@,
                    Some(h) => match h.expires_at {
                        Some(t) => if t <= now {
                            err_invalid(r, expired_rollback_msg(version, t)) && s1.entries@
                                == s0.entries@
                        } else {
                            rollback_applied(s0, s1, r, path, h, owner, now)
                        },
                        None => rollback_applied(s0, s1, r, path, h, owner, now),
                    },
                }
            },
        }
    }
}

/// A rollback to archived entry `h` succeeded.
pub open spec fn rollback_applied(
    s0: SecretStore,
    s1: SecretStore,
    r: Result<SecretData, SecretError>,
    path: Seq<char>,
    h: StoredSecret,
    owner: u128,
    now: i64,
) -> bool {
    put_outcome(
        s0,
        s1,
        r,
        path,
        h.payload@,
        Some(h.metadata),
        owner,
        None,
        Some(h.expires_at),
        true,
        now,
    )
}


/// Version information of an entry.
pub open spec fn info_of(e: StoredSecret) -> SecretVersionInfo {
    SecretVersionInfo { version: e.version, created_at: e.created_at }
}

/// The version information of the entries under `prefix` owned by `owner`,
/// in store order.
pub open spec fn infos_under(s: Seq<StoredSecret>, prefix: Seq<char>, owner: u128) -> Seq<
    SecretVersionInfo,
>
    decreases s.len(),
{
    if s.len() == 0 {
        Seq::empty()
    } else {
        let rest = infos_under(s.drop_last(), prefix, owner);
        if seq_starts_with(s.last().path@, prefix) && s.last().owner_id == owner {
            rest.push(info_of(s.last()))
        } else {
            rest
        }
    }
}

/// Versions in descending order.
pub open spec fn sorted_desc(v: Seq<SecretVersionInfo>) -> bool {
    forall|i: int, j: int| 0 <= i < j < v.len() ==> v[i].version >= v[j].version
}

/// Sorts version information by descending version, keeping the order of
/// equal versions.
pub fn sort_versions_desc(v: &Vec<SecretVersionInfo>) -> (r: Vec<SecretVersionInfo>)
    ensures
        sorted_desc(r@),
        r@.to_multiset() == v@.to_multiset(),
{
    broadcast use vstd::seq_lib::group_to_multiset_ensures;
    let mut r: Vec<SecretVersionInfo> = Vec::new();
    let n = v.len();
    for i in 0..n
        invariant
            n == v@.len(),
            sorted_desc(r@),
            r@.to_multiset() == v@.take(i as int).to_multiset(),
    {
        let x = v[i];
        let mut k: usize = 0;
        while k < r.len() && r[k].version >= x.version
            invariant
                k <= r@.len(),
                forall|j: int| 0 <= j < k ==> r@[j].version >= x.version,
            decreases r@.len() - k,
        {
            k = k + 1;
        }
        let ghost before = r@;
        r.insert(k, x);
        proof {
            assert(r@ == before.insert(k as int, x));
            vstd::seq_lib::to_multiset_insert(before, k as int, x);
            assert(v@.take(i + 1) == v@.take(i as int).push(x));
            vstd::seq_lib::to_multiset_build(v@.take(i as int), x);
            assert forall|a: int, b: int| 0 <= a < b < r@.len() implies r@[a].version
                >= r@[b].version by {
                if a < k && b == k {
                } else if a < k && b > k {
                    assert(r@[b] == before[b - 1]);
                    if k < before.len() {
                        assert(before[a].version >= before[b - 1].version);
                    }
                } else if a == k {
                    assert(r@[b] == before[b - 1]);
                    if k < before.len() {
                        assert(before[k as int].version < x.version);
                        assert(before[k as int].version >= before[b - 1].version || b - 1 == k);
                    }
                } else if b < k {
                    assert(r@[a] == before[a] && r@[b] == before[b]);
                } else {
                    assert(r@[a] == before[a - 1] && r@[b] == before[b - 1]);
                }
            }
        }
    }
    assert(v@.take(n as int) == v@);
    r
}

impl SecretStore {
    /// Collects the version information under `prefix` owned by `owner`.
    fn collect_infos(&self, prefix: &[char], owner: u128) -> (r: Vec<SecretVersionInfo>)
        ensures
            r@ == infos_under(self.entries@, prefix@, owner),
    {
        let mut r: Vec<SecretVersionInfo> = Vec::new();
        let n = self.entries.len();
        for i in 0..n
            invariant
                n == self.entries@.len(),
                r@ == infos_under(self.entries@.take(i as int), prefix@, owner),
        {
            let cp = chars_of_string(&self.entries[i].path);
            proof {
                assert(self.entries@.take(i + 1).drop_last() == self.entries@.take(i as int));
                assert(self.entries@.take(i + 1).last() == self.entries@[i as int]);
            }
            if starts_with(cp.as_slice(), prefix) && self.entries[i].owner_id == owner {
                r.push(
                    SecretVersionInfo {
                        version: self.entries[i].version,
                        created_at: self.entries[i].created_at,
                    },
                );
            }
        }
        assert(self.entries@.take(n as int) == self.entries@);
        r
    }

    /// Lists the versions of a secret, newest first: the current version
    /// and the archived versions the user owns.
    ///
    /// Refused when the policy denies "list_versions", when there is no
    /// current version, or when another user owns it.
    pub fn list_secret_versions(&self, path: &str, user_id: &str, allowed: bool) -> (r: Result<
        Vec<SecretVersionInfo>,
        SecretError,
    >)
        requires
            self.wf(),
        ensures
            !allowed ==> err_denied(r, denied_msg("list_versions"@, path@)),
            allowed ==> match self.at(path@) {
                None => err_not_found(r, path@),
                Some(cur) => if cur.owner_id != owner_uuid(user_id@) {
                    err_denied(r, not_owner_msg(path@))
                } else {
                    r matches Ok(v) && sorted_desc(v@) && v@.to_multiset() == (seq![info_of(cur)]
                        + infos_under(
                        self.entries@,
                        history_prefix(path@),
                        cur.owner_id,
                    )).to_multiset()
                },
            },
    {
        let p = chars_of(path);
        if !allowed {
            return Err(denied("list_versions", p.as_slice()));
        }
        let owner = get_user_uuid(user_id);
        let i = match self.find(p.as_slice()) {
            None => {
                return Err(not_found(p.as_slice()));
            },
            Some(i) => i,
        };
        if self.entries[i].owner_id != owner {
            return Err(not_owner(p.as_slice()));
        }
        let mut all: Vec<SecretVersionInfo> = Vec::new();
        all.push(
            SecretVersionInfo {
                version: self.entries[i].version,
                created_at: self.entries[i].created_at,
            },
        );
        let hp = make_history_prefix(p.as_slice());
        let rest = self.collect_infos(hp.as_slice(), owner);
        let ghost first = all@;
        let mut j: usize = 0;
        while j < rest.len()
            invariant
                j <= rest@.len(),
                all@ == first + rest@.take(j as int),
            decreases rest@.len() - j,
        {
            all.push(rest[j]);
            assert(rest@.take(j + 1) == rest@.take(j as int).push(rest@[j as int]));
            j = j + 1;
        }
        assert(rest@.take(rest@.len() as int) == rest@);
        Ok(sort_versions_desc(&all))
    }

    /// The secrets a user may list: the entries the user owns, under the
    /// prefix when one is given, outside the archive namespace, and for
    /// which the policy verdict (`readable`, one per entry in store order)
    /// allows reading.
    pub fn list_secrets(&self, prefix: Option<&str>, user_id: &str, readable: &Vec<bool>) -> (r: Vec<
        SecretData,
    >)
        requires
            readable@.len() == self.entries@.len(),
        ensures
            r@.len() <= self.entries@.len(),
            forall|k: int|
                0 <= k < r@.len() ==> listed_from(
                    #[trigger] r@[k],
                    self.entries@,
                    readable@,
                    prefix,
                    owner_uuid(user_id@),
                ),
            forall|i: int|
                0 <= i < self.entries@.len() && listable(
                    #[trigger] self.entries@[i],
                    prefix,
                    owner_uuid(user_id@),
                ) && readable@[i] ==> exists|k: int|
                    0 <= k < r@.len() && data_of(r@[k], self.entries@[i], None),
            r@.len() == listed_indices(
                self.entries@,
                readable@,
                prefix,
                owner_uuid(user_id@),
                self.entries@.len() as int,
            ).len(),
            forall|k: int|
                0 <= k < r@.len() ==> data_of(
                    #[trigger] r@[k],
                    self.entries@[listed_indices(
                        self.entries@,
                        readable@,
                        prefix,
                        owner_uuid(user_id@),
                        self.entries@.len() as int,
                    )[k]],
                    None,
                ),
    {
        let owner = get_user_uuid(user_id);
        let hp = chars_of(HISTORY_PREFIX);
        let pre = match prefix {
            Some(s) => Some(chars_of(s)),
            None => None,
        };
        let mut r: Vec<SecretData> = Vec::new();
        let ghost mut src: Seq<int> = Seq::empty();
        let n = self.entries.len();
        for i in 0..n
            invariant
                n == self.entries@.len(),
                readable@.len() == n,
                hp@ == HISTORY_PREFIX@,
                owner == owner_uuid(user_id@),
                pre matches Some(v) ==> prefix matches Some(s) && v@ == s@,
                pre is None <==> prefix is None,
                src.len() == r@.len(),
                src == listed_indices(self.entries@, readable@, prefix, owner, i as int),
                r@.len() <= i,
                forall|k: int|
                    0 <= k < r@.len() ==> 0 <= #[trigger] src[k] < i && listable(
                        self.entries@[src[k]],
                        prefix,
                        owner,
                    ) && readable@[src[k]] && data_of(r@[k], self.entries@[src[k]], None),
                forall|j: int|
                    0 <= j < i && listable(#[trigger] self.entries@[j], prefix, owner)
                        && readable@[j] ==> exists|k: int| 0 <= k < src.len() && src[k] == j,
        {
            let cp = chars_of_string(&self.entries[i].path);
            let under = match &pre {
                Some(v) => starts_with(cp.as_slice(), v.as_slice()),
                None => true,
            };
            let archived = starts_with(cp.as_slice(), hp.as_slice());
            if self.entries[i].owner_id == owner && under && !archived && readable[i] {
                let d = self.entries[i].to_data(None);
                let ghost before = r@;
                let ghost src0 = src;
                r.push(d);
                proof {
                    src = src.push(i as int);
                    assert forall|k: int| 0 <= k < r@.len() implies 0 <= #[trigger] src[k] < i + 1
                        && listable(self.entries@[src[k]], prefix, owner) && readable@[src[k]]
                        && data_of(r@[k], self.entries@[src[k]], None) by {
                        if k < before.len() {
                            assert(r@[k] == before[k]);
                            assert(src[k] == src0[k]);
                        }
                    }
                    assert forall|j: int|
                        0 <= j < i + 1 && listable(#[trigger] self.entries@[j], prefix, owner)
                            && readable@[j] implies exists|k: int| 0 <= k < src.len() && src[k] == j by {
                        if j < i {
                            let k = choose|k: int| 0 <= k < src0.len() && src0[k] == j;
                            assert(src[k] == src0[k]);
                        } else {
                            assert(src[src.len() - 1] == j);
                        }
                    }
                }
            }
        }
        proof {
            assert forall|k: int| 0 <= k < r@.len() implies listed_from(
                #[trigger] r@[k],
                self.entries@,
                readable@,
                prefix,
                owner_uuid(user_id@),
            ) by {
                let i = src[k];
                assert(0 <= i < self.entries@.len());
            }
            assert forall|i: int|
                0 <= i < self.entries@.len() && listable(
                    #[trigger] self.entries@[i],
                    prefix,
                    owner_uuid(user_id@),
                ) && readable@[i] implies exists|k: int|
                0 <= k < r@.len() && data_of(r@[k], self.entries@[i], None) by {
                let k = choose|k: int| 0 <= k < src.len() && src[k] == i;
                assert(data_of(r@[k], self.entries@[src[k]], None));
            }
        }
        r
    }
}

/// The store positions, in store order, among the first `n` entries, of
/// the entries listed for `owner` under `prefix` with `readable` as the
/// policy verdict per entry: each listable, readable entry exactly once.
pub open spec fn listed_indices(
    s: Seq<StoredSecret>,
    readable: Seq<bool>,
    prefix: Option<&str>,
    owner: u128,
    n: int,
) -> Seq<int>
    decreases n,
{
    if n <= 0 {
        Seq::empty()
    } else {
        let before = listed_indices(s, readable, prefix, owner, n - 1);
        if listable(s[n - 1], prefix, owner) && readable[n - 1] {
            before.push(n - 1)
        } else {
            before
        }
    }
}

/// The returned secret is the data of a listable, readable entry.
pub open spec fn listed_from(
    d: SecretData,
    s: Seq<StoredSecret>,
    readable: Seq<bool>,
    prefix: Option<&str>,
    owner: u128,
) -> bool {
    exists|i: int|
        0 <= i < s.len() && listable(s[i], prefix, owner) && readable[i] && data_of(d, s[i], None)
}

/// The entry may be listed for `owner` under `prefix`.
pub open spec fn listable(e: StoredSecret, prefix: Option<&str>, owner: u128) -> bool {
    e.owner_id == owner && (match prefix {
        Some(p) => seq_starts_with(e.path@, p@),
        None => true,
    }) && !seq_starts_with(e.path@, HISTORY_PREFIX@)
}

/// A structured access policy.
#[derive(Debug)]
pub struct Policy {
    pub name: String,
    pub rules: Vec<String>,
    /// Seconds since the Unix epoch.
    pub created_at: i64,
    pub updated_at: i64,
    pub metadata: PolicyMetadata,
}

/// Storage prefix of policies.
pub const POLICY_PREFIX: &'static str = "sys/policies/";

/// Storage prefix of raw-content policies, which are not listed with the
/// structured ones.
pub const RAW_POLICY_PREFIX: &'static str = "sys/policies/content/";

/// Storage path of a policy.
pub fn policy_path(name: &str) -> (p: String)
    ensures
        p@ == POLICY_PREFIX@ + name@,
{
    let v = concat_str(POLICY_PREFIX, name);
    string_from_chars(v.as_slice())
}

/// How an upsert writes a policy, given the stored entry's id, creation
/// time and version if there is one: the stored entry keeps its id and
/// creation time at the next version; a new one gets a fresh random id,
/// the current time and version 1.  Returns (id, created_at, version).
pub fn policy_upsert_plan(existing: Option<(u128, i64, u64)>, now: i64) -> (r: (u128, i64, u64))
    requires
        existing matches Some((_, _, v)) ==> v < u64::MAX,
    ensures
        match existing {
            Some((id, c, v)) => r == (id, c, (v + 1) as u64),
            None => r.1 == now && r.2 == 1,
        },
{
    match existing {
        Some((id, c, v)) => (id, c, v + 1),
        None => (crate::ids::random_uuid(), now, 1),
    }
}

/// A policy stored at `path` named `name` is listed: it is not a
/// raw-content policy and its name contains the filter, if any.
pub open spec fn policy_listed(path: Seq<char>, name: Seq<char>, filter: Option<Seq<char>>) -> bool {
    !seq_starts_with(path, RAW_POLICY_PREFIX@) && match filter {
        Some(f) => seq_contains(name, f),
        None => true,
    }
}

/// Whether a stored policy is listed.
pub fn is_policy_listed(path: &str, name: &str, filter: Option<&str>) -> (b: bool)
    ensures
        b == policy_listed(path@, name@, match filter {
            Some(f) => Some(f@),
            None => None,
        }),
{
    let p = chars_of(path);
    let raw = chars_of(RAW_POLICY_PREFIX);
    if crate::text::starts_with(p.as_slice(), raw.as_slice()) {
        return false;
    }
    match filter {
        Some(f) => {
            let n = chars_of(name);
            let fc = chars_of(f);
            crate::text::contains(n.as_slice(), fc.as_slice())
        },
        None => true,
    }
}

} // verus!
