//! Audit logging: how security events become audit records, how stored
//! records are filtered and ordered for queries, and how they are exported.
//!
//! Times are nanoseconds since the Unix epoch (UTC).

use vstd::prelude::*;
use crate::ids::{get_user_uuid, owner_uuid};
use crate::text::{
    bool_string, bool_text, chars_of, chars_of_string, decimal, decimal_chars_padded,
    decimal_padded, decimal_string, join_strings, joined, owned, push_all, push_str,
    string_from_chars, string_or_empty, text_or_empty, views, signed_decimal, signed_decimal_chars,
};

verus! {

/// Storage prefix of the audit log.
pub const AUDIT_PREFIX: &'static str = "sys/audit/";

/// Default cap on the number of stored entries a query scans.
pub const AUDIT_QUERY_DEFAULT_MAX_ENTRIES: u32 = 10000;

/// Cap on the number of stored entries an export scans.
pub const AUDIT_EXPORT_MAX_ENTRIES: u32 = 1000000;

/// A security-relevant event reported by the services.
pub enum SecurityEventType {
    SecretAccess { secret_path: String, user: String, action: String },
    SecretCreation { secret_path: String, user: String },
    SecretVersionChange { secret_path: String, old_version: u32, new_version: u32, user: String },
    SecretDeletion { secret_path: String, user: String },
    KeyGeneration { key_type: String, key_id: String, algorithm: String, user: String },
    KeyRotation { old_key_id: String, new_key_id: String, algorithm: String, user: String },
    EncryptionOperation { key_id: String, user: String, data_size: u64 },
    DecryptionOperation { key_id: String, user: String, data_size: u64 },
    SigningOperation { key_id: String, user: String, data_size: u64 },
    VerificationOperation { key_id: String, user: String, data_size: u64, valid: bool },
    PolicyChange { policy_name: String, user: String, action: String },
    ConfigChange { user: String, changed_keys: Vec<String> },
    SealOperation { operation: String, user: String, success: bool },
    AuthenticationSuccess { user: String, method: String },
    AuthenticationFailure { user: String, method: String, reason: String },
    SessionTerminated { user: String, session_id: String, reason: String },
    MfaSetup { user: String, method: String },
    MFASuccess { user: String, method: String },
    MFARemoval { user: String, method: String },
    KeyDeletion { key_id: String, user: String },
    LoginSuccess { user: String, method: String, ip_address: Option<String> },
    Logout {
        user: String,
        session_id: String,
        ip_address: Option<String>,
        user_agent: Option<String>,
    },
    SshCaGeneration { user: String },
    SshKeySign { user: String, principals: Vec<String>, ttl: u64 },
}

/// Category of an audit record.
#[derive(Debug)]
pub enum AuditEventKind {
    SecretRead,
    SecretWrite,
    SecretDelete,
    AuthLogin,
    AuthLogout,
    /// A category named by a dotted string such as "key.rotate".
    Custom(String),
}

/// Outcome recorded for an audited operation.
#[derive(Debug, Clone, Copy, PartialEq, Eq, Structural)]
pub enum AuditStatus {
    Success,
    Failure,
}

/// An audit record as the audit service keeps it.
#[derive(Debug)]
pub struct AuditEvent {
    pub id: String,
    /// Nanoseconds since the Unix epoch.
    pub timestamp: i64,
    pub event_type: AuditEventKind,
    pub status: AuditStatus,
    pub user: String,
    pub resource: String,
    pub operation: String,
    pub client_ip: Option<String>,
    /// Extra key/value details, keys distinct.
    pub metadata: Vec<(String, String)>,
}

/// The texts of key/value pairs.
pub open spec fn pairs_view(v: Seq<(String, String)>) -> Seq<(Seq<char>, Seq<char>)> {
    v.map_values(|p: (String, String)| (p.0@, p.1@))
}

/// The category is the custom one with this name.
pub open spec fn is_custom(k: AuditEventKind, name: Seq<char>) -> bool {
    k matches AuditEventKind::Custom(s) && s@ == name
}

/// The record's fields other than its category.
pub open spec fn has_fields(
    e: AuditEvent,
    success: bool,
    user: Seq<char>,
    resource: Seq<char>,
    operation: Seq<char>,
    metadata: Seq<(Seq<char>, Seq<char>)>,
) -> bool {
    &&& e.status == (if success {
        AuditStatus::Success
    } else {
        AuditStatus::Failure
    })
    &&& e.user@ == user
    &&& e.resource@ == resource
    &&& e.operation@ == operation
    &&& pairs_view(e.metadata@) == metadata
}

/// One key/value pair of texts.
pub open spec fn kv(k: &str, v: Seq<char>) -> (Seq<char>, Seq<char>) {
    (k@, v)
}

/// `e` is the audit record of security event `ev`.
pub open spec fn records_event(ev: SecurityEventType, e: AuditEvent) -> bool {
    match ev {
        SecurityEventType::SecretAccess { secret_path, user, action } => e.event_type
            == AuditEventKind::SecretRead && has_fields(
            e,
            true,
            user@,
            secret_path@,
            action@,
            seq![],
        ),
        SecurityEventType::SecretCreation { secret_path, user } => e.event_type
            == AuditEventKind::SecretWrite && has_fields(
            e,
            true,
            user@,
            secret_path@,
            "create"@,
            seq![],
        ),
        SecurityEventType::SecretVersionChange { secret_path, old_version, new_version, user } =>
            e.event_type == AuditEventKind::SecretWrite && has_fields(
            e,
            true,
            user@,
            secret_path@,
            "update_version"@,
            seq![
                kv("old_version", decimal(old_version as nat)),
                kv("new_version", decimal(new_version as nat)),
            ],
        ),
        SecurityEventType::SecretDeletion { secret_path, user } => e.event_type
            == AuditEventKind::SecretDelete && has_fields(
            e,
            true,
            user@,
            secret_path@,
            "delete"@,
            seq![],
        ),
        SecurityEventType::KeyGeneration { key_type, key_id, algorithm, user } => is_custom(
            e.event_type,
            "key.generate"@,
        ) && has_fields(
            e,
            true,
            user@,
            key_id@,
            "generate"@,
            seq![kv("key_type", key_type@), kv("algorithm", algorithm@)],
        ),
        SecurityEventType::KeyRotation { old_key_id, new_key_id, algorithm, user } => is_custom(
            e.event_type,
            "key.rotate"@,
        ) && has_fields(
            e,
            true,
            user@,
            new_key_id@,
            "rotate"@,
            seq![kv("old_key_id", old_key_id@), kv("algorithm", algorithm@)],
        ),
        SecurityEventType::EncryptionOperation { key_id, user, data_size } => is_custom(
            e.event_type,
            "crypto.encrypt"@,
        ) && has_fields(
            e,
            true,
            user@,
            key_id@,
            "encrypt"@,
            seq![kv("data_size", decimal(data_size as nat))],
        ),
        SecurityEventType::DecryptionOperation { key_id, user, data_size } => is_custom(
            e.event_type,
            "crypto.decrypt"@,
        ) && has_fields(
            e,
            true,
            user@,
            key_id@,
            "decrypt"@,
            seq![kv("data_size", decimal(data_size as nat))],
        ),
        SecurityEventType::SigningOperation { key_id, user, data_size } => is_custom(
            e.event_type,
            "crypto.sign"@,
        ) && has_fields(
            e,
            true,
            user@,
            key_id@,
            "sign"@,
            seq![kv("data_size", decimal(data_size as nat))],
        ),
        SecurityEventType::VerificationOperation { key_id, user, data_size, valid } => is_custom(
            e.event_type,
            "crypto.verify"@,
        ) && has_fields(
            e,
            valid,
            user@,
            key_id@,
            "verify"@,
            seq![kv("data_size", decimal(data_size as nat)), kv("valid", bool_text(valid))],
        ),
        SecurityEventType::PolicyChange { policy_name, user, action } => is_custom(
            e.event_type,
            "policy.change"@,
        ) && has_fields(e, true, user@, policy_name@, action@, seq![]),
        SecurityEventType::ConfigChange { user, changed_keys } => is_custom(
            e.event_type,
            "config.change"@,
        ) && has_fields(
            e,
            true,
            user@,
            "config"@,
            "change"@,
            seq![kv("changed_keys", joined(views(changed_keys@), ","@))],
        ),
        SecurityEventType::SealOperation { operation, user, success } => is_custom(
            e.event_type,
            "seal.operation"@,
        ) && has_fields(
            e,
            success,
            user@,
            "seal"@,
            operation@,
            seq![kv("success", bool_text(success))],
        ),
        SecurityEventType::AuthenticationSuccess { user, method } => e.event_type
            == AuditEventKind::AuthLogin && has_fields(
            e,
            true,
            user@,
            "auth"@,
            "login"@,
            seq![kv("method", method@)],
        ),
        SecurityEventType::AuthenticationFailure { user, method, reason } => e.event_type
            == AuditEventKind::AuthLogin && has_fields(
            e,
            false,
            user@,
            "auth"@,
            "login"@,
            seq![kv("method", method@), kv("reason", reason@)],
        ),
        SecurityEventType::SessionTerminated { user, session_id, reason } => e.event_type
            == AuditEventKind::AuthLogout && has_fields(
            e,
            true,
            user@,
            "session"@,
            "terminate"@,
            seq![kv("session_id", session_id@), kv("reason", reason@)],
        ),
        SecurityEventType::MfaSetup { user, method } => is_custom(e.event_type, "mfa.setup"@)
            && has_fields(e, true, user@, "mfa"@, "setup"@, seq![kv("method", method@)]),
        SecurityEventType::MFASuccess { user, method } => is_custom(e.event_type, "mfa.verify"@)
            && has_fields(e, true, user@, "mfa"@, "verify"@, seq![kv("method", method@)]),
        SecurityEventType::MFARemoval { user, method } => is_custom(e.event_type, "mfa.remove"@)
            && has_fields(e, true, user@, "mfa"@, "remove"@, seq![kv("method", method@)]),
        SecurityEventType::KeyDeletion { key_id, user } => is_custom(e.event_type, "key.delete"@)
            && has_fields(e, true, user@, key_id@, "delete"@, seq![]),
        SecurityEventType::LoginSuccess { user, method, ip_address } => e.event_type
            == AuditEventKind::AuthLogin && has_fields(
            e,
            true,
            user@,
            "auth"@,
            "login"@,
            seq![kv("method", method@), kv("ip_address", text_or_empty(ip_address))],
        ),
        SecurityEventType::Logout { user, session_id, ip_address, user_agent } => e.event_type
            == AuditEventKind::AuthLogout && has_fields(
            e,
            true,
            user@,
            "session"@,
            "logout"@,
            seq![
                kv("session_id", session_id@),
                kv("ip_address", text_or_empty(ip_address)),
                kv("user_agent", text_or_empty(user_agent)),
            ],
        ),
        SecurityEventType::SshCaGeneration { user } => is_custom(e.event_type, "ssh.ca.generate"@)
            && has_fields(e, true, user@, "ssh/ca"@, "generate"@, seq![]),
        SecurityEventType::SshKeySign { user, principals, ttl } => is_custom(
            e.event_type,
            "ssh.key.sign"@,
        ) && has_fields(
            e,
            true,
            user@,
            "ssh/sign"@,
            "sign"@,
            seq![
                kv("principals", joined(views(principals@), ","@)),
                kv("ttl", decimal(ttl as nat)),
            ],
        ),
    }
}

fn pair(k: &str, v: String) -> (p: (String, String))
    ensures
        p.0@ == k@,
        p.1@ == v@,
{
    (owned(k), v)
}

fn no_pairs() -> (v: Vec<(String, String)>)
    ensures
        pairs_view(v@) == Seq::<(Seq<char>, Seq<char>)>::empty(),
{
    let v: Vec<(String, String)> = Vec::new();
    assert(pairs_view(v@) =~= Seq::<(Seq<char>, Seq<char>)>::empty());
    v
}

fn one_pair(k: &str, v: String) -> (r: Vec<(String, String)>)
    ensures
        pairs_view(r@) == seq![kv(k, v@)],
{
    let mut r: Vec<(String, String)> = Vec::new();
    r.push(pair(k, v));
    assert(pairs_view(r@) =~= seq![kv(k, v@)]);
    r
}

fn two_pairs(k1: &str, v1: String, k2: &str, v2: String) -> (r: Vec<(String, String)>)
    ensures
        pairs_view(r@) == seq![kv(k1, v1@), kv(k2, v2@)],
{
    let mut r: Vec<(String, String)> = Vec::new();
    r.push(pair(k1, v1));
    r.push(pair(k2, v2));
    assert(pairs_view(r@) =~= seq![kv(k1, v1@), kv(k2, v2@)]);
    r
}

fn three_pairs(k1: &str, v1: String, k2: &str, v2: String, k3: &str, v3: String) -> (r: Vec<
    (String, String),
>)
    ensures
        pairs_view(r@) == seq![kv(k1, v1@), kv(k2, v2@), kv(k3, v3@)],
{
    let mut r: Vec<(String, String)> = Vec::new();
    r.push(pair(k1, v1));
    r.push(pair(k2, v2));
    r.push(pair(k3, v3));
    assert(pairs_view(r@) =~= seq![kv(k1, v1@), kv(k2, v2@), kv(k3, v3@)]);
    r
}

fn custom(name: &str) -> (k: AuditEventKind)
    ensures
        is_custom(k, name@),
{
    AuditEventKind::Custom(owned(name))
}

fn status_of(success: bool) -> (s: AuditStatus)
    ensures
        s == (if success {
            AuditStatus::Success
        } else {
            AuditStatus::Failure
        }),
{
    if success {
        AuditStatus::Success
    } else {
        AuditStatus::Failure
    }
}

fn record(
    event_type: AuditEventKind,
    success: bool,
    user: String,
    resource: String,
    operation: String,
    metadata: Vec<(String, String)>,
    id: String,
    timestamp: i64,
) -> (e: AuditEvent)
    ensures
        e.event_type == event_type,
        has_fields(e, success, user@, resource@, operation@, pairs_view(metadata@)),
        e.id@ == id@,
        e.timestamp == timestamp,
        e.client_ip is None,
{
    AuditEvent {
        id,
        timestamp,
        event_type,
        status: status_of(success),
        user,
        resource,
        operation,
        client_ip: None,
        metadata,
    }
}

/// The audit record of a security event, with the id and time the audit
/// service gives it.
pub fn audit_event_of(event: SecurityEventType, id: String, timestamp: i64) -> (e: AuditEvent)
    ensures
        records_event(event, e),
        e.id@ == id@,
        e.timestamp == timestamp,
        e.client_ip is None,
{
    proof {
        reveal_strlit("create");
        reveal_strlit("update_version");
        reveal_strlit("delete");
        reveal_strlit("config");
        reveal_strlit("change");
        reveal_strlit("seal");
        reveal_strlit("auth");
        reveal_strlit("login");
        reveal_strlit("session");
        reveal_strlit("terminate");
        reveal_strlit("logout");
        reveal_strlit("mfa");
        reveal_strlit("ssh/ca");
        reveal_strlit("ssh/sign");
    }
    match event {
        SecurityEventType::SecretAccess { secret_path, user, action } => record(
            AuditEventKind::SecretRead,
            true,
            user,
            secret_path,
            action,
            no_pairs(),
            id,
            timestamp,
        ),
        SecurityEventType::SecretCreation { secret_path, user } => record(
            AuditEventKind::SecretWrite,
            true,
            user,
            secret_path,
            owned("create"),
            no_pairs(),
            id,
            timestamp,
        ),
        SecurityEventType::SecretVersionChange { secret_path, old_version, new_version, user } =>
            record(
            AuditEventKind::SecretWrite,
            true,
            user,
            secret_path,
            owned("update_version"),
            two_pairs(
                "old_version",
                decimal_string(old_version as u64),
                "new_version",
                decimal_string(new_version as u64),
            ),
            id,
            timestamp,
        ),
        SecurityEventType::SecretDeletion { secret_path, user } => record(
            AuditEventKind::SecretDelete,
            true,
            user,
            secret_path,
            owned("delete"),
            no_pairs(),
            id,
            timestamp,
        ),
        SecurityEventType::KeyGeneration { key_type, key_id, algorithm, user } => record(
            custom("key.generate"),
            true,
            user,
            key_id,
            owned("generate"),
            two_pairs("key_type", key_type, "algorithm", algorithm),
            id,
            timestamp,
        ),
        SecurityEventType::KeyRotation { old_key_id, new_key_id, algorithm, user } => record(
            custom("key.rotate"),
            true,
            user,
            new_key_id,
            owned("rotate"),
            two_pairs("old_key_id", old_key_id, "algorithm", algorithm),
            id,
            timestamp,
        ),
        SecurityEventType::EncryptionOperation { key_id, user, data_size } => record(
            custom("crypto.encrypt"),
            true,
            user,
            key_id,
            owned("encrypt"),
            one_pair("data_size", decimal_string(data_size)),
            id,
            timestamp,
        ),
        SecurityEventType::DecryptionOperation { key_id, user, data_size } => record(
            custom("crypto.decrypt"),
            true,
            user,
            key_id,
            owned("decrypt"),
            one_pair("data_size", decimal_string(data_size)),
            id,
            timestamp,
        ),
        SecurityEventType::SigningOperation { key_id, user, data_size } => record(
            custom("crypto.sign"),
            true,
            user,
            key_id,
            owned("sign"),
            one_pair("data_size", decimal_string(data_size)),
            id,
            timestamp,
        ),
        SecurityEventType::VerificationOperation { key_id, user, data_size, valid } => record(
            custom("crypto.verify"),
            valid,
            user,
            key_id,
            owned("verify"),
            two_pairs("data_size", decimal_string(data_size), "valid", bool_string(valid)),
            id,
            timestamp,
        ),
        SecurityEventType::PolicyChange { policy_name, user, action } => record(
            custom("policy.change"),
            true,
            user,
            policy_name,
            action,
            no_pairs(),
            id,
            timestamp,
        ),
        SecurityEventType::ConfigChange { user, changed_keys } => record(
            custom("config.change"),
            true,
            user,
            owned("config"),
            owned("change"),
            one_pair("changed_keys", join_strings(&changed_keys, ",")),
            id,
            timestamp,
        ),
        SecurityEventType::SealOperation { operation, user, success } => record(
            custom("seal.operation"),
            success,
            user,
            owned("seal"),
            operation,
            one_pair("success", bool_string(success)),
            id,
            timestamp,
        ),
        SecurityEventType::AuthenticationSuccess { user, method } => record(
            AuditEventKind::AuthLogin,
            true,
            user,
            owned("auth"),
            owned("login"),
            one_pair("method", method),
            id,
            timestamp,
        ),
        SecurityEventType::AuthenticationFailure { user, method, reason } => record(
            AuditEventKind::AuthLogin,
            false,
            user,
            owned("auth"),
            owned("login"),
            two_pairs("method", method, "reason", reason),
            id,
            timestamp,
        ),
        SecurityEventType::SessionTerminated { user, session_id, reason } => record(
            AuditEventKind::AuthLogout,
            true,
            user,
            owned("session"),
            owned("terminate"),
            two_pairs("session_id", session_id, "reason", reason),
            id,
            timestamp,
        ),
        SecurityEventType::MfaSetup { user, method } => record(
            custom("mfa.setup"),
            true,
            user,
            owned("mfa"),
            owned("setup"),
            one_pair("method", method),
            id,
            timestamp,
        ),
        SecurityEventType::MFASuccess { user, method } => record(
            custom("mfa.verify"),
            true,
            user,
            owned("mfa"),
            owned("verify"),
            one_pair("method", method),
            id,
            timestamp,
        ),
        SecurityEventType::MFARemoval { user, method } => record(
            custom("mfa.remove"),
            true,
            user,
            owned("mfa"),
            owned("remove"),
            one_pair("method", method),
            id,
            timestamp,
        ),
        SecurityEventType::KeyDeletion { key_id, user } => record(
            custom("key.delete"),
            true,
            user,
            key_id,
            owned("delete"),
            no_pairs(),
            id,
            timestamp,
        ),
        SecurityEventType::LoginSuccess { user, method, ip_address } => record(
            AuditEventKind::AuthLogin,
            true,
            user,
            owned("auth"),
            owned("login"),
            two_pairs("method", method, "ip_address", string_or_empty(ip_address)),
            id,
            timestamp,
        ),
        SecurityEventType::Logout { user, session_id, ip_address, user_agent } => record(
            AuditEventKind::AuthLogout,
            true,
            user,
            owned("session"),
            owned("logout"),
            three_pairs(
                "session_id",
                session_id,
                "ip_address",
                string_or_empty(ip_address),
                "user_agent",
                string_or_empty(user_agent),
            ),
            id,
            timestamp,
        ),
        SecurityEventType::SshCaGeneration { user } => record(
            custom("ssh.ca.generate"),
            true,
            user,
            owned("ssh/ca"),
            owned("generate"),
            no_pairs(),
            id,
            timestamp,
        ),
        SecurityEventType::SshKeySign { user, principals, ttl } => record(
            custom("ssh.key.sign"),
            true,
            user,
            owned("ssh/sign"),
            owned("sign"),
            two_pairs("principals", join_strings(&principals, ","), "ttl", decimal_string(ttl)),
            id,
            timestamp,
        ),
    }
}

/// The audit logger: when enabled, each reported event becomes a record in
/// the audit service's buffer, which the service later writes to storage.
pub struct AuditLogger {
    pub enabled: bool,
    /// Days a written record is kept.
    pub retention_days: u32,
    pub buffer: Vec<AuditEvent>,
}

impl AuditLogger {
    /// A logger with an empty buffer whose records are kept for
    /// `retention_days` days.
    pub fn new(retention_days: u32, enabled: bool) -> (l: Self)
        ensures
            l.enabled == enabled,
            l.retention_days == retention_days,
            l.buffer@.len() == 0,
    {
        AuditLogger { enabled, retention_days, buffer: Vec::new() }
    }

    /// Where, and until when, a flushed record of this logger is stored.
    pub fn storage_record(&self, event: &AuditEvent) -> (r: StoredAuditRecord)
        ensures
            r.path@ == AUDIT_PREFIX@ + audit_day_path(event.timestamp) + "-"@ + event.id@,
            r.expires_at == retention_expiry(event.timestamp, self.retention_days),
    {
        audit_storage_record(event, self.retention_days)
    }

    /// Records a security event under the given record id and time. A
    /// disabled logger records nothing.
    pub fn log_event(&mut self, event: SecurityEventType, id: String, timestamp: i64)
        ensures
            final(self).enabled == old(self).enabled,
            final(self).retention_days == old(self).retention_days,
            !old(self).enabled ==> final(self).buffer@ == old(self).buffer@,
            old(self).enabled ==> final(self).buffer@.len() == old(self).buffer@.len() + 1
                && final(self).buffer@.take(old(self).buffer@.len() as int) == old(self).buffer@
                && records_event(event, final(self).buffer@.last())
                && final(self).buffer@.last().id@ == id@
                && final(self).buffer@.last().timestamp == timestamp,
    {
        if !self.enabled {
            return ;
        }
        let e = audit_event_of(event, id, timestamp);
        self.buffer.push(e);
        assert(self.buffer@.take(old(self).buffer@.len() as int) =~= old(self).buffer@);
    }

    /// Hands the buffered records over for writing, oldest first, leaving
    /// the buffer empty; a disabled logger hands over nothing.
    pub fn flush(&mut self) -> (written: Vec<AuditEvent>)
        ensures
            final(self).enabled == old(self).enabled,
            final(self).retention_days == old(self).retention_days,
            old(self).enabled ==> written@ == old(self).buffer@ && final(self).buffer@.len() == 0,
            !old(self).enabled ==> written@.len() == 0 && final(self).buffer@ == old(self).buffer@,
    {
        if !self.enabled {
            return Vec::new();
        }
        let mut written: Vec<AuditEvent> = Vec::new();
        std::mem::swap(&mut written, &mut self.buffer);
        written
    }
}


/// Query filters of the audit log; times are nanoseconds since the epoch.
#[derive(Debug)]
pub struct AuditFilters {
    pub user: Option<String>,
    pub action: Option<String>,
    pub path: Option<String>,
    pub start_date: Option<i64>,
    pub end_date: Option<i64>,
    /// Cap on the stored entries scanned; `None` means
    /// `AUDIT_QUERY_DEFAULT_MAX_ENTRIES`.
    pub limit: Option<u32>,
}

/// No filter at all.
pub open spec fn no_filters(f: AuditFilters) -> bool {
    f.user is None && f.action is None && f.path is None && f.start_date is None && f.end_date
        is None && f.limit is None
}

impl Default for AuditFilters {
    fn default() -> (f: Self)
        ensures
            no_filters(f),
    {
        AuditFilters {
            user: None,
            action: None,
            path: None,
            start_date: None,
            end_date: None,
            limit: None,
        }
    }
}

impl AuditFilters {
    /// Filters that let every entry through.
    pub fn new() -> (f: Self)
        ensures
            no_filters(f),
    {
        AuditFilters {
            user: None,
            action: None,
            path: None,
            start_date: None,
            end_date: None,
            limit: None,
        }
    }

    /// Entries of one user only.
    pub fn by_user(user: String) -> (f: Self)
        ensures
            f.user == Some(user),
            f.action is None && f.path is None && f.start_date is None && f.end_date is None
                && f.limit is None,
    {
        AuditFilters {
            user: Some(user),
            action: None,
            path: None,
            start_date: None,
            end_date: None,
            limit: None,
        }
    }

    /// Entries about one resource only.
    pub fn by_path(path: String) -> (f: Self)
        ensures
            f.path == Some(path),
            f.user is None && f.action is None && f.start_date is None && f.end_date is None
                && f.limit is None,
    {
        AuditFilters {
            user: None,
            action: None,
            path: Some(path),
            start_date: None,
            end_date: None,
            limit: None,
        }
    }
}

/// The stored entries a query scans at most.
pub fn scan_limit(filters: &AuditFilters) -> (n: u32)
    ensures
        n == match filters.limit {
            Some(l) => l,
            None => AUDIT_QUERY_DEFAULT_MAX_ENTRIES,
        },
{
    match filters.limit {
        Some(l) => l,
        None => AUDIT_QUERY_DEFAULT_MAX_ENTRIES,
    }
}

/// Whether a scan that returned `returned` entries may have been cut short
/// by the cap (the count, taken modulo 2^32, reached it).
pub fn scan_limit_reached(returned: usize, limit: u32) -> (b: bool)
    ensures
        b == ((returned as u32) >= limit),
{
    #[verifier::truncate]
    let n = returned as u32;
    n >= limit
}

/// Formats of an audit export.
#[derive(Debug, Clone, Copy, PartialEq, Eq, Structural)]
pub enum ExportFormat {
    CSV,
    JSON,
}

/// An export widens the scan cap to `AUDIT_EXPORT_MAX_ENTRIES` unless the
/// caller set one.
pub fn widen_for_export(filters: &mut AuditFilters)
    ensures
        final(filters).limit == Some(
            match old(filters).limit {
                Some(l) => l,
                None => AUDIT_EXPORT_MAX_ENTRIES,
            },
        ),
        final(filters).user == old(filters).user,
        final(filters).action == old(filters).action,
        final(filters).path == old(filters).path,
        final(filters).start_date == old(filters).start_date,
        final(filters).end_date == old(filters).end_date,
{
    if filters.limit.is_none() {
        filters.limit = Some(AUDIT_EXPORT_MAX_ENTRIES);
    }
}

/// The UTC calendar date (year, month, day) of a time in nanoseconds.
pub uninterp spec fn utc_date(nanos: i64) -> (i32, u32, u32);

/// The date of a time.
///
/// Trusted: `chrono::DateTime::from_timestamp_nanos` (total on `i64`) and
/// the `year`, `month` and `day` of `chrono::Datelike`.  The `i64`
/// nanoseconds span the dates from 1677-09-21 (`i64::MIN`) to 2262-04-11
/// (`i64::MAX`), as chrono's own rounding tests show; chrono documents
/// months from 1 to 12 and days from 1 to 31.
#[verifier::external_body]
fn date_of(nanos: i64) -> (d: (i32, u32, u32))
    ensures
        d == utc_date(nanos),
        1677 <= d.0 <= 2262,
        1 <= d.1 <= 12,
        1 <= d.2 <= 31,
{
    let t = chrono::DateTime::from_timestamp_nanos(nanos);
    (chrono::Datelike::year(&t), chrono::Datelike::month(&t), chrono::Datelike::day(&t))
}

/// The storage prefix a query scans: the day, month or year that both ends
/// of the time range share, or the whole log.
pub open spec fn scan_prefix(start: Option<i64>, end: Option<i64>) -> Seq<char> {
    match (start, end) {
        (Some(s), Some(e)) => {
            let (ys, ms, ds) = utc_date(s);
            let (ye, me, de) = utc_date(e);
            if ys != ye {
                AUDIT_PREFIX@
            } else if ms != me {
                AUDIT_PREFIX@ + signed_decimal(ys as int) + "/"@
            } else if ds != de {
                AUDIT_PREFIX@ + signed_decimal(ys as int) + "/"@ + decimal_padded(ms as nat, 2)
                    + "/"@
            } else {
                AUDIT_PREFIX@ + signed_decimal(ys as int) + "/"@ + decimal_padded(ms as nat, 2)
                    + "/"@ + decimal_padded(ds as nat, 2) + "/"@
            }
        },
        _ => AUDIT_PREFIX@,
    }
}

/// The storage prefix a query with these filters scans.
pub fn query_prefix(filters: &AuditFilters) -> (p: String)
    ensures
        p@ == scan_prefix(filters.start_date, filters.end_date),
{
    let mut v = chars_of(AUDIT_PREFIX);
    match (filters.start_date, filters.end_date) {
        (Some(s), Some(e)) => {
            let (ys, ms, ds) = date_of(s);
            let (ye, me, de) = date_of(e);
            if ys == ye {
                let y = signed_decimal_chars(ys as i64);
                push_all(&mut v, y.as_slice());
                push_str(&mut v, "/");
                if ms == me {
                    let m = decimal_chars_padded(ms as u64, 2);
                    push_all(&mut v, m.as_slice());
                    push_str(&mut v, "/");
                    if ds == de {
                        let d = decimal_chars_padded(ds as u64, 2);
                        push_all(&mut v, d.as_slice());
                        push_str(&mut v, "/");
                    }
                }
            }
        },
        _ => {},
    }
    string_from_chars(v.as_slice())
}

/// Whole seconds since the epoch of a time in nanoseconds, rounded down.
pub open spec fn whole_seconds(nanos: i64) -> int {
    nanos as int / 1_000_000_000
}

/// The day part of an audit record's path: `YYYY/MM/DD/{seconds}` of the
/// record's UTC date, the year in four digits and month and day in two,
/// then the whole seconds since the epoch.
pub open spec fn audit_day_path(nanos: i64) -> Seq<char> {
    let (y, m, d) = utc_date(nanos);
    decimal_padded(y as nat, 4) + "/"@ + decimal_padded(m as nat, 2) + "/"@ + decimal_padded(
        d as nat,
        2,
    ) + "/"@ + signed_decimal(whole_seconds(nanos))
}

/// Whole seconds since the epoch of a time in nanoseconds, rounded down.
fn seconds_of_nanos(nanos: i64) -> (s: i64)
    ensures
        s as int == whole_seconds(nanos),
{
    if nanos >= 0 {
        let q: u64 = (nanos as u64) / 1_000_000_000u64;
        assert(q as int == nanos as int / 1_000_000_000);
        q as i64
    } else {
        let m: u64 = (-(nanos + 1)) as u64;
        let q: u64 = m / 1_000_000_000u64;
        proof {
            let mi = m as int;
            let qi = q as int;
            let r = mi % 1_000_000_000;
            assert(mi == qi * 1_000_000_000 + r && 0 <= r < 1_000_000_000) by {
                vstd::arithmetic::div_mod::lemma_fundamental_div_mod(mi, 1_000_000_000);
            }
            assert(nanos as int == (-qi - 1) * 1_000_000_000 + (1_000_000_000 - r - 1));
            vstd::arithmetic::div_mod::lemma_fundamental_div_mod_converse(
                nanos as int,
                1_000_000_000,
                -qi - 1,
                1_000_000_000 - r - 1,
            );
        }
        -(q as i64) - 1
    }
}

/// The day part of the storage path of a record made at `nanos`.
fn day_path(nanos: i64) -> (v: Vec<char>)
    ensures
        v@ == audit_day_path(nanos),
{
    let (y, m, d) = date_of(nanos);
    let mut v = decimal_chars_padded(y as u64, 4);
    push_str(&mut v, "/");
    let mc = decimal_chars_padded(m as u64, 2);
    push_all(&mut v, mc.as_slice());
    push_str(&mut v, "/");
    let dc = decimal_chars_padded(d as u64, 2);
    push_all(&mut v, dc.as_slice());
    push_str(&mut v, "/");
    let sc = signed_decimal_chars(seconds_of_nanos(nanos));
    push_all(&mut v, sc.as_slice());
    v
}

/// The storage path of an audit record.
pub fn audit_entry_path(event: &AuditEvent) -> (p: String)
    ensures
        p@ == AUDIT_PREFIX@ + audit_day_path(event.timestamp) + "-"@ + event.id@,
{
    let mut v = chars_of(AUDIT_PREFIX);
    let dc = day_path(event.timestamp);
    push_all(&mut v, dc.as_slice());
    push_str(&mut v, "-");
    let ic = chars_of_string(&event.id);
    push_all(&mut v, ic.as_slice());
    string_from_chars(v.as_slice())
}

/// Where the audit device stores a record and when the record expires
/// (Unix seconds).
#[derive(Debug)]
pub struct StoredAuditRecord {
    pub path: String,
    pub expires_at: i64,
}

/// The expiry of a record made at `nanos` and kept `retention_days` days:
/// its whole seconds plus the retention period.
pub open spec fn retention_expiry(nanos: i64, retention_days: u32) -> int {
    whole_seconds(nanos) + retention_days * 86_400
}

/// The storage placement of a record kept `retention_days` days: its path
/// under the day it was made, and an expiry `retention_days` days after it.
pub fn audit_storage_record(event: &AuditEvent, retention_days: u32) -> (r: StoredAuditRecord)
    ensures
        r.path@ == AUDIT_PREFIX@ + audit_day_path(event.timestamp) + "-"@ + event.id@,
        r.expires_at == retention_expiry(event.timestamp, retention_days),
{
    let secs = seconds_of_nanos(event.timestamp);
    assert(-9_223_372_037 <= secs <= 9_223_372_037) by {
        assert(whole_seconds(event.timestamp) <= 9_223_372_037);
        assert(whole_seconds(event.timestamp) >= -9_223_372_037);
    }
    let keep: i64 = (retention_days as i64) * 86_400;
    StoredAuditRecord { path: audit_entry_path(event), expires_at: secs + keep }
}

/// The record passes the filters.
pub open spec fn passes(e: AuditEvent, f: AuditFilters) -> bool {
    &&& (f.user matches Some(u) ==> e.user@ == u@)
    &&& (f.action matches Some(a) ==> e.operation@ == a@)
    &&& (f.path matches Some(p) ==> e.resource@ == p@)
    &&& (f.start_date matches Some(t) ==> e.timestamp >= t)
    &&& (f.end_date matches Some(t) ==> e.timestamp <= t)
}

fn opt_text_is(o: &Option<String>, s: &String) -> (b: bool)
    ensures
        b == (o matches Some(x) ==> s@ == x@),
{
    match o {
        Some(x) => crate::text::str_is(s.as_str(), x.as_str()),
        None => true,
    }
}

/// Whether a record passes the filters.
pub fn passes_filters(e: &AuditEvent, f: &AuditFilters) -> (b: bool)
    ensures
        b == passes(*e, *f),
{
    if !opt_text_is(&f.user, &e.user) {
        return false;
    }
    if !opt_text_is(&f.action, &e.operation) {
        return false;
    }
    if !opt_text_is(&f.path, &e.resource) {
        return false;
    }
    match f.start_date {
        Some(t) => if e.timestamp < t {
            return false;
        },
        None => {},
    }
    match f.end_date {
        Some(t) => if e.timestamp > t {
            return false;
        },
        None => {},
    }
    true
}

/// A stored audit entry as the storage layer models it.
#[derive(Debug)]
pub struct AuditEntry {
    pub id: u128,
    pub timestamp: i64,
    pub user_id: u128,
    pub action: String,
    pub resource_type: String,
    pub resource_id: Option<String>,
    pub details: Vec<(String, String)>,
    pub ip_address: Option<String>,
    pub user_agent: Option<String>,
    pub success: bool,
    pub error_message: Option<String>,
}

/// An audit entry together with the user name it was recorded under (which
/// is rarely a UUID).
#[derive(Debug)]
pub struct RichAuditEntry {
    pub original_user: String,
    pub entry: AuditEntry,
}

/// The query result for one record: ids that are not UUIDs become the nil
/// UUID (zero).
pub open spec fn rich_of(e: AuditEvent) -> RichAuditEntry {
    RichAuditEntry {
        original_user: e.user,
        entry: AuditEntry {
            id: owner_uuid(e.id@),
            timestamp: e.timestamp,
            user_id: owner_uuid(e.user@),
            action: e.operation,
            resource_type: e.resource,
            resource_id: None,
            details: e.metadata,
            ip_address: e.client_ip,
            user_agent: None,
            success: e.status == AuditStatus::Success,
            error_message: None,
        },
    }
}

fn to_rich(e: AuditEvent) -> (r: RichAuditEntry)
    ensures
        r == rich_of(e),
{
    let id = get_user_uuid(e.id.as_str());
    let user_id = get_user_uuid(e.user.as_str());
    let success = e.status == AuditStatus::Success;
    let original_user = e.user.clone();
    RichAuditEntry {
        original_user,
        entry: AuditEntry {
            id,
            timestamp: e.timestamp,
            user_id,
            action: e.operation,
            resource_type: e.resource,
            resource_id: None,
            details: e.metadata,
            ip_address: e.client_ip,
            user_agent: None,
            success,
            error_message: None,
        },
    }
}

/// The records of `s` that pass the filters, in order.
pub open spec fn kept(s: Seq<AuditEvent>, f: AuditFilters) -> Seq<AuditEvent>
    decreases s.len(),
{
    if s.len() == 0 {
        Seq::empty()
    } else if passes(s.last(), f) {
        kept(s.drop_last(), f).push(s.last())
    } else {
        kept(s.drop_last(), f)
    }
}

/// Where an entry of time `t` goes into `s`: after the last entry that is
/// not older than it.
pub open spec fn insert_pos(s: Seq<RichAuditEntry>, t: i64) -> int
    decreases s.len(),
{
    if s.len() == 0 {
        0
    } else if s.last().entry.timestamp >= t {
        s.len() as int
    } else {
        insert_pos(s.drop_last(), t)
    }
}

/// The entries ordered newest first; entries of the same time keep their
/// order (a stable sort).
pub open spec fn newest_first(s: Seq<RichAuditEntry>) -> Seq<RichAuditEntry>
    decreases s.len(),
{
    if s.len() == 0 {
        Seq::empty()
    } else {
        let p = newest_first(s.drop_last());
        p.insert(insert_pos(p, s.last().entry.timestamp), s.last())
    }
}

proof fn lemma_insert_pos_bounds(s: Seq<RichAuditEntry>, t: i64)
    ensures
        0 <= insert_pos(s, t) <= s.len(),
    decreases s.len(),
{
    if s.len() > 0 {
        lemma_insert_pos_bounds(s.drop_last(), t);
    }
}

proof fn lemma_newest_first_len(s: Seq<RichAuditEntry>)
    ensures
        newest_first(s).len() == s.len(),
    decreases s.len(),
{
    if s.len() > 0 {
        lemma_newest_first_len(s.drop_last());
        lemma_insert_pos_bounds(newest_first(s.drop_last()), s.last().entry.timestamp);
    }
}

fn insert_newest_first(v: &mut Vec<RichAuditEntry>, x: RichAuditEntry)
    ensures
        final(v)@ == old(v)@.insert(insert_pos(old(v)@, x.entry.timestamp), x),
{
    let t = x.entry.timestamp;
    let mut k = v.len();
    assert(v@.take(k as int) =~= v@);
    while k > 0 && v[k - 1].entry.timestamp < t
        invariant
            k <= v@.len(),
            v@ == old(v)@,
            insert_pos(v@, t) == insert_pos(v@.take(k as int), t),
        decreases k,
    {
        assert(v@.take(k as int).drop_last() =~= v@.take(k - 1));
        k = k - 1;
    }
    proof {
        lemma_insert_pos_bounds(v@, t);
        if k > 0 {
            assert(v@.take(k as int).last() == v@[k - 1]);
        }
    }
    v.insert(k, x);
}

/// The query over a batch of stored records: those that pass the filters,
/// as query results, newest first.
pub fn select_entries(events: Vec<AuditEvent>, filters: &AuditFilters) -> (r: Vec<RichAuditEntry>)
    ensures
        r@ == newest_first(kept(events@, *filters).map_values(|e: AuditEvent| rich_of(e))),
{
    let ghost orig = events@;
    let n = events.len();
    let mut events = events;
    let mut rev: Vec<AuditEvent> = Vec::new();
    while events.len() > 0
        invariant
            events@ == orig.take(events@.len() as int),
            events@.len() + rev@.len() == n == orig.len(),
            forall|j: int| 0 <= j < rev@.len() ==> #[trigger] rev@[j] == orig[n - 1 - j],
        decreases events@.len(),
    {
        let ghost before = events@;
        let x = events.pop().unwrap();
        proof {
            assert(events@ =~= orig.take(events@.len() as int));
        }
        rev.push(x);
    }
    let mut out: Vec<RichAuditEntry> = Vec::new();
    let mut i: usize = 0;
    assert(orig.take(0) =~= Seq::<AuditEvent>::empty());
    assert(kept(orig.take(0), *filters).map_values(|e: AuditEvent| rich_of(e)) =~= Seq::<
        RichAuditEntry,
    >::empty());
    while rev.len() > 0
        invariant
            i + rev@.len() == n == orig.len(),
            forall|j: int| 0 <= j < rev@.len() ==> #[trigger] rev@[j] == orig[n - 1 - j],
            out@ == newest_first(
                kept(orig.take(i as int), *filters).map_values(|e: AuditEvent| rich_of(e)),
            ),
        decreases rev@.len(),
    {
        let e = rev.pop().unwrap();
        let ghost q = orig.take(i as int);
        proof {
            assert(e == orig[i as int]);
            assert(orig.take(i + 1).drop_last() =~= q);
            assert(orig.take(i + 1).last() == e);
        }
        if passes_filters(&e, filters) {
            let ghost m = kept(q, *filters).map_values(|e: AuditEvent| rich_of(e));
            let r = to_rich(e);
            proof {
                assert(kept(orig.take(i + 1), *filters) == kept(q, *filters).push(e));
                assert(kept(orig.take(i + 1), *filters).map_values(|e: AuditEvent| rich_of(e))
                    =~= m.push(r));
                assert(m.push(r).drop_last() =~= m);
            }
            insert_newest_first(&mut out, r);
        } else {
            proof {
                assert(kept(orig.take(i + 1), *filters) == kept(q, *filters));
            }
        }
        i = i + 1;
    }
    assert(orig.take(n as int) =~= orig);
    out
}

/// Text of the UTC instant `secs` seconds and `subsec` nanoseconds after
/// the epoch as chrono's `Display` of `DateTime<Utc>` renders it
/// ("2024-01-15 08:30:00 UTC").
pub uninterp spec fn utc_display(secs: i64, subsec: u32) -> Seq<char>;

/// Text of a time given in nanoseconds since the epoch.
pub open spec fn utc_text(nanos: i64) -> Seq<char> {
    utc_display((nanos / 1_000_000_000) as i64, (nanos % 1_000_000_000) as u32)
}

/// The display text of a time.
///
/// Trusted: `chrono::DateTime::from_timestamp_nanos`, which splits the
/// nanoseconds into whole seconds (rounded down) and the rest, and
/// `to_string` of its `Display`; the text is named by `utc_display`.
#[verifier::external_body]
pub(crate) fn audit_time_text(nanos: i64) -> (s: String)
    ensures
        s@ == utc_display((nanos / 1_000_000_000) as i64, (nanos % 1_000_000_000) as u32),
{
    chrono::DateTime::from_timestamp_nanos(nanos).to_string()
}

/// The display text of a whole second.
///
/// Trusted: `chrono::DateTime::from_timestamp` with no nanoseconds, which
/// covers every second within about 262 000 years of the epoch, and
/// `to_string` of its `Display`; the text is named by `utc_display`.
#[verifier::external_body]
pub(crate) fn second_text(secs: i64) -> (s: String)
    requires
        -8_000_000_000_000 <= secs <= 8_000_000_000_000,
    ensures
        s@ == utc_display(secs, 0),
{
    chrono::DateTime::from_timestamp(secs, 0).unwrap().to_string()
}

/// A text with each double quote doubled.
pub open spec fn csv_escaped(s: Seq<char>) -> Seq<char>
    decreases s.len(),
{
    if s.len() == 0 {
        Seq::empty()
    } else {
        csv_escaped(s.drop_last()) + if s.last() == '"' {
            seq!['"', '"']
        } else {
            seq![s.last()]
        }
    }
}

/// A quoted CSV cell.
#[verifier::opaque]
pub open spec fn csv_cell(s: Seq<char>) -> Seq<char> {
    seq!['"'] + csv_escaped(s) + seq!['"']
}

/// First line of the CSV export.
pub open spec fn csv_header() -> Seq<char> {
    "timestamp,user,action,resource,resource_id,ip_address,user_agent,success\n"@
}

/// One CSV line of an entry.
pub open spec fn csv_row(r: RichAuditEntry) -> Seq<char> {
    csv_cell(utc_text(r.entry.timestamp)) + ","@ + csv_cell(r.original_user@) + ","@ + csv_cell(
        r.entry.action@,
    ) + ","@ + csv_cell(r.entry.resource_type@) + ","@ + csv_cell(
        text_or_empty(r.entry.resource_id),
    ) + ","@ + csv_cell(text_or_empty(r.entry.ip_address)) + ","@ + csv_cell(
        text_or_empty(r.entry.user_agent),
    ) + ","@ + seq!['"'] + bool_text(r.entry.success) + seq!['"'] + "\n"@
}

/// The CSV lines of the entries.
pub open spec fn csv_rows(s: Seq<RichAuditEntry>) -> Seq<char>
    decreases s.len(),
{
    if s.len() == 0 {
        Seq::empty()
    } else {
        csv_rows(s.drop_last()) + csv_row(s.last())
    }
}

fn push_cell(dst: &mut Vec<char>, s: &[char])
    ensures
        final(dst)@ == old(dst)@ + csv_cell(s@),
{
    let ghost start = dst@;
    dst.push('"');
    let n = s.len();
    for i in 0..n
        invariant
            n == s@.len(),
            dst@ == start + seq!['"'] + csv_escaped(s@.take(i as int)),
    {
        assert(s@.take(i + 1).drop_last() =~= s@.take(i as int));
        if s[i] == '"' {
            dst.push('"');
            dst.push('"');
        } else {
            dst.push(s[i]);
        }
        assert(dst@ =~= start + seq!['"'] + csv_escaped(s@.take(i + 1)));
    }
    assert(s@.take(n as int) =~= s@);
    dst.push('"');
    assert(dst@ =~= start + csv_cell(s@)) by {
        reveal(csv_cell);
    }
}

fn push_opt_cell(dst: &mut Vec<char>, o: &Option<String>)
    ensures
        final(dst)@ == old(dst)@ + csv_cell(text_or_empty(*o)),
{
    match o {
        Some(s) => {
            let c = chars_of_string(s);
            push_cell(dst, c.as_slice());
        },
        None => {
            let c: Vec<char> = Vec::new();
            assert(c@ =~= Seq::<char>::empty());
            push_cell(dst, c.as_slice());
        },
    }
}

fn push_cell_comma(dst: &mut Vec<char>, s: &[char])
    ensures
        final(dst)@ == old(dst)@ + csv_cell(s@) + ","@,
{
    push_cell(dst, s);
    push_str(dst, ",");
}

fn push_opt_cell_comma(dst: &mut Vec<char>, o: &Option<String>)
    ensures
        final(dst)@ == old(dst)@ + csv_cell(text_or_empty(*o)) + ","@,
{
    push_opt_cell(dst, o);
    push_str(dst, ",");
}

fn push_row(v: &mut Vec<char>, r: &RichAuditEntry)
    ensures
        final(v)@ == old(v)@ + csv_row(*r),
{
    let ghost s0 = v@;
    let t = audit_time_text(r.entry.timestamp);
    let tc = chars_of_string(&t);
    push_cell_comma(v, tc.as_slice());
    let ghost s1 = v@;
    let uc = chars_of_string(&r.original_user);
    push_cell_comma(v, uc.as_slice());
    let ghost s2 = v@;
    let ac = chars_of_string(&r.entry.action);
    push_cell_comma(v, ac.as_slice());
    let ghost s3 = v@;
    let rc = chars_of_string(&r.entry.resource_type);
    push_cell_comma(v, rc.as_slice());
    let ghost s4 = v@;
    push_opt_cell_comma(v, &r.entry.resource_id);
    let ghost s5 = v@;
    push_opt_cell_comma(v, &r.entry.ip_address);
    let ghost s6 = v@;
    push_opt_cell_comma(v, &r.entry.user_agent);
    let ghost s7 = v@;
    let b = bool_string(r.entry.success);
    let mut tail: Vec<char> = Vec::new();
    tail.push('"');
    let bc = chars_of_string(&b);
    push_all(&mut tail, bc.as_slice());
    tail.push('"');
    push_str(&mut tail, "\n");
    assert(tail@ =~= seq!['"'] + bool_text(r.entry.success) + seq!['"'] + "\n"@);
    push_all(v, tail.as_slice());
    assert(v@ =~= s0 + csv_row(*r));
}

/// The CSV export of query results: a header line, then one line per entry
/// with every cell quoted and inner quotes doubled.
pub fn export_csv(entries: &Vec<RichAuditEntry>) -> (s: String)
    ensures
        s@ == csv_header() + csv_rows(entries@),
{
    let mut v = chars_of("timestamp,user,action,resource,resource_id,ip_address,user_agent,success\n");
    let n = entries.len();
    assert(entries@.take(0) =~= Seq::<RichAuditEntry>::empty());
    for i in 0..n
        invariant
            n == entries@.len(),
            v@ == csv_header() + csv_rows(entries@.take(i as int)),
    {
        let ghost before = v@;
        push_row(&mut v, &entries[i]);
        proof {
            assert(entries@.take(i + 1).drop_last() =~= entries@.take(i as int));
            assert(entries@.take(i + 1).last() == entries@[i as int]);
            assert(v@ =~= csv_header() + csv_rows(entries@.take(i + 1)));
        }
    }
    assert(entries@.take(n as int) =~= entries@);
    string_from_chars(v.as_slice())
}


/// The entries are ordered newest first.
pub open spec fn is_newest_first(s: Seq<RichAuditEntry>) -> bool {
    forall|i: int, j: int|
        0 <= i < j < s.len() ==> (#[trigger] s[i]).entry.timestamp >= (#[trigger] s[j]).entry.timestamp
}

proof fn lemma_insert_pos_splits(s: Seq<RichAuditEntry>, t: i64)
    requires
        is_newest_first(s),
    ensures
        forall|j: int| 0 <= j < insert_pos(s, t) ==> (#[trigger] s[j]).entry.timestamp >= t,
        forall|j: int| insert_pos(s, t) <= j < s.len() ==> (#[trigger] s[j]).entry.timestamp < t,
    decreases s.len(),
{
    lemma_insert_pos_bounds(s, t);
    if s.len() > 0 {
        let d = s.drop_last();
        assert(is_newest_first(d)) by {
            assert forall|i: int, j: int| 0 <= i < j < d.len() implies (#[trigger] d[i]).entry.timestamp
                >= (#[trigger] d[j]).entry.timestamp by {
                assert(d[i] == s[i] && d[j] == s[j]);
            }
        }
        lemma_insert_pos_splits(d, t);
        if s.last().entry.timestamp >= t {
            assert forall|j: int| 0 <= j < insert_pos(s, t) implies (#[trigger] s[j]).entry.timestamp
                >= t by {
                if j < s.len() - 1 {
                    assert(s[j].entry.timestamp >= s[s.len() - 1].entry.timestamp);
                }
            }
        } else {
            assert forall|j: int| 0 <= j < insert_pos(s, t) implies (#[trigger] s[j]).entry.timestamp
                >= t by {
                assert(s[j] == d[j]);
            }
            assert forall|j: int| insert_pos(s, t) <= j < s.len() implies (
            #[trigger] s[j]).entry.timestamp < t by {
                if j < s.len() - 1 {
                    assert(s[j] == d[j]);
                }
            }
        }
    }
}

/// Ordering newest first gives a sequence ordered newest first, of the same
/// length, whose entries all come from the input.
pub proof fn lemma_newest_first(s: Seq<RichAuditEntry>)
    ensures
        newest_first(s).len() == s.len(),
        is_newest_first(newest_first(s)),
        forall|i: int| 0 <= i < s.len() ==> s.contains(#[trigger] newest_first(s)[i]),
    decreases s.len(),
{
    lemma_newest_first_len(s);
    if s.len() > 0 {
        let d = s.drop_last();
        let p = newest_first(d);
        let x = s.last();
        let k = insert_pos(p, x.entry.timestamp);
        lemma_newest_first(d);
        lemma_insert_pos_bounds(p, x.entry.timestamp);
        lemma_insert_pos_splits(p, x.entry.timestamp);
        let q = p.insert(k, x);
        assert(q == newest_first(s));
        assert forall|i: int, j: int| 0 <= i < j < q.len() implies (#[trigger] q[i]).entry.timestamp
            >= (#[trigger] q[j]).entry.timestamp by {
            if i < k && j < k {
                assert(q[i] == p[i] && q[j] == p[j]);
            } else if i < k && j == k {
                assert(q[i] == p[i]);
            } else if i < k {
                assert(q[i] == p[i] && q[j] == p[j - 1]);
            } else if i == k {
                assert(q[j] == p[j - 1]);
            } else {
                assert(q[i] == p[i - 1] && q[j] == p[j - 1]);
            }
        }
        assert forall|i: int| 0 <= i < s.len() implies s.contains(#[trigger] newest_first(s)[i]) by {
            if i < k {
                assert(q[i] == p[i]);
                assert(d.contains(p[i]));
                let m = choose|m: int| 0 <= m < d.len() && d[m] == p[i];
                assert(s[m] == d[m]);
            } else if i == k {
                assert(s[s.len() - 1] == x);
            } else {
                assert(q[i] == p[i - 1]);
                assert(d.contains(p[i - 1]));
                let m = choose|m: int| 0 <= m < d.len() && d[m] == p[i - 1];
                assert(s[m] == d[m]);
            }
        }
    }
}

/// The records kept by the filters all pass them, and each comes from the
/// input.
pub proof fn lemma_kept(s: Seq<AuditEvent>, f: AuditFilters)
    ensures
        kept(s, f).len() <= s.len(),
        forall|i: int|
            0 <= i < kept(s, f).len() ==> passes(#[trigger] kept(s, f)[i], f) && s.contains(
                kept(s, f)[i],
            ),
    decreases s.len(),
{
    if s.len() > 0 {
        let d = s.drop_last();
        lemma_kept(d, f);
        let k = kept(s, f);
        assert forall|i: int| 0 <= i < k.len() implies passes(#[trigger] k[i], f) && s.contains(k[i]) by {
            if i < kept(d, f).len() {
                assert(k[i] == kept(d, f)[i]);
                let m = choose|m: int| 0 <= m < d.len() && d[m] == kept(d, f)[i];
                assert(s[m] == d[m]);
            } else {
                assert(k[i] == s.last());
                assert(s[s.len() - 1] == s.last());
            }
        }
    }
}

} // verus!
