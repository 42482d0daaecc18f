//! The database secrets engine's service rules: where configuration, roles
//! and leases are stored, which connection URLs are accepted, how engine
//! failures are answered and how leases are named and revoked.

use vstd::prelude::*;
use crate::ids::{random_uuid, uuid_simple, uuid_simple_text};
use crate::models::HttpStatus;
use crate::text::{
    chars_of, concat_str, owned, push_str, seq_starts_with, starts_with, string_from_chars,
    strip_prefix,
};

verus! {

/// Storage path of the engine configuration.
pub const DB_CONFIG_PATH: &'static str = "sys/database/config";

/// Storage prefix of the roles.
pub const DB_ROLE_PREFIX: &'static str = "sys/database/roles/";

/// Storage prefix of the leases.
pub const DB_LEASE_PREFIX: &'static str = "sys/database/leases/";

/// Most roles, or leases, read in one scan of storage.
pub const DB_SCAN_MAX_ENTRIES: u32 = 10000;

/// Lease duration of a role that sets no default lifetime, in seconds.
pub const DEFAULT_LEASE_SECONDS: u64 = 3600;

/// A failure of the database service, by the HTTP status a handler answers.
#[derive(Debug)]
pub enum DatabaseServiceError {
    /// The requested resource was not found (404).
    NotFound(String),
    /// The engine is disabled or not ready (503).
    Unavailable(String),
    /// A client-supplied value is invalid (400).
    BadRequest(String),
    /// Any other unexpected failure (500).
    Internal(String),
}

/// The status a handler answers for a database service error.
pub open spec fn db_error_status(e: DatabaseServiceError) -> HttpStatus {
    match e {
        DatabaseServiceError::NotFound(_) => HttpStatus::NotFound,
        DatabaseServiceError::Unavailable(_) => HttpStatus::ServiceUnavailable,
        DatabaseServiceError::BadRequest(_) => HttpStatus::BadRequest,
        DatabaseServiceError::Internal(_) => HttpStatus::InternalServerError,
    }
}

/// The message that a database service error displays.
pub open spec fn db_error_text(e: DatabaseServiceError) -> Seq<char> {
    match e {
        DatabaseServiceError::NotFound(m) => m@,
        DatabaseServiceError::Unavailable(m) => m@,
        DatabaseServiceError::BadRequest(m) => m@,
        DatabaseServiceError::Internal(m) => m@,
    }
}

impl DatabaseServiceError {
    /// The HTTP status that this error is answered with.
    pub fn status(&self) -> (s: HttpStatus)
        ensures
            s == db_error_status(*self),
    {
        match self {
            DatabaseServiceError::NotFound(_) => HttpStatus::NotFound,
            DatabaseServiceError::Unavailable(_) => HttpStatus::ServiceUnavailable,
            DatabaseServiceError::BadRequest(_) => HttpStatus::BadRequest,
            DatabaseServiceError::Internal(_) => HttpStatus::InternalServerError,
        }
    }

    /// The error's message.
    pub fn message(&self) -> (m: String)
        ensures
            m@ == db_error_text(*self),
    {
        match self {
            DatabaseServiceError::NotFound(m) => m.clone(),
            DatabaseServiceError::Unavailable(m) => m.clone(),
            DatabaseServiceError::BadRequest(m) => m.clone(),
            DatabaseServiceError::Internal(m) => m.clone(),
        }
    }
}

/// The connection URL names a database type that the engine supports.
pub open spec fn supported_url(url: Seq<char>) -> bool {
    ||| seq_starts_with(url, "postgresql://"@)
    ||| seq_starts_with(url, "postgres://"@)
    ||| seq_starts_with(url, "mysql://"@)
    ||| seq_starts_with(url, "mongodb://"@)
    ||| seq_starts_with(url, "redis://"@)
}

/// The message refusing an empty connection URL.
pub open spec fn empty_url_text() -> Seq<char> {
    "connection_url must not be empty"@
}

/// The message refusing a connection URL of an unknown database type.
pub open spec fn unsupported_url_text() -> Seq<char> {
    "Unsupported database type in connection_url. Must start with one of: postgresql://, postgres://, mysql://, mongodb://, redis://"@
}

fn url_starts(u: &[char], p: &str) -> (b: bool)
    ensures
        b == seq_starts_with(u@, p@),
{
    let pv = chars_of(p);
    starts_with(u, pv.as_slice())
}

/// Checks the connection URL of a new engine configuration: it must be
/// non-empty and start with the scheme of a supported database.
pub fn validate_connection_url(url: &str) -> (r: Result<(), DatabaseServiceError>)
    ensures
        url@.len() == 0 ==> (r matches Err(e) && e is BadRequest && db_error_text(e)
            == empty_url_text()),
        url@.len() > 0 && !supported_url(url@) ==> (r matches Err(e) && e is BadRequest
            && db_error_text(e) == unsupported_url_text()),
        url@.len() > 0 && supported_url(url@) ==> r is Ok,
{
    let u = chars_of(url);
    if u.len() == 0 {
        return Err(DatabaseServiceError::BadRequest(owned("connection_url must not be empty")));
    }
    if url_starts(u.as_slice(), "postgresql://") || url_starts(u.as_slice(), "postgres://")
        || url_starts(u.as_slice(), "mysql://") || url_starts(u.as_slice(), "mongodb://")
        || url_starts(u.as_slice(), "redis://") {
        Ok(())
    } else {
        Err(
            DatabaseServiceError::BadRequest(
                owned(
                    "Unsupported database type in connection_url. Must start with one of: postgresql://, postgres://, mysql://, mongodb://, redis://",
                ),
            ),
        )
    }
}

/// Storage path of a role.
pub fn role_path(name: &str) -> (p: String)
    ensures
        p@ == "sys/database/roles/"@ + name@,
{
    let v = concat_str("sys/database/roles/", name);
    string_from_chars(v.as_slice())
}

/// Storage path of a lease.
pub fn lease_path(lease_id: &str) -> (p: String)
    ensures
        p@ == "sys/database/leases/"@ + lease_id@,
{
    let v = concat_str("sys/database/leases/", lease_id);
    string_from_chars(v.as_slice())
}

/// The name of the role stored at `path`, if the path is under the role
/// prefix.
pub fn role_name_of(path: &str) -> (r: Option<String>)
    ensures
        r is Some <==> seq_starts_with(path@, "sys/database/roles/"@),
        r matches Some(n) ==> "sys/database/roles/"@ + n@ == path@,
{
    let r = strip_prefix(path, "sys/database/roles/");
    proof {
        reveal_strlit("sys/database/roles/");
        if r is Some {
            let p: Seq<char> = "sys/database/roles/"@;
            assert(p + path@.skip(p.len() as int) =~= path@);
        }
    }
    r
}

/// The lease duration of credentials of a role: its default lifetime, or
/// an hour.
pub fn lease_duration(role_default_ttl: Option<u64>) -> (d: u64)
    ensures
        d == match role_default_ttl {
            Some(t) => t,
            None => DEFAULT_LEASE_SECONDS,
        },
{
    match role_default_ttl {
        Some(t) => t,
        None => DEFAULT_LEASE_SECONDS,
    }
}

/// The id of a lease of a role, from the UUID that tells it apart: "db_",
/// the role, "_" and the UUID's 32 hexadecimal digits, so that it is one
/// path segment.
pub open spec fn lease_id_text(role_name: Seq<char>, u: u128) -> Seq<char> {
    "db_"@ + role_name + "_"@ + uuid_simple(u)
}

/// The id of a lease of a role, told apart by the UUID `u`.
pub fn lease_id_for(role_name: &str, u: u128) -> (id: String)
    ensures
        id@ == lease_id_text(role_name@, u),
{
    let mut v = concat_str("db_", role_name);
    push_str(&mut v, "_");
    let s = uuid_simple_text(u);
    push_str(&mut v, s.as_str());
    string_from_chars(v.as_slice())
}

/// A fresh lease id for credentials of a role, told apart by a random UUID.
pub fn new_lease_id(role_name: &str) -> (id: String)
    ensures
        exists|u: u128| id@ == lease_id_text(role_name@, u),
{
    let u = random_uuid();
    lease_id_for(role_name, u)
}

/// The kinds of failure that the database engine reports.
#[derive(Debug, Clone, Copy, PartialEq, Eq, Structural)]
pub enum EngineFailure {
    RoleNotFound,
    EngineDisabled,
    InvalidConfiguration,
    UnsupportedDatabaseType,
    RevocationNotImplemented,
    Other,
}

/// The service error answered for an engine failure of credential
/// generation, carrying the engine's message.
pub open spec fn credential_error_spec(kind: EngineFailure, text: Seq<char>) -> (
    HttpStatus,
    Seq<char>,
) {
    match kind {
        EngineFailure::RoleNotFound => (HttpStatus::NotFound, text),
        EngineFailure::EngineDisabled => (HttpStatus::ServiceUnavailable, text),
        EngineFailure::InvalidConfiguration => (HttpStatus::BadRequest, text),
        EngineFailure::UnsupportedDatabaseType => (HttpStatus::BadRequest, text),
        _ => (HttpStatus::InternalServerError, text),
    }
}

/// Maps an engine failure of credential generation to a service error: an
/// unknown role is not found, a disabled engine is unavailable, a bad
/// configuration or database type is the client's fault, anything else is
/// internal.
pub fn credential_error(kind: EngineFailure, text: String) -> (e: DatabaseServiceError)
    ensures
        (db_error_status(e), db_error_text(e)) == credential_error_spec(kind, text@),
{
    match kind {
        EngineFailure::RoleNotFound => DatabaseServiceError::NotFound(text),
        EngineFailure::EngineDisabled => DatabaseServiceError::Unavailable(text),
        EngineFailure::InvalidConfiguration => DatabaseServiceError::BadRequest(text),
        EngineFailure::UnsupportedDatabaseType => DatabaseServiceError::BadRequest(text),
        _ => DatabaseServiceError::Internal(text),
    }
}

/// What revoking a lease makes of the engine's answer to revoking the
/// credentials: success, or a backend that cannot revoke, lets the lease
/// record be deleted; any other failure stops with an internal error and
/// keeps the record for a retry.
pub fn revocation_outcome(engine: Result<(), (EngineFailure, String)>) -> (r: Result<
    (),
    DatabaseServiceError,
>)
    ensures
        match engine {
            Ok(()) => r is Ok,
            Err((k, t)) => if k == EngineFailure::RevocationNotImplemented {
                r is Ok
            } else {
                r matches Err(e) && e is Internal && db_error_text(e) == "Database revocation failed: "@
                    + t@
            },
        },
{
    match engine {
        Ok(()) => Ok(()),
        Err((k, t)) => {
            if k == EngineFailure::RevocationNotImplemented {
                Ok(())
            } else {
                let mut v = chars_of("Database revocation failed: ");
                push_str(&mut v, t.as_str());
                Err(DatabaseServiceError::Internal(string_from_chars(v.as_slice())))
            }
        },
    }
}

fn quoted_lease_error(lease_id: &str, tail: &str) -> (e: DatabaseServiceError)
    ensures
        e is NotFound,
        db_error_text(e) == "Lease '"@ + lease_id@ + tail@,
{
    let mut v = concat_str("Lease '", lease_id);
    push_str(&mut v, tail);
    DatabaseServiceError::NotFound(string_from_chars(v.as_slice()))
}

/// The error for a lease that is not stored.
pub fn lease_not_found(lease_id: &str) -> (e: DatabaseServiceError)
    ensures
        e is NotFound,
        db_error_text(e) == "Lease '"@ + lease_id@ + "' not found"@,
{
    quoted_lease_error(lease_id, "' not found")
}

/// The error for a lease record that was gone when it was to be deleted.
pub fn lease_vanished(lease_id: &str) -> (e: DatabaseServiceError)
    ensures
        e is NotFound,
        db_error_text(e) == "Lease '"@ + lease_id@ + "' not found during deletion"@,
{
    quoted_lease_error(lease_id, "' not found during deletion")
}

/// The database user named by a lease record, which revocation needs.
pub fn lease_username(username: Option<String>) -> (r: Result<String, DatabaseServiceError>)
    ensures
        match username {
            Some(u) => r matches Ok(x) && x@ == u@,
            None => r matches Err(e) && e is Internal && db_error_text(e)
                == "Lease missing username"@,
        },
{
    match username {
        Some(u) => Ok(u),
        None => Err(DatabaseServiceError::Internal(owned("Lease missing username"))),
    }
}

} // verus!
