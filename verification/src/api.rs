//! Request and response types of the security API, the mapping of service
//! errors to HTTP answers, and the MFA checks of the API's own login path.

use vstd::prelude::*;
use crate::admin::meta_lookup;
use crate::auth::UserAccount;
use crate::models::{status_code, HttpStatus};
use crate::text::{chars_of, owned, push_str, seq_contains, seq_ends_with, str_is, string_from_chars};
use crate::totp::{totp_code_valid_at, validate_totp_code_at};

verus! {

/// A login through the security API.
#[derive(Debug)]
pub struct AuthenticationRequest {
    pub user_id: String,
    pub mfa_responses: Vec<MfaResponse>,
    pub client_info: ClientInfo,
}

/// One answer to an MFA challenge.
#[derive(Debug)]
pub struct MfaResponse {
    pub method: String,
    pub response: String,
}

/// What is known of the calling client.
#[derive(Debug)]
pub struct ClientInfo {
    pub ip_address: String,
    pub user_agent: Option<String>,
    pub geo_location: Option<String>,
    pub device_fingerprint: Option<String>,
}

/// The health report of the API.
#[derive(Debug)]
pub struct HealthCheckResponse {
    pub status: String,
    pub version: String,
    pub uptime: u64,
    pub dependencies: HealthCheckDependencies,
}

/// Health of the API's dependencies.
#[derive(Debug)]
pub struct HealthCheckDependencies {
    pub database: String,
    pub cache: String,
    pub crypto: String,
}

/// An HSM operation request.
#[derive(Debug)]
pub struct HsmRequest {
    pub session_id: String,
    pub operation: HsmOperation,
}

/// Operations of the HSM endpoint.
#[derive(Debug)]
pub enum HsmOperation {
    GenerateKey { algorithm: String, key_size: u32 },
    ListKeys,
    GetKeyInfo { key_id: String },
    DeleteKey { key_id: String },
    Encrypt { key_id: String, data: Vec<u8> },
    Decrypt { key_id: String, ciphertext: Vec<u8> },
}

/// The security API; its components are reached through their modules.
#[derive(Debug)]
pub struct SecurityAPI {}

impl SecurityAPI {
    /// A security API.
    pub fn new() -> (s: Self)
        ensures
            s == (SecurityAPI {}),
    {
        SecurityAPI {}
    }
}

/// The version the health report gives.
pub const API_VERSION: &'static str = "2.0.1";

/// The health report from the storage backend's health check
/// (`response_time_text` is its response time as the report prints it).
pub fn health_response(
    is_healthy: bool,
    backend_type: &str,
    response_time_text: &str,
    last_error: Option<String>,
    uptime: u64,
) -> (r: HealthCheckResponse)
    ensures
        r.status@ == (if is_healthy {
            "healthy"@
        } else {
            "unhealthy"@
        }),
        r.version@ == API_VERSION@,
        r.uptime == uptime,
        r.dependencies.database@ == (if is_healthy {
            backend_type@ + " (Healthy, "@ + response_time_text@ + "ms)"@
        } else {
            backend_type@ + " (Unhealthy: "@ + crate::text::text_or_empty(last_error) + ")"@
        }),
        r.dependencies.cache@ == "Local (Operational)"@,
        r.dependencies.crypto@ == "RustCrypto (Operational)"@,
{
    let mut db = chars_of(backend_type);
    if is_healthy {
        push_str(&mut db, " (Healthy, ");
        push_str(&mut db, response_time_text);
        push_str(&mut db, "ms)");
    } else {
        push_str(&mut db, " (Unhealthy: ");
        let e = crate::text::string_or_empty(last_error);
        push_str(&mut db, e.as_str());
        push_str(&mut db, ")");
    }
    HealthCheckResponse {
        status: if is_healthy {
            owned("healthy")
        } else {
            owned("unhealthy")
        },
        version: owned(API_VERSION),
        uptime,
        dependencies: HealthCheckDependencies {
            database: string_from_chars(db.as_slice()),
            cache: owned("Local (Operational)"),
            crypto: owned("RustCrypto (Operational)"),
        },
    }
}

/// The errors the services report to the HTTP layer.
#[derive(Debug)]
pub enum ServiceError {
    Authentication { message: String },
    Authorization { message: String },
    NotFound { resource: String },
    Validation { message: String },
    Internal { message: String },
    Configuration { message: String },
    Network { message: String },
    Parse { message: String },
    ServiceUnavailable { service: String },
    AlreadyExists { resource: String },
    Conflict { message: String },
    MfaRequired,
    AccountLocked { username: String },
    PasswordExpired { username: String },
    RateLimitExceeded { message: String },
    MfaNotConfigured { username: String },
    SecurityViolation { message: String },
    InsufficientPermissions { message: String },
    InvalidInput { message: String },
    Other { message: String },
}

/// The status and message an error is answered with by the router.
pub open spec fn error_answer(e: ServiceError) -> (HttpStatus, Seq<char>) {
    match e {
        ServiceError::Authentication { message } => (HttpStatus::Unauthorized, message@),
        ServiceError::Authorization { message } => (HttpStatus::Forbidden, message@),
        ServiceError::NotFound { resource } => (
            HttpStatus::NotFound,
            "Resource not found: "@ + resource@,
        ),
        ServiceError::Validation { message } => (HttpStatus::BadRequest, message@),
        ServiceError::Internal { message } => (HttpStatus::InternalServerError, message@),
        ServiceError::Configuration { message } => (
            HttpStatus::InternalServerError,
            "Configuration error: "@ + message@,
        ),
        ServiceError::Network { message } => (HttpStatus::BadGateway, message@),
        ServiceError::Parse { message } => (HttpStatus::BadRequest, message@),
        ServiceError::ServiceUnavailable { service } => (
            HttpStatus::ServiceUnavailable,
            "Service unavailable: "@ + service@,
        ),
        ServiceError::AlreadyExists { resource } => (
            HttpStatus::Conflict,
            "Resource already exists: "@ + resource@,
        ),
        ServiceError::Conflict { message } => (HttpStatus::Conflict, message@),
        ServiceError::MfaRequired => (HttpStatus::Unauthorized, "MFA required"@),
        ServiceError::AccountLocked { username } => (
            HttpStatus::Forbidden,
            "Account locked: "@ + username@,
        ),
        ServiceError::PasswordExpired { username } => (
            HttpStatus::Forbidden,
            "Password expired: "@ + username@,
        ),
        ServiceError::RateLimitExceeded { message } => (
            HttpStatus::TooManyRequests,
            "Rate limit exceeded: "@ + message@,
        ),
        ServiceError::MfaNotConfigured { .. } => (HttpStatus::Unauthorized, "Invalid credentials"@),
        _ => (HttpStatus::InternalServerError, "Unknown error"@),
    }
}

fn prefixed(a: &str, b: &String) -> (s: String)
    ensures
        s@ == a@ + b@,
{
    let mut v = chars_of(a);
    push_str(&mut v, b.as_str());
    string_from_chars(v.as_slice())
}

/// The status and message an error is answered with; a missing MFA
/// enrollment is answered exactly as a wrong password ("Invalid
/// credentials") so that it does not confirm the password.
pub fn error_response(e: &ServiceError) -> (r: (HttpStatus, String))
    ensures
        (r.0, r.1@) == error_answer(*e),
{
    match e {
        ServiceError::Authentication { message } => (HttpStatus::Unauthorized, message.clone()),
        ServiceError::Authorization { message } => (HttpStatus::Forbidden, message.clone()),
        ServiceError::NotFound { resource } => (
            HttpStatus::NotFound,
            prefixed("Resource not found: ", resource),
        ),
        ServiceError::Validation { message } => (HttpStatus::BadRequest, message.clone()),
        ServiceError::Internal { message } => (HttpStatus::InternalServerError, message.clone()),
        ServiceError::Configuration { message } => (
            HttpStatus::InternalServerError,
            prefixed("Configuration error: ", message),
        ),
        ServiceError::Network { message } => (HttpStatus::BadGateway, message.clone()),
        ServiceError::Parse { message } => (HttpStatus::BadRequest, message.clone()),
        ServiceError::ServiceUnavailable { service } => (
            HttpStatus::ServiceUnavailable,
            prefixed("Service unavailable: ", service),
        ),
        ServiceError::AlreadyExists { resource } => (
            HttpStatus::Conflict,
            prefixed("Resource already exists: ", resource),
        ),
        ServiceError::Conflict { message } => (HttpStatus::Conflict, message.clone()),
        ServiceError::MfaRequired => (HttpStatus::Unauthorized, owned("MFA required")),
        ServiceError::AccountLocked { username } => (
            HttpStatus::Forbidden,
            prefixed("Account locked: ", username),
        ),
        ServiceError::PasswordExpired { username } => (
            HttpStatus::Forbidden,
            prefixed("Password expired: ", username),
        ),
        ServiceError::RateLimitExceeded { message } => (
            HttpStatus::TooManyRequests,
            prefixed("Rate limit exceeded: ", message),
        ),
        ServiceError::MfaNotConfigured { .. } => (
            HttpStatus::Unauthorized,
            owned("Invalid credentials"),
        ),
        _ => (HttpStatus::InternalServerError, owned("Unknown error")),
    }
}

/// The status and generic message a rejected API error is answered with by
/// the security server.
pub open spec fn rejection_answer(e: ServiceError) -> (HttpStatus, Seq<char>) {
    match e {
        ServiceError::SecurityViolation { .. } => (
            HttpStatus::Forbidden,
            "Security validation failed"@,
        ),
        ServiceError::Authentication { .. } => (HttpStatus::Unauthorized, "Authentication required"@),
        ServiceError::Authorization { .. } => (HttpStatus::Forbidden, "Insufficient permissions"@),
        ServiceError::InsufficientPermissions { .. } => (
            HttpStatus::Forbidden,
            "Insufficient permissions"@,
        ),
        ServiceError::Validation { .. } => (HttpStatus::BadRequest, "Invalid request format"@),
        ServiceError::InvalidInput { .. } => (HttpStatus::BadRequest, "Invalid request format"@),
        ServiceError::MfaRequired => (HttpStatus::Unauthorized, "MFA required"@),
        ServiceError::MfaNotConfigured { .. } => (HttpStatus::Unauthorized, "Authentication required"@),
        _ => (HttpStatus::InternalServerError, "Internal server error"@),
    }
}

/// The status and message of a rejected API error.
pub fn rejection_response(e: &ServiceError) -> (r: (HttpStatus, String))
    ensures
        (r.0, r.1@) == rejection_answer(*e),
{
    match e {
        ServiceError::SecurityViolation { .. } => (
            HttpStatus::Forbidden,
            owned("Security validation failed"),
        ),
        ServiceError::Authentication { .. } => (
            HttpStatus::Unauthorized,
            owned("Authentication required"),
        ),
        ServiceError::Authorization { .. } => (
            HttpStatus::Forbidden,
            owned("Insufficient permissions"),
        ),
        ServiceError::InsufficientPermissions { .. } => (
            HttpStatus::Forbidden,
            owned("Insufficient permissions"),
        ),
        ServiceError::Validation { .. } => (HttpStatus::BadRequest, owned("Invalid request format")),
        ServiceError::InvalidInput { .. } => (
            HttpStatus::BadRequest,
            owned("Invalid request format"),
        ),
        ServiceError::MfaRequired => (HttpStatus::Unauthorized, owned("MFA required")),
        ServiceError::MfaNotConfigured { .. } => (
            HttpStatus::Unauthorized,
            owned("Authentication required"),
        ),
        _ => (HttpStatus::InternalServerError, owned("Internal server error")),
    }
}

/// Why a request to the security server was rejected, as its rejection
/// handler tells the causes apart.
#[derive(Debug)]
pub enum RejectionCause {
    /// No route matched the request.
    NotFound,
    /// A service error raised by a handler.
    Api(ServiceError),
    /// The request body was not valid JSON for the endpoint.
    BadJson,
    /// The route exists but not for this method.
    MethodNotAllowed,
    /// Any other rejection.
    Unhandled,
}

/// The numeric status and generic message a rejection is answered with.
pub open spec fn rejection_cause_answer(c: RejectionCause) -> (u16, Seq<char>) {
    match c {
        RejectionCause::NotFound => (404, "Endpoint not found"@),
        RejectionCause::Api(e) => (status_code(rejection_answer(e).0), rejection_answer(e).1),
        RejectionCause::BadJson => (400, "Invalid JSON format"@),
        RejectionCause::MethodNotAllowed => (405, "Method not allowed"@),
        RejectionCause::Unhandled => (500, "Internal server error"@),
    }
}

/// Answers a rejected request: the numeric status and a failed envelope
/// carrying only the generic message of its cause (never the details of an
/// internal error). It never fails.
pub fn handle_rejection(c: &RejectionCause) -> (r: (u16, ApiResponse<()>))
    ensures
        r.0 == rejection_cause_answer(*c).0,
        !r.1.success,
        r.1.data is None,
        r.1.error matches Some(m) && m@ == rejection_cause_answer(*c).1,
{
    let (code, message) = match c {
        RejectionCause::NotFound => (404u16, owned("Endpoint not found")),
        RejectionCause::Api(e) => {
            let (st, m) = rejection_response(e);
            (st.code(), m)
        },
        RejectionCause::BadJson => (400u16, owned("Invalid JSON format")),
        RejectionCause::MethodNotAllowed => (405u16, owned("Method not allowed")),
        RejectionCause::Unhandled => (500u16, owned("Internal server error")),
    };
    (code, ApiResponse::error(message))
}

/// The verdict on the MFA answers of a login at time `now`: every answer
/// must be a TOTP code valid for the user; the first other method or wrong
/// code ends the check.
pub open spec fn mfa_answers_verdict(
    user_id: Seq<char>,
    answers: Seq<(String, String)>,
    now: u64,
) -> Result<(), Seq<char>>
    decreases answers.len(),
{
    if answers.len() == 0 {
        Ok(())
    } else {
        match mfa_answers_verdict(user_id, answers.drop_last(), now) {
            Err(m) => Err(m),
            Ok(()) => {
                let (method, code) = answers.last();
                if method@ == "totp"@ {
                    if totp_code_valid_at(code@, user_id, now) {
                        Ok(())
                    } else {
                        Err("Invalid TOTP code"@)
                    }
                } else {
                    Err("Unsupported MFA method: "@ + method@)
                }
            },
        }
    }
}

/// Checks the MFA answers of a login at time `now` (Unix seconds).
pub fn check_mfa_answers_at(user_id: &str, answers: &Vec<(String, String)>, now: u64) -> (r: Result<
    (),
    String,
>)
    ensures
        match mfa_answers_verdict(user_id@, answers@, now) {
            Ok(()) => r is Ok,
            Err(m) => r matches Err(x) && x@ == m,
        },
{
    let n = answers.len();
    for i in 0..n
        invariant
            n == answers@.len(),
            mfa_answers_verdict(user_id@, answers@.take(i as int), now) is Ok,
    {
        assert(answers@.take(i + 1).drop_last() =~= answers@.take(i as int));
        assert(answers@.take(i + 1).last() == answers@[i as int]);
        let method = &answers[i].0;
        let code = &answers[i].1;
        if str_is(method.as_str(), "totp") {
            if !validate_totp_code_at(code.as_str(), user_id, now) {
                proof {
                    lemma_verdict_err_extends(user_id@, answers@, (i + 1) as int, now);
                    assert(answers@.take(n as int) =~= answers@);
                }
                return Err(owned("Invalid TOTP code"));
            }
        } else {
            proof {
                lemma_verdict_err_extends(user_id@, answers@, (i + 1) as int, now);
                assert(answers@.take(n as int) =~= answers@);
            }
            return Err(prefixed("Unsupported MFA method: ", method));
        }
    }
    assert(answers@.take(n as int) =~= answers@);
    Ok(())
}

proof fn lemma_verdict_err_extends(u: Seq<char>, a: Seq<(String, String)>, i: int, now: u64)
    requires
        0 <= i <= a.len(),
        mfa_answers_verdict(u, a.take(i), now) is Err,
    ensures
        mfa_answers_verdict(u, a, now) == mfa_answers_verdict(u, a.take(i), now),
    decreases a.len() - i,
{
    if i < a.len() {
        assert(a.take(i + 1).drop_last() =~= a.take(i));
        lemma_verdict_err_extends(u, a, i + 1, now);
    } else {
        assert(a.take(i) =~= a);
    }
}

/// Under the lenient rule of the API router, the path serves MFA
/// enrollment or logout: it contains "/mfa/", or ends with "/mfa" or
/// "/logout".
pub open spec fn lenient_mfa_path(p: Seq<char>) -> bool {
    seq_contains(p, "/mfa/"@) || seq_ends_with(p, "/mfa"@) || seq_ends_with(p, "/logout"@)
}

/// The API router's MFA gate: a user whose MFA enrollment is pending only
/// reaches MFA and logout paths (403 otherwise).
pub fn router_mfa_gate(user: &UserAccount, path: &str) -> (r: Result<(), HttpStatus>)
    ensures
        (meta_lookup(user.metadata@, "mfa_pending"@) == Some("true"@) && !lenient_mfa_path(path@))
            ==> r == Err::<(), HttpStatus>(HttpStatus::Forbidden),
        !(meta_lookup(user.metadata@, "mfa_pending"@) == Some("true"@) && !lenient_mfa_path(
            path@,
        )) ==> r is Ok,
{
    let pending = match crate::admin::meta_get(&user.metadata, "mfa_pending") {
        Some(v) => str_is(v.as_str(), "true"),
        None => false,
    };
    if pending {
        let c = chars_of(path);
        let m1 = chars_of("/mfa/");
        let m2 = chars_of("/mfa");
        let m3 = chars_of("/logout");
        let ok = crate::text::contains(c.as_slice(), m1.as_slice()) || crate::text::ends_with(
            c.as_slice(),
            m2.as_slice(),
        ) || crate::text::ends_with(c.as_slice(), m3.as_slice());
        if !ok {
            return Err(HttpStatus::Forbidden);
        }
    }
    Ok(())
}

/// The envelope of an answer of the security API.
#[derive(Debug)]
pub struct ApiResponse<T> {
    pub success: bool,
    pub data: Option<T>,
    pub error: Option<String>,
    /// When the answer was made, in seconds since the Unix epoch.
    pub timestamp: i64,
}

impl<T> ApiResponse<T> {
    /// A successful answer carrying data.
    pub fn success(data: T) -> (r: Self)
        ensures
            r.success,
            r.data == Some(data),
            r.error is None,
    {
        ApiResponse { success: true, data: Some(data), error: None, timestamp: crate::models::utc_now_seconds() }
    }

    /// A failed answer carrying its message.
    pub fn error(message: String) -> (r: Self)
        ensures
            !r.success,
            r.data is None,
            r.error == Some(message),
    {
        ApiResponse { success: false, data: None, error: Some(message), timestamp: crate::models::utc_now_seconds() }
    }
}

} // verus!
