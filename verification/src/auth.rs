//! Authentication rules: account lockout, MFA enforcement, session timeouts,
//! password policy, token revocation and role-based permissions.
//!
//! The storage reads and writes, password hashing and MFA service calls stay
//! with the caller; every decision the login, authenticate and refresh flows
//! take on the values they read is made here.

use vstd::prelude::*;
use crate::api::ServiceError;
use crate::text::{
    chars_of, concat_str, owned, seq_has_str, str_is, string_from_chars, vec_has_str,
};

verus! {

/// Storage path prefix of user accounts.
pub const USER_STORAGE_PREFIX: &'static str = "users/";

/// Storage path prefix of sessions.
pub const SESSION_STORAGE_PREFIX: &'static str = "sys/auth/sessions/";

/// Failed attempts after which an unprivileged account is locked.
pub const MAX_FAILED_ATTEMPTS: u32 = 5;

/// Lockout duration in seconds (15 minutes).
pub const LOCKOUT_SECONDS: i64 = 900;

/// Smallest session timeout accepted from the dynamic configuration.
pub const MIN_SESSION_TIMEOUT: u64 = 60;

/// Largest session timeout accepted from the dynamic configuration.
pub const MAX_SESSION_TIMEOUT: u64 = 86400;

/// Login request of the API.
#[derive(Debug)]
pub struct ApiLoginRequest {
    pub username: String,
    pub password: String,
    pub mfa_code: Option<String>,
}

/// JWT claims issued by the API.
#[derive(Debug, Clone)]
pub struct Claims {
    /// Subject (user ID).
    pub sub: String,
    pub username: String,
    pub email: String,
    pub roles: Vec<String>,
    /// Issued at.
    pub iat: usize,
    /// Expiration time.
    pub exp: usize,
    /// JWT ID.
    pub jti: String,
    pub iss: String,
    pub aud: String,
}

/// Authentication errors.
#[derive(Debug)]
pub enum AuthError {
    InvalidCredentials,
    UserNotFound,
    UserAlreadyExists,
    InvalidToken,
    TokenExpired,
    MfaRequired,
    InvalidMfaCode,
    MfaNotConfigured(String),
    PermissionDenied,
    Storage(String),
    Crypto(String),
    Internal(String),
}

/// The parts of a stored user account that authentication decides on.
/// Times are Unix seconds.
#[derive(Debug, Clone)]
pub struct UserAccount {
    pub id: String,
    pub username: String,
    pub email: Option<String>,
    pub roles: Vec<String>,
    pub permissions: Vec<String>,
    pub policies: Vec<String>,
    pub disabled: bool,
    pub enabled: bool,
    pub is_active: bool,
    pub is_superuser: bool,
    pub mfa_enabled: bool,
    pub failed_login_attempts: u32,
    pub locked_until: Option<i64>,
    /// Free-form key/value annotations, keys distinct.
    pub metadata: Vec<(String, String)>,
}

/// The value behind an optional reference.
pub open spec fn unref<T>(o: Option<&T>) -> Option<T> {
    match o {
        Some(x) => Some(*x),
        None => None,
    }
}

/// The roles make the account privileged: it holds "admin" or "root".
pub open spec fn privileged_roles(roles: Seq<String>) -> bool {
    seq_has_str(roles, "admin"@) || seq_has_str(roles, "root"@)
}

/// Whether the roles hold "admin" or "root".
pub fn has_privileged_role(roles: &Vec<String>) -> (b: bool)
    ensures
        b == privileged_roles(roles@),
{
    proof {
        reveal_strlit("admin");
        reveal_strlit("root");
    }
    vec_has_str(roles, "admin") || vec_has_str(roles, "root")
}

/// The account is locked at time `now`.
pub open spec fn is_locked_at(u: UserAccount, now: i64) -> bool {
    match u.locked_until {
        Some(t) => t > now,
        None => false,
    }
}

/// The account may not log in: disabled, not enabled or inactive.
pub open spec fn is_unusable(u: UserAccount) -> bool {
    u.disabled || !u.enabled || !u.is_active
}

/// Why a login attempt is turned away before the password is checked.
#[derive(Debug, Clone, Copy, PartialEq, Eq, Structural)]
pub enum LoginDenial {
    /// The root account never logs in with a password.
    RootPasswordLogin,
    /// The account is locked.
    Locked,
    /// The account is disabled or inactive.
    Disabled,
}

/// The denial owed to a login attempt before the password is checked.
pub open spec fn spec_login_precheck(
    username: Seq<char>,
    stored: Option<UserAccount>,
    now: i64,
) -> Option<LoginDenial> {
    if username == "root"@ {
        Some(LoginDenial::RootPasswordLogin)
    } else {
        match stored {
            Some(u) => if is_locked_at(u, now) {
                Some(LoginDenial::Locked)
            } else if is_unusable(u) {
                Some(LoginDenial::Disabled)
            } else {
                None
            },
            None => None,
        }
    }
}

/// Checks made before the password: root never logs in with a password, a
/// locked account is refused, then a disabled or inactive one.
pub fn login_precheck(username: &str, stored: Option<&UserAccount>, now: i64) -> (r: Option<
    LoginDenial,
>)
    ensures
        r == spec_login_precheck(username@, unref(stored), now),
{
    proof {
        reveal_strlit("root");
    }
    if str_is(username, "root") {
        return Some(LoginDenial::RootPasswordLogin);
    }
    match stored {
        Some(u) => {
            let locked = match u.locked_until {
                Some(t) => t > now,
                None => false,
            };
            if locked {
                Some(LoginDenial::Locked)
            } else if u.disabled || !u.enabled || !u.is_active {
                Some(LoginDenial::Disabled)
            } else {
                None
            }
        },
        None => None,
    }
}

/// The message a precheck denial is reported with.
pub fn login_denial_message(d: LoginDenial) -> (m: String)
    ensures
        d == LoginDenial::RootPasswordLogin ==> m@
            == "Root login disabled via password. Use unseal process."@,
        d == LoginDenial::Locked ==> m@ == "Account is locked. Please try again later."@,
        d == LoginDenial::Disabled ==> m@ == "Invalid credentials"@,
{
    match d {
        LoginDenial::RootPasswordLogin => owned(
            "Root login disabled via password. Use unseal process.",
        ),
        LoginDenial::Locked => owned("Account is locked. Please try again later."),
        LoginDenial::Disabled => owned("Invalid credentials"),
    }
}

/// The account after one more failed attempt at time `now`: the counter
/// grows by one and an unprivileged account that reached the limit is
/// locked for fifteen minutes.
pub open spec fn after_failed_attempt(u: UserAccount, now: i64) -> UserAccount {
    let failed = (u.failed_login_attempts + 1) as u32;
    let lock = !privileged_roles(u.roles@) && failed >= MAX_FAILED_ATTEMPTS;
    UserAccount {
        failed_login_attempts: failed,
        locked_until: if lock { Some((now + LOCKOUT_SECONDS) as i64) } else { u.locked_until },
        ..u
    }
}

/// Records a failed password or MFA attempt. Returns whether the account
/// was locked by this attempt.
pub fn record_failed_attempt(user: &mut UserAccount, now: i64) -> (locked: bool)
    requires
        old(user).failed_login_attempts < u32::MAX,
        now <= i64::MAX - LOCKOUT_SECONDS,
    ensures
        *final(user) == after_failed_attempt(*old(user), now),
        locked == (!privileged_roles(old(user).roles@) && old(user).failed_login_attempts + 1
            >= MAX_FAILED_ATTEMPTS),
{
    user.failed_login_attempts = user.failed_login_attempts + 1;
    let privileged = has_privileged_role(&user.roles);
    if !privileged && user.failed_login_attempts >= MAX_FAILED_ATTEMPTS {
        user.locked_until = Some(now + LOCKOUT_SECONDS);
        true
    } else {
        false
    }
}

/// The account after a successful login: the failure counter and lock are
/// cleared.
pub open spec fn after_success(u: UserAccount) -> UserAccount {
    UserAccount { failed_login_attempts: 0, locked_until: None, ..u }
}

/// Clears the failure counter and lock after a successful login. Returns
/// whether anything changed (and must be written back).
pub fn reset_after_success(user: &mut UserAccount) -> (changed: bool)
    ensures
        *final(user) == after_success(*old(user)),
        changed == (old(user).failed_login_attempts > 0 || old(user).locked_until is Some),
{
    let changed = user.failed_login_attempts > 0 || user.locked_until.is_some();
    user.failed_login_attempts = 0;
    user.locked_until = None;
    changed
}

/// Whether the account must be written back after a successful login: it
/// was not stored yet, or its counter or lock had to be cleared.
pub fn login_should_persist(entry_exists: bool, before: &UserAccount) -> (b: bool)
    ensures
        b == (!entry_exists || before.failed_login_attempts > 0 || before.locked_until is Some),
{
    !entry_exists || before.failed_login_attempts > 0 || before.locked_until.is_some()
}

/// What reading a user's stored record gave.
#[derive(Debug)]
pub enum UserRecordRead {
    /// The record was read and decoded.
    Stored(UserAccount),
    /// No record is stored under the user's path.
    Absent,
    /// The storage read failed, with its message.
    StorageFailed(String),
    /// The record was read but could not be decrypted or decoded.
    DecodeFailed(String),
}

/// The first step of `authenticate`, before any password check: root never
/// authenticates with a password; a failed storage read fails closed with a
/// storage error and an undecodable record with an internal error; a locked,
/// disabled or inactive account gets the same invalid-credentials answer as
/// a wrong password.  Otherwise the stored account (if any) goes on to the
/// password check.
pub open spec fn authenticate_gate(username: Seq<char>, read: UserRecordRead, now: i64) -> Result<
    Option<UserAccount>,
    AuthError,
> {
    if username == "root"@ {
        Err(AuthError::InvalidCredentials)
    } else {
        match read {
            UserRecordRead::StorageFailed(e) => Err(AuthError::Storage(e)),
            UserRecordRead::DecodeFailed(e) => Err(AuthError::Internal(e)),
            UserRecordRead::Absent => Ok(None),
            UserRecordRead::Stored(u) => if spec_login_precheck(username, Some(u), now) is Some {
                Err(AuthError::InvalidCredentials)
            } else {
                Ok(Some(u))
            },
        }
    }
}

/// Decides the first step of `authenticate` from the stored-record read at
/// time `now`.
pub fn authenticate_precheck(username: &str, read: UserRecordRead, now: i64) -> (r: Result<
    Option<UserAccount>,
    AuthError,
>)
    ensures
        r == authenticate_gate(username@, read, now),
{
    proof {
        reveal_strlit("root");
    }
    if str_is(username, "root") {
        return Err(AuthError::InvalidCredentials);
    }
    match read {
        UserRecordRead::StorageFailed(e) => Err(AuthError::Storage(e)),
        UserRecordRead::DecodeFailed(e) => Err(AuthError::Internal(e)),
        UserRecordRead::Absent => Ok(None),
        UserRecordRead::Stored(u) => {
            if login_precheck(username, Some(&u), now).is_some() {
                Err(AuthError::InvalidCredentials)
            } else {
                Ok(Some(u))
            }
        },
    }
}

/// The step of `authenticate` after the password check: a wrong password is
/// answered with invalid credentials and, for a stored account, one more
/// failed attempt is to be written back; a right password goes on to MFA.
pub fn authenticate_password_step(stored: Option<UserAccount>, password_ok: bool, now: i64) -> (r: (
    Result<(), AuthError>,
    Option<UserAccount>,
))
    requires
        stored matches Some(u) ==> u.failed_login_attempts < u32::MAX,
        now <= i64::MAX - LOCKOUT_SECONDS,
    ensures
        password_ok ==> r.0 is Ok && r.1 is None,
        !password_ok ==> r.0 == Err::<(), AuthError>(AuthError::InvalidCredentials),
        !password_ok ==> r.1 == match stored {
            Some(u) => Some(after_failed_attempt(u, now)),
            None => None::<UserAccount>,
        },
{
    if password_ok {
        return (Ok(()), None);
    }
    match stored {
        Some(u) => {
            let mut u = u;
            let _ = record_failed_attempt(&mut u, now);
            (Err(AuthError::InvalidCredentials), Some(u))
        },
        None => (Err(AuthError::InvalidCredentials), None),
    }
}

/// The step of `authenticate` after MFA enforcement: a refused login gets
/// the MFA error, and only a rejected code counts as one more failed attempt
/// of a stored account; an admitted login clears a stored account's failure
/// counter and lock, which is written back only when something changed.
pub fn authenticate_mfa_step(
    stored: Option<UserAccount>,
    outcome: MfaOutcome,
    username: &str,
    now: i64,
) -> (r: (Result<(), AuthError>, Option<UserAccount>))
    requires
        stored matches Some(u) ==> u.failed_login_attempts < u32::MAX,
        now <= i64::MAX - LOCKOUT_SECONDS,
    ensures
        mfa_allows(outcome) ==> r.0 is Ok,
        !mfa_allows(outcome) ==> (r.0 matches Err(e) && is_mfa_error(e, outcome, username@)),
        r.1 == match stored {
            Some(u) => if !mfa_allows(outcome) {
                if outcome == MfaOutcome::InvalidCode {
                    Some(after_failed_attempt(u, now))
                } else {
                    None::<UserAccount>
                }
            } else if u.failed_login_attempts > 0 || u.locked_until is Some {
                Some(after_success(u))
            } else {
                None::<UserAccount>
            },
            None => None::<UserAccount>,
        },
{
    match mfa_error(outcome, username) {
        Some(e) => {
            let persist = match stored {
                Some(u) => {
                    if mfa_counts_as_failure(outcome) {
                        let mut u = u;
                        let _ = record_failed_attempt(&mut u, now);
                        Some(u)
                    } else {
                        None
                    }
                },
                None => None,
            };
            (Err(e), persist)
        },
        None => {
            let persist = match stored {
                Some(u) => {
                    let mut u = u;
                    if reset_after_success(&mut u) {
                        Some(u)
                    } else {
                        None
                    }
                },
                None => None,
            };
            (Ok(()), persist)
        },
    }
}

/// `r` is the answer of the API login to the authentication error `e`:
/// MFA errors keep their kind, a rejected code and every other error become
/// an authentication failure carrying the error's message, and an internal
/// MFA failure a configuration error.
pub open spec fn is_login_error(r: ServiceError, e: AuthError) -> bool {
    match e {
        AuthError::MfaRequired => r is MfaRequired,
        AuthError::MfaNotConfigured(u) => r matches ServiceError::MfaNotConfigured { username }
            && username@ == u@,
        AuthError::Internal(m) => r matches ServiceError::Configuration { message } && message@
            == m@,
        _ => r matches ServiceError::Authentication { message } && message@ == auth_error_text(e),
    }
}

/// The text of an authentication error.
pub open spec fn auth_error_text(e: AuthError) -> Seq<char> {
    match e {
        AuthError::InvalidCredentials => "Invalid credentials"@,
        AuthError::UserNotFound => "User not found"@,
        AuthError::UserAlreadyExists => "User already exists"@,
        AuthError::InvalidToken => "Invalid token"@,
        AuthError::TokenExpired => "Token expired"@,
        AuthError::MfaRequired => "MFA required"@,
        AuthError::InvalidMfaCode => "Invalid MFA code"@,
        AuthError::MfaNotConfigured(u) => "MFA not configured for user '"@ + u@
            + "'; please enroll in MFA before logging in"@,
        AuthError::PermissionDenied => "Permission denied"@,
        AuthError::Storage(m) => "Storage error: "@ + m@,
        AuthError::Crypto(m) => "Crypto error: "@ + m@,
        AuthError::Internal(m) => m@,
    }
}

/// The text of an authentication error.
pub fn auth_error_message(e: &AuthError) -> (m: String)
    ensures
        m@ == auth_error_text(*e),
{
    match e {
        AuthError::InvalidCredentials => owned("Invalid credentials"),
        AuthError::UserNotFound => owned("User not found"),
        AuthError::UserAlreadyExists => owned("User already exists"),
        AuthError::InvalidToken => owned("Invalid token"),
        AuthError::TokenExpired => owned("Token expired"),
        AuthError::MfaRequired => owned("MFA required"),
        AuthError::InvalidMfaCode => owned("Invalid MFA code"),
        AuthError::MfaNotConfigured(u) => {
            let a = concat_str("MFA not configured for user '", u.as_str());
            let mut v = a;
            let b = chars_of("'; please enroll in MFA before logging in");
            let mut i: usize = 0;
            let ghost a0 = v@;
            while i < b.len()
                invariant
                    i <= b@.len(),
                    v@ == a0 + b@.take(i as int),
                decreases b@.len() - i,
            {
                v.push(b[i]);
                assert(b@.take(i + 1) == b@.take(i as int).push(b@[i as int]));
                i = i + 1;
            }
            assert(b@.take(b@.len() as int) == b@);
            string_from_chars(v.as_slice())
        },
        AuthError::PermissionDenied => owned("Permission denied"),
        AuthError::Storage(m) => string_from_chars(concat_str("Storage error: ", m.as_str()).as_slice()),
        AuthError::Crypto(m) => string_from_chars(concat_str("Crypto error: ", m.as_str()).as_slice()),
        AuthError::Internal(m) => m.clone(),
    }
}

/// Maps an authentication error to the answer of the API login.
pub fn login_error(e: AuthError) -> (r: ServiceError)
    ensures
        is_login_error(r, e),
{
    match e {
        AuthError::MfaRequired => ServiceError::MfaRequired,
        AuthError::MfaNotConfigured(u) => ServiceError::MfaNotConfigured { username: u },
        AuthError::Internal(m) => ServiceError::Configuration { message: m },
        other => ServiceError::Authentication { message: auth_error_message(&other) },
    }
}

/// The first step of the API login, before the password check, with
/// whether a user record is stored: root never logs in with a password; a
/// failed storage read fails closed with a generic internal error; an
/// undecodable record is passed over (the record exists, no account is
/// known); a locked account is told so, and a disabled or inactive one gets
/// invalid credentials.
pub open spec fn login_gate(username: Seq<char>, read: UserRecordRead, now: i64) -> Result<
    (Option<UserAccount>, bool),
    Seq<char>,
> {
    if username == "root"@ {
        Err("Root login disabled via password. Use unseal process."@)
    } else {
        match read {
            UserRecordRead::StorageFailed(_) => Err(
                "An internal error occurred during authentication"@,
            ),
            UserRecordRead::DecodeFailed(_) => Ok((None, true)),
            UserRecordRead::Absent => Ok((None, false)),
            UserRecordRead::Stored(u) => if is_locked_at(u, now) {
                Err("Account is locked. Please try again later."@)
            } else if is_unusable(u) {
                Err("Invalid credentials"@)
            } else {
                Ok((Some(u), true))
            },
        }
    }
}

/// Decides the first step of the API login; a refusal is an internal error
/// for a failed read and an authentication failure otherwise.
pub fn login_step_precheck(username: &str, read: UserRecordRead, now: i64) -> (r: Result<
    (Option<UserAccount>, bool),
    ServiceError,
>)
    ensures
        match login_gate(username@, read, now) {
            Ok(x) => r == Ok::<(Option<UserAccount>, bool), ServiceError>(x),
            Err(m) => if read is StorageFailed && username@ != "root"@ {
                r matches Err(ServiceError::Internal { message }) && message@ == m
            } else {
                r matches Err(ServiceError::Authentication { message }) && message@ == m
            },
        },
{
    proof {
        reveal_strlit("root");
    }
    if str_is(username, "root") {
        return Err(
            ServiceError::Authentication {
                message: owned("Root login disabled via password. Use unseal process."),
            },
        );
    }
    match read {
        UserRecordRead::StorageFailed(_) => Err(
            ServiceError::Internal {
                message: owned("An internal error occurred during authentication"),
            },
        ),
        UserRecordRead::DecodeFailed(_) => Ok((None, true)),
        UserRecordRead::Absent => Ok((None, false)),
        UserRecordRead::Stored(u) => {
            match login_precheck(username, Some(&u), now) {
                Some(d) => Err(ServiceError::Authentication { message: login_denial_message(d) }),
                None => Ok((Some(u), true)),
            }
        },
    }
}

/// The step of the API login after MFA enforcement, for the account `user`
/// (the stored one, or the one built from the identity service) and whether
/// its record is stored: a refused login gets the mapped MFA error, and a
/// rejected code counts as one more failed attempt, written back when the
/// record is stored; an admitted login clears the counter and lock and
/// writes the account back when it was not stored or something changed.
pub fn login_mfa_step(
    user: UserAccount,
    entry_exists: bool,
    outcome: MfaOutcome,
    username: &str,
    now: i64,
) -> (r: (Result<(), ServiceError>, Option<UserAccount>))
    requires
        user.failed_login_attempts < u32::MAX,
        now <= i64::MAX - LOCKOUT_SECONDS,
    ensures
        mfa_allows(outcome) ==> r.0 is Ok,
        !mfa_allows(outcome) ==> (r.0 matches Err(x) && exists|e: AuthError|
            is_mfa_error(e, outcome, username@) && #[trigger] is_login_error(x, e)),
        r.1 == if !mfa_allows(outcome) {
            if outcome == MfaOutcome::InvalidCode && entry_exists {
                Some(after_failed_attempt(user, now))
            } else {
                None::<UserAccount>
            }
        } else if !entry_exists || user.failed_login_attempts > 0 || user.locked_until is Some {
            Some(after_success(user))
        } else {
            None::<UserAccount>
        },
{
    match mfa_error(outcome, username) {
        Some(e) => {
            let ghost ge = e;
            let persist = if mfa_counts_as_failure(outcome) && entry_exists {
                let mut u = user;
                let _ = record_failed_attempt(&mut u, now);
                Some(u)
            } else {
                None
            };
            let x = login_error(e);
            assert(is_mfa_error(ge, outcome, username@) && is_login_error(x, ge));
            (Err(x), persist)
        },
        None => {
            let persist_needed = login_should_persist(entry_exists, &user);
            let mut u = user;
            let _ = reset_after_success(&mut u);
            if persist_needed {
                (Ok(()), Some(u))
            } else {
                (Ok(()), None)
            }
        },
    }
}

/// What MFA enforcement concludes for one login.
#[derive(Debug, Clone, Copy, PartialEq, Eq, Structural)]
pub enum MfaOutcome {
    /// MFA is not required for this login.
    NotRequired,
    /// A valid code was presented.
    Verified,
    /// Privileged user without MFA yet: trusted on first use.
    TrustOnFirstUse,
    /// MFA is configured but no code was sent.
    CodeRequired,
    /// The code was rejected.
    InvalidCode,
    /// MFA is required globally and the user has not enrolled.
    NotConfigured,
    /// Privileged login while no MFA service is registered.
    ServiceMissingForPrivileged,
    /// Global MFA while no MFA service is registered.
    ServiceMissingForGlobal,
}

/// MFA enforcement as a function of the answers of the MFA service:
/// `configured` is the answer to "does this user have MFA" (`None` when the
/// service failed, which counts as configured), `code_present` whether a
/// code came with the request and `code_valid` the service's verdict on it.
pub open spec fn spec_mfa_outcome(
    is_privileged: bool,
    global_mfa: bool,
    service_present: bool,
    configured: Option<bool>,
    code_present: bool,
    code_valid: bool,
) -> MfaOutcome {
    if !(is_privileged || global_mfa) {
        MfaOutcome::NotRequired
    } else if !service_present {
        if is_privileged {
            MfaOutcome::ServiceMissingForPrivileged
        } else {
            MfaOutcome::ServiceMissingForGlobal
        }
    } else if configured.unwrap_or(true) {
        if !code_present {
            MfaOutcome::CodeRequired
        } else if code_valid {
            MfaOutcome::Verified
        } else {
            MfaOutcome::InvalidCode
        }
    } else if is_privileged {
        MfaOutcome::TrustOnFirstUse
    } else {
        MfaOutcome::NotConfigured
    }
}

/// Decides MFA for one login from the MFA service's answers.
pub fn enforce_mfa(
    is_privileged: bool,
    global_mfa: bool,
    service_present: bool,
    configured: Option<bool>,
    code_present: bool,
    code_valid: bool,
) -> (o: MfaOutcome)
    ensures
        o == spec_mfa_outcome(
            is_privileged,
            global_mfa,
            service_present,
            configured,
            code_present,
            code_valid,
        ),
{
    if !(is_privileged || global_mfa) {
        return MfaOutcome::NotRequired;
    }
    if !service_present {
        return if is_privileged {
            MfaOutcome::ServiceMissingForPrivileged
        } else {
            MfaOutcome::ServiceMissingForGlobal
        };
    }
    let is_configured = match configured {
        Some(b) => b,
        None => true,
    };
    if is_configured {
        if !code_present {
            MfaOutcome::CodeRequired
        } else if code_valid {
            MfaOutcome::Verified
        } else {
            MfaOutcome::InvalidCode
        }
    } else if is_privileged {
        MfaOutcome::TrustOnFirstUse
    } else {
        MfaOutcome::NotConfigured
    }
}

/// The login may proceed after MFA enforcement.
pub open spec fn mfa_allows(o: MfaOutcome) -> bool {
    o == MfaOutcome::NotRequired || o == MfaOutcome::Verified || o == MfaOutcome::TrustOnFirstUse
}

/// Whether the login may proceed after MFA enforcement.
pub fn mfa_passed(o: MfaOutcome) -> (b: bool)
    ensures
        b == mfa_allows(o),
{
    match o {
        MfaOutcome::NotRequired | MfaOutcome::Verified | MfaOutcome::TrustOnFirstUse => true,
        _ => false,
    }
}

/// Only a rejected code counts toward the lockout; a missing code or a
/// missing enrollment does not.
pub fn mfa_counts_as_failure(o: MfaOutcome) -> (b: bool)
    ensures
        b == (o == MfaOutcome::InvalidCode),
{
    match o {
        MfaOutcome::InvalidCode => true,
        _ => false,
    }
}

/// `e` is the error MFA enforcement reports for the refusing outcome `o`.
pub open spec fn is_mfa_error(e: AuthError, o: MfaOutcome, username: Seq<char>) -> bool {
    match o {
        MfaOutcome::CodeRequired => e == AuthError::MfaRequired,
        MfaOutcome::InvalidCode => e == AuthError::InvalidMfaCode,
        MfaOutcome::NotConfigured => e matches AuthError::MfaNotConfigured(u) && u@ == username,
        MfaOutcome::ServiceMissingForPrivileged => e matches AuthError::Internal(m) && m@
            == "MFA service not configured but required for privileged access"@,
        MfaOutcome::ServiceMissingForGlobal => e matches AuthError::Internal(m) && m@
            == "MFA service not configured but global MFA is enabled; please contact your administrator"@,
        _ => false,
    }
}

/// The error MFA enforcement reports for a refused login.
pub fn mfa_error(o: MfaOutcome, username: &str) -> (e: Option<AuthError>)
    ensures
        mfa_allows(o) <==> e is None,
        e matches Some(x) ==> is_mfa_error(x, o, username@),
        o == MfaOutcome::CodeRequired ==> e == Some(AuthError::MfaRequired),
        o == MfaOutcome::InvalidCode ==> e == Some(AuthError::InvalidMfaCode),
        o == MfaOutcome::NotConfigured ==> (e matches Some(AuthError::MfaNotConfigured(u))
            && u@ == username@),
        o == MfaOutcome::ServiceMissingForPrivileged ==> (e matches Some(AuthError::Internal(m))
            && m@ == "MFA service not configured but required for privileged access"@),
        o == MfaOutcome::ServiceMissingForGlobal ==> (e matches Some(AuthError::Internal(m))
            && m@
            == "MFA service not configured but global MFA is enabled; please contact your administrator"@),
{
    match o {
        MfaOutcome::NotRequired | MfaOutcome::Verified | MfaOutcome::TrustOnFirstUse => None,
        MfaOutcome::CodeRequired => Some(AuthError::MfaRequired),
        MfaOutcome::InvalidCode => Some(AuthError::InvalidMfaCode),
        MfaOutcome::NotConfigured => Some(AuthError::MfaNotConfigured(owned(username))),
        MfaOutcome::ServiceMissingForPrivileged => Some(
            AuthError::Internal(owned("MFA service not configured but required for privileged access")),
        ),
        MfaOutcome::ServiceMissingForGlobal => Some(
            AuthError::Internal(
                owned(
                    "MFA service not configured but global MFA is enabled; please contact your administrator",
                ),
            ),
        ),
    }
}

/// A JSON value of the stored system configuration, as far as the rules
/// read it.
#[derive(Debug, Clone, PartialEq, Eq, Structural)]
pub enum ConfigValue {
    /// The key is absent.
    Absent,
    /// A boolean.
    Bool(bool),
    /// A non-negative integer that fits in 64 bits.
    UInt(u64),
    /// Any other JSON value (string, negative or fractional number, ...).
    Other,
}

/// The system configuration keys that authentication reads.
#[derive(Debug, Clone)]
pub struct AuthConfigSnapshot {
    pub session_timeout: ConfigValue,
    pub enable_mfa: ConfigValue,
    pub password_policy_min_length: ConfigValue,
    pub password_policy_require_uppercase: ConfigValue,
    pub password_policy_require_lowercase: ConfigValue,
    pub password_policy_require_numbers: ConfigValue,
    pub password_policy_require_special: ConfigValue,
}

/// The session timeout and MFA switch in force: the stored configuration
/// overrides the static defaults, a timeout only within 60..=86400 seconds.
pub open spec fn spec_effective_config(
    static_timeout: u64,
    static_mfa: bool,
    stored: Option<AuthConfigSnapshot>,
) -> (u64, bool) {
    match stored {
        None => (static_timeout, static_mfa),
        Some(c) => {
            let timeout = match c.session_timeout {
                ConfigValue::UInt(t) => if MIN_SESSION_TIMEOUT <= t <= MAX_SESSION_TIMEOUT {
                    t
                } else {
                    static_timeout
                },
                _ => static_timeout,
            };
            let mfa = match c.enable_mfa {
                ConfigValue::Bool(b) => b,
                _ => static_mfa,
            };
            (timeout, mfa)
        },
    }
}

/// Merges the stored configuration (`None` when absent, unreadable or not
/// JSON) into the static session timeout and MFA switch.
pub fn effective_config(static_timeout: u64, static_mfa: bool, stored: Option<&AuthConfigSnapshot>) -> (r: (
    u64,
    bool,
))
    ensures
        r == spec_effective_config(
            static_timeout,
            static_mfa,
            unref(stored),
        ),
{
    match stored {
        None => (static_timeout, static_mfa),
        Some(c) => {
            let timeout = match c.session_timeout {
                ConfigValue::UInt(t) => if MIN_SESSION_TIMEOUT <= t && t <= MAX_SESSION_TIMEOUT {
                    t
                } else {
                    static_timeout
                },
                _ => static_timeout,
            };
            let mfa = match c.enable_mfa {
                ConfigValue::Bool(b) => b,
                _ => static_mfa,
            };
            (timeout, mfa)
        },
    }
}

/// Password policy in force.
#[derive(Debug, Clone, PartialEq, Eq, Structural)]
pub struct PasswordPolicy {
    pub min_length: usize,
    pub max_length: Option<usize>,
    pub require_uppercase: bool,
    pub require_lowercase: bool,
    pub require_numbers: bool,
    pub require_special: bool,
}

/// The default password policy.
pub open spec fn default_policy() -> PasswordPolicy {
    PasswordPolicy {
        min_length: 8,
        max_length: None,
        require_uppercase: true,
        require_lowercase: true,
        require_numbers: true,
        require_special: false,
    }
}

/// A boolean override or the default.
pub open spec fn bool_or(v: ConfigValue, d: bool) -> bool {
    match v {
        ConfigValue::Bool(b) => b,
        _ => d,
    }
}

/// The password policy the authentication service enforces: each stored key
/// of the right type overrides the default; a minimum length beyond `usize`
/// is clamped to `usize::MAX`.
pub open spec fn spec_auth_password_policy(stored: Option<AuthConfigSnapshot>) -> PasswordPolicy {
    match stored {
        None => default_policy(),
        Some(c) => PasswordPolicy {
            min_length: match c.password_policy_min_length {
                ConfigValue::UInt(v) => if v <= usize::MAX {
                    v as usize
                } else {
                    usize::MAX
                },
                _ => 8,
            },
            max_length: None,
            require_uppercase: bool_or(c.password_policy_require_uppercase, true),
            require_lowercase: bool_or(c.password_policy_require_lowercase, true),
            require_numbers: bool_or(c.password_policy_require_numbers, true),
            require_special: bool_or(c.password_policy_require_special, false),
        },
    }
}

fn config_bool_or(v: &ConfigValue, d: bool) -> (b: bool)
    ensures
        b == bool_or(*v, d),
{
    match v {
        ConfigValue::Bool(b) => *b,
        _ => d,
    }
}

/// The password policy read by the authentication service.
pub fn get_password_policy(stored: Option<&AuthConfigSnapshot>) -> (p: PasswordPolicy)
    ensures
        p == spec_auth_password_policy(unref(stored)),
{
    match stored {
        None => PasswordPolicy {
            min_length: 8,
            max_length: None,
            require_uppercase: true,
            require_lowercase: true,
            require_numbers: true,
            require_special: false,
        },
        Some(c) => {
            let min_length = match c.password_policy_min_length {
                ConfigValue::UInt(v) => if v <= usize::MAX as u64 {
                    v as usize
                } else {
                    usize::MAX
                },
                _ => 8,
            };
            PasswordPolicy {
                min_length,
                max_length: None,
                require_uppercase: config_bool_or(&c.password_policy_require_uppercase, true),
                require_lowercase: config_bool_or(&c.password_policy_require_lowercase, true),
                require_numbers: config_bool_or(&c.password_policy_require_numbers, true),
                require_special: config_bool_or(&c.password_policy_require_special, false),
            }
        },
    }
}

/// The expiry of a session created at `now` with the given timeout in
/// seconds; a timeout beyond the representable range falls back to an hour.
pub open spec fn spec_session_expiry(now: i64, timeout_secs: u64) -> int {
    if timeout_secs <= i64::MAX as u64 / 1000 {
        now + timeout_secs
    } else {
        now + 3600
    }
}

/// Expiry time of a session created at `now`.
pub fn session_expiry(now: i64, timeout_secs: u64) -> (t: i64)
    requires
        0 <= now <= i64::MAX / 2,
    ensures
        t == spec_session_expiry(now, timeout_secs),
{
    if timeout_secs <= (i64::MAX as u64) / 1000 {
        now + timeout_secs as i64
    } else {
        now + 3600
    }
}

/// Checks made before a refresh token is honoured: a disabled or inactive
/// account is refused, then a locked one.
pub fn refresh_account_check(user: &UserAccount, now: i64) -> (r: Result<(), AuthError>)
    ensures
        r is Ok <==> !is_unusable(*user) && !is_locked_at(*user, now),
        r is Err ==> r == Err::<(), AuthError>(AuthError::InvalidCredentials),
{
    if user.disabled || !user.enabled || !user.is_active {
        return Err(AuthError::InvalidCredentials);
    }
    match user.locked_until {
        Some(t) => if t > now {
            return Err(AuthError::InvalidCredentials);
        },
        None => {},
    }
    Ok(())
}

/// Revoked tokens with the time their revocation lapses.
pub struct TokenBlacklist {
    pub entries: Vec<(String, i64)>,
}

/// The revocation lapse time recorded for `token`, if any.
pub open spec fn lookup(entries: Seq<(String, i64)>, token: Seq<char>) -> Option<i64>
    decreases entries.len(),
{
    if entries.len() == 0 {
        None
    } else if entries.last().0@ == token {
        Some(entries.last().1)
    } else {
        lookup(entries.drop_last(), token)
    }
}

/// Each token occurs at most once.
pub open spec fn unique_tokens(entries: Seq<(String, i64)>) -> bool {
    forall|i: int, j: int|
        0 <= i < j < entries.len() ==> (#[trigger] entries[i]).0@ != (#[trigger] entries[j]).0@
}

impl TokenBlacklist {
    /// The blacklist is well formed: no token is listed twice.
    pub open spec fn wf(&self) -> bool {
        unique_tokens(self.entries@)
    }

    /// The revocation lapse time of a token.
    pub open spec fn lapse_of(&self, token: Seq<char>) -> Option<i64> {
        lookup(self.entries@, token)
    }

    /// An empty blacklist.
    pub fn new() -> (b: Self)
        ensures
            b.wf(),
            forall|t: Seq<char>| b.lapse_of(t) is None,
    {
        TokenBlacklist { entries: Vec::new() }
    }

    /// Whether the token is revoked at time `now`: it is listed with a lapse
    /// time after `now`.
    pub fn is_token_revoked(&self, token: &str, now: i64) -> (b: bool)
        ensures
            b == revoked_at(*self, token@, now),
    {
        let n = self.entries.len();
        let mut i = n;
        assert(self.entries@.take(n as int) =~= self.entries@);
        while i > 0
            invariant
                i <= n == self.entries@.len(),
                lookup(self.entries@, token@) == lookup(self.entries@.take(i as int), token@),
            decreases i,
        {
            let ghost prefix = self.entries@.take(i as int);
            assert(prefix.drop_last() == self.entries@.take(i - 1));
            if str_is(self.entries[i - 1].0.as_str(), token) {
                return self.entries[i - 1].1 > now;
            }
            i = i - 1;
        }
        false
    }

    /// Revokes a token until `expires_at`, first dropping the entries that
    /// lapsed by `now`.
    pub fn revoke_token(&mut self, token: String, expires_at: i64, now: i64)
        requires
            old(self).wf(),
        ensures
            final(self).wf(),
            final(self).lapse_of(token@) == Some(expires_at),
            forall|t: Seq<char>|
                t != token@ ==> #[trigger] final(self).lapse_of(t) == live_at(
                    old(self).lapse_of(t),
                    now,
                ),
    {
        let n = self.entries.len();
        let mut kept: Vec<(String, i64)> = Vec::new();
        for i in 0..n
            invariant
                n == self.entries@.len(),
                self.entries@ == old(self).entries@,
                unique_tokens(self.entries@),
                unique_tokens(kept@),
                forall|k: int| 0 <= k < kept@.len() ==> (#[trigger] kept@[k]).0@ != token@,
                forall|t: Seq<char>|
                    t != token@ ==> #[trigger] lookup(kept@, t) == live_at(
                        lookup(self.entries@.take(i as int), t),
                        now,
                    ),
                forall|k: int|
                    0 <= k < kept@.len() ==> has_token(
                        self.entries@.take(i as int),
                        (#[trigger] kept@[k]).0@,
                    ),
        {
            let t = self.entries[i].0.clone();
            let e = self.entries[i].1;
            let ghost y = self.entries@[i as int];
            let ghost pre = self.entries@.take(i as int);
            proof {
                assert(self.entries@.take(i + 1) == pre.push(y));
                lemma_lookup_push_other_all(pre, y);
                lemma_not_has_token_prefix(self.entries@, i as int);
                lemma_lookup_absent(pre, y.0@);
            }
            if e > now && !str_is(t.as_str(), token.as_str()) {
                let ghost before = kept@;
                proof {
                    lemma_lookup_push_other_all(before, (t, e));
                }
                kept.push((t, e));
                proof {
                    assert forall|a: int, b: int| 0 <= a < b < kept@.len() implies (
                    #[trigger] kept@[a]).0@ != (#[trigger] kept@[b]).0@ by {
                        if b == kept@.len() - 1 {
                            assert(has_token(pre, kept@[a].0@));
                        }
                    }
                    assert forall|k: int| 0 <= k < kept@.len() implies has_token(
                        self.entries@.take(i + 1),
                        (#[trigger] kept@[k]).0@,
                    ) by {
                        if k < before.len() {
                            lemma_has_token_extend(pre, y, kept@[k].0@);
                        } else {
                            assert(self.entries@.take(i + 1)[i as int] == y);
                        }
                    }
                    assert forall|tt: Seq<char>| tt != token@ implies #[trigger] lookup(kept@, tt)
                        == live_at(lookup(self.entries@.take(i + 1), tt), now) by {
                        if tt == y.0@ {
                        } else {
                        }
                    }
                }
            } else {
                proof {
                    assert forall|k: int| 0 <= k < kept@.len() implies has_token(
                        self.entries@.take(i + 1),
                        (#[trigger] kept@[k]).0@,
                    ) by {
                        lemma_has_token_extend(pre, y, kept@[k].0@);
                    }
                    assert forall|tt: Seq<char>| tt != token@ implies #[trigger] lookup(kept@, tt)
                        == live_at(lookup(self.entries@.take(i + 1), tt), now) by {
                        if tt == y.0@ {
                            if has_token(kept@, tt) {
                                let k = choose|k: int| 0 <= k < kept@.len() && (#[trigger] kept@[k]).0@ == tt;
                                assert(has_token(pre, kept@[k].0@));
                            }
                            lemma_lookup_absent(kept@, tt);
                        }
                    }
                }
            }
        }
        assert(self.entries@.take(n as int) == self.entries@);
        let ghost before = kept@;
        proof {
            lemma_lookup_push_other_all(before, (token, expires_at));
        }
        kept.push((token, expires_at));
        self.entries = kept;
    }
}

/// The token is revoked at time `now`: it is listed with a lapse time after
/// `now`.
pub open spec fn revoked_at(b: TokenBlacklist, token: Seq<char>, now: i64) -> bool {
    b.lapse_of(token) matches Some(e) && e > now
}

/// A recorded lapse time that is still in force at `now`.
pub open spec fn live_at(o: Option<i64>, now: i64) -> Option<i64> {
    match o {
        Some(e) => if e > now {
            Some(e)
        } else {
            None
        },
        None => None,
    }
}

proof fn lemma_lookup_absent(s: Seq<(String, i64)>, t: Seq<char>)
    ensures
        !has_token(s, t) ==> lookup(s, t) is None,
    decreases s.len(),
{
    if s.len() > 0 && !has_token(s, t) {
        assert(s.last() == s[s.len() - 1]);
        if has_token(s.drop_last(), t) {
            let k = choose|k: int| 0 <= k < s.drop_last().len() && (#[trigger] s.drop_last()[k]).0@ == t;
            assert(s[k] == s.drop_last()[k]);
        }
        lemma_lookup_absent(s.drop_last(), t);
    }
}

/// `t` is listed in `entries`.
pub open spec fn has_token(entries: Seq<(String, i64)>, t: Seq<char>) -> bool {
    exists|k: int| 0 <= k < entries.len() && (#[trigger] entries[k]).0@ == t
}

proof fn lemma_lookup_push_other_all(s: Seq<(String, i64)>, x: (String, i64))
    ensures
        forall|t: Seq<char>| t != x.0@ ==> #[trigger] lookup(s.push(x), t) == lookup(s, t),
        lookup(s.push(x), x.0@) == Some(x.1),
{
    assert(s.push(x).drop_last() == s);
}

proof fn lemma_has_token_extend(s: Seq<(String, i64)>, x: (String, i64), t: Seq<char>)
    requires
        has_token(s, t),
    ensures
        has_token(s.push(x), t),
{
    let k = choose|k: int| 0 <= k < s.len() && (#[trigger] s[k]).0@ == t;
    assert(s.push(x)[k] == s[k]);
}

proof fn lemma_not_has_token_prefix(s: Seq<(String, i64)>, i: int)
    requires
        0 <= i < s.len(),
        unique_tokens(s),
    ensures
        !has_token(s.take(i), s[i].0@),
{
    if has_token(s.take(i), s[i].0@) {
        let k = choose|k: int| 0 <= k < s.take(i).len() && (#[trigger] s.take(i)[k]).0@ == s[i].0@;
        assert(s.take(i)[k] == s[k]);
        assert(s[k].0@ != s[i].0@);
    }
}

/// Whether an account with these roles may perform the permission: admins
/// may do everything, "user" may read, list and write, "viewer" may read
/// and list.
pub open spec fn spec_has_permission(roles: Seq<String>, permission: Seq<char>) -> bool {
    if seq_has_str(roles, "admin"@) {
        true
    } else if permission == "secreton:read"@ || permission == "secreton:list"@ {
        seq_has_str(roles, "user"@) || seq_has_str(roles, "viewer"@)
    } else if permission == "secreton:write"@ {
        seq_has_str(roles, "user"@)
    } else {
        false
    }
}

/// Role-based permission check.
pub fn has_permission(user: &UserAccount, permission: &str) -> (b: bool)
    ensures
        b == spec_has_permission(user.roles@, permission@),
{
    proof {
        reveal_strlit("admin");
        reveal_strlit("user");
        reveal_strlit("viewer");
        reveal_strlit("secreton:read");
        reveal_strlit("secreton:list");
        reveal_strlit("secreton:write");
    }
    if vec_has_str(&user.roles, "admin") {
        return true;
    }
    if str_is(permission, "secreton:read") || str_is(permission, "secreton:list") {
        vec_has_str(&user.roles, "user") || vec_has_str(&user.roles, "viewer")
    } else if str_is(permission, "secreton:write") {
        vec_has_str(&user.roles, "user")
    } else {
        false
    }
}

/// A newly registered account: active, enabled, superuser when it holds a
/// privileged role, with the default policy and a clean failure record.
pub fn new_account(
    id: String,
    username: String,
    email: Option<String>,
    roles: Vec<String>,
    permissions: Vec<String>,
) -> (u: UserAccount)
    ensures
        u.id == id,
        u.username == username,
        u.email == email,
        u.roles == roles,
        u.permissions == permissions,
        u.policies@.len() == 1 && u.policies@[0]@ == "default"@,
        u.is_superuser == privileged_roles(roles@),
        u.is_active && u.enabled && !u.disabled && !u.mfa_enabled,
        u.failed_login_attempts == 0,
        u.locked_until is None,
        u.metadata@.len() == 0,
{
    let is_superuser = has_privileged_role(&roles);
    let mut policies = Vec::new();
    policies.push(owned("default"));
    UserAccount {
        id,
        username,
        email,
        roles,
        permissions,
        policies,
        disabled: false,
        enabled: true,
        is_active: true,
        is_superuser,
        mfa_enabled: false,
        failed_login_attempts: 0,
        locked_until: None,
        metadata: Vec::new(),
    }
}

/// The username an OAuth login is given: the provider's username, or the
/// e-mail address when the username is empty.
pub fn oauth_username(username: &str, email: &str) -> (u: String)
    ensures
        u@ == if username@.len() == 0 {
            email@
        } else {
            username@
        },
{
    let cs = chars_of(username);
    if cs.len() == 0 {
        owned(email)
    } else {
        string_from_chars(cs.as_slice())
    }
}

/// Storage path of a user account.
pub fn user_path(username: &str) -> (p: Vec<char>)
    ensures
        p@ == USER_STORAGE_PREFIX@ + username@,
{
    concat_str(USER_STORAGE_PREFIX, username)
}

/// Storage path of a session.
pub fn session_path(session_id: &str) -> (p: Vec<char>)
    ensures
        p@ == SESSION_STORAGE_PREFIX@ + session_id@,
{
    concat_str(SESSION_STORAGE_PREFIX, session_id)
}

/// What revoking a session decides from its stored record (`None` when no
/// record is stored, `Some(None)` when it cannot be read, else the id of
/// the user who owns it): a missing session is a storage error, another
/// user's session is refused, and otherwise the record is deleted, after
/// its token is revoked when the record could be read (`Ok(true)`).
pub fn session_revocation(stored_owner: Option<Option<&str>>, user_id: &str) -> (r: Result<
    bool,
    AuthError,
>)
    ensures
        match stored_owner {
            None => r matches Err(AuthError::Storage(_)),
            Some(None) => r == Ok::<bool, AuthError>(false),
            Some(Some(o)) => if o@ == user_id@ {
                r == Ok::<bool, AuthError>(true)
            } else {
                r matches Err(AuthError::PermissionDenied)
            },
        },
{
    match stored_owner {
        None => Err(AuthError::Storage(owned("session not found"))),
        Some(None) => Ok(false),
        Some(Some(o)) => if crate::text::str_is(o, user_id) {
            Ok(true)
        } else {
            Err(AuthError::PermissionDenied)
        },
    }
}

/// The sessions of a user among stored sessions, by their owners' ids: the
/// positions of those the user owns, in order.
pub fn sessions_of(owners: &Vec<String>, user_id: &str) -> (r: Vec<usize>)
    ensures
        forall|k: int| 0 <= k < r@.len() ==> r@[k] < owners@.len() && owners@[r@[k] as int]@ == user_id@,
        forall|i: int| 0 <= i < owners@.len() && owners@[i]@ == user_id@ ==> r@.contains(i as usize),
        forall|a: int, b: int| 0 <= a < b < r@.len() ==> r@[a] < r@[b],
{
    let mut r: Vec<usize> = Vec::new();
    let n = owners.len();
    for i in 0..n
        invariant
            n == owners@.len(),
            forall|k: int| 0 <= k < r@.len() ==> r@[k] < i && owners@[r@[k] as int]@ == user_id@,
            forall|j: int| 0 <= j < i && owners@[j]@ == user_id@ ==> r@.contains(j as usize),
            forall|a: int, b: int| 0 <= a < b < r@.len() ==> r@[a] < r@[b],
    {
        if crate::text::str_is(owners[i].as_str(), user_id) {
            let ghost before = r@;
            r.push(i);
            assert forall|j: int| 0 <= j < i + 1 && owners@[j]@ == user_id@ implies r@.contains(j as usize) by {
                if j < i {
                    assert(before.contains(j as usize));
                    let t = choose|t: int| 0 <= t < before.len() && before[t] == j as usize;
                    assert(r@[t] == j as usize);
                } else {
                    assert(r@[r@.len() - 1] == i);
                }
            }
        }
    }
    r
}

/// A configured token lifetime in seconds, or the fallback when it lies
/// beyond what a time span can hold (more than `i64::MAX` milliseconds).
pub open spec fn lifetime_or(secs: u64, fallback: u64) -> u64 {
    if secs <= i64::MAX as u64 / 1000 {
        secs
    } else {
        fallback
    }
}

/// The lifetimes of access and refresh tokens, in seconds, from the
/// configured expirations: each falls back (to an hour, and to seven days)
/// when it is out of range.
pub fn token_lifetimes(expiration: u64, refresh_expiration: u64) -> (r: (u64, u64))
    ensures
        r.0 == lifetime_or(expiration, 3600),
        r.1 == lifetime_or(refresh_expiration, 604800),
{
    let limit = (i64::MAX as u64) / 1000;
    let access = if expiration <= limit {
        expiration
    } else {
        3600
    };
    let refresh = if refresh_expiration <= limit {
        refresh_expiration
    } else {
        604800
    };
    (access, refresh)
}

/// Whether an access token is accepted: not revoked, valid, and bound to a
/// session that still exists; any failure is an invalid token.  (The
/// checks run in this order and stop at the first failure.)
pub fn token_acceptance(revoked: bool, claims_valid: bool, session_exists: bool) -> (r: Result<
    (),
    AuthError,
>)
    ensures
        r is Ok <==> !revoked && claims_valid && session_exists,
        r is Err ==> r matches Err(AuthError::InvalidToken),
{
    if revoked || !claims_valid || !session_exists {
        Err(AuthError::InvalidToken)
    } else {
        Ok(())
    }
}

/// The account a valid access token stands for, from its claims: active
/// and enabled, with the roles and policies the token was issued with and
/// nothing else granted.
pub fn account_from_claims(
    id: String,
    username: String,
    email: Option<String>,
    roles: Vec<String>,
    policies: Vec<String>,
) -> (u: UserAccount)
    ensures
        u.id == id,
        u.username == username,
        u.email == email,
        u.roles == roles,
        u.policies == policies,
        u.permissions@.len() == 0,
        u.is_active && u.enabled && !u.disabled && !u.is_superuser && !u.mfa_enabled,
        u.failed_login_attempts == 0,
        u.locked_until is None,
        u.metadata@.len() == 0,
{
    UserAccount {
        id,
        username,
        email,
        roles,
        permissions: Vec::new(),
        policies,
        disabled: false,
        enabled: true,
        is_active: true,
        is_superuser: false,
        mfa_enabled: false,
        failed_login_attempts: 0,
        locked_until: None,
        metadata: Vec::new(),
    }
}

/// Lifetime of a refresh token, in seconds (seven days).
pub const REFRESH_TOKEN_SECONDS: i64 = 604800;

/// The claims of a refresh token issued at `now` (seconds) for a user: its
/// id, name, e-mail (empty when unknown) and roles, valid for seven days,
/// under the token id `jti`.
pub fn refresh_claims(
    now: i64,
    sub: String,
    username: String,
    email: Option<String>,
    roles: Vec<String>,
    jti: String,
    iss: String,
    aud: String,
) -> (c: Claims)
    requires
        0 <= now <= i64::MAX - REFRESH_TOKEN_SECONDS,
    ensures
        c.sub == sub,
        c.username == username,
        c.email@ == crate::text::text_or_empty(email),
        c.roles == roles,
        c.iat == now as usize,
        c.exp == (now + REFRESH_TOKEN_SECONDS) as usize,
        c.jti == jti,
        c.iss == iss,
        c.aud == aud,
{
    Claims {
        sub,
        username,
        email: crate::text::string_or_empty(email),
        roles,
        iat: now as usize,
        exp: (now + REFRESH_TOKEN_SECONDS) as usize,
        jti,
        iss,
        aud,
    }
}

} // verus!
