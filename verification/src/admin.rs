//! Administration rules: names, system configuration, security scan
//! findings, backups, audit-log views and account protections.

use vstd::prelude::*;
use vstd::utf8::encode_utf8;
use crate::audit::{audit_time_text, utc_text, RichAuditEntry};
use crate::ids::{uuid_hyphenated, uuid_text};
use crate::digest::{hex_encode, hex_of, sha256, sha256_of};
use crate::auth::{bool_or, unref, AuthError, ConfigValue, PasswordPolicy};
use crate::text::{
    chars_of, chars_of_string, decimal, decimal_chars, is_ascii_alnum, join_strings,
    joined, owned, push_all, push_str, seq_contains, string_from_chars, str_is, trim, trimmed,
    views, ascii_lower, to_ascii_lower, signed_decimal, signed_decimal_chars, text_or_empty, bool_text,
    bool_string, decimal_string, seq_starts_with, seq_has_str, vec_has_str, string_or_empty,
};

verus! {

/// Storage prefix of role records.
pub const ROLE_STORAGE_PREFIX: &'static str = "sys/auth/roles/";

/// Storage prefix of backups.
pub const BACKUP_PREFIX: &'static str = "backups/";

/// Storage path of the system configuration.
pub const SYSTEM_CONFIG_PATH: &'static str = "system/config";

/// Admin service errors.
#[derive(Debug)]
pub enum AdminError {
    NotPermitted(String),
    NotFound(String),
    AlreadyExists(String),
    InvalidConfig(String),
    MaintenanceInProgress,
    Auth(AuthError),
    Storage(String),
    Internal(String),
}

/// The result is an invalid-configuration error with this message.
pub open spec fn err_config<T>(r: Result<T, AdminError>, msg: Seq<char>) -> bool {
    r matches Err(AdminError::InvalidConfig(m)) && m@ == msg
}

/// The result is a not-permitted error with this message.
pub open spec fn err_not_permitted<T>(r: Result<T, AdminError>, msg: Seq<char>) -> bool {
    r matches Err(AdminError::NotPermitted(m)) && m@ == msg
}

/// Bytes of a text in UTF-8 (as `str::len` reports them, a `usize`).
#[verifier::opaque]
pub open spec fn utf8_size(s: Seq<char>) -> nat {
    encode_utf8(s).len()
}

/// A character allowed in user and role names.
pub open spec fn name_char_ok(c: char) -> bool {
    is_ascii_alnum(c) || c == '-' || c == '_' || c == '.' || c == '@'
}

/// The error message owed to a user or role name, if any; `subject` is
/// "Username" or "Role name".  The length limit counts UTF-8 bytes.
pub open spec fn name_error(s: Seq<char>, subject: Seq<char>) -> Option<Seq<char>> {
    if s.len() == 0 || trimmed(s).len() == 0 {
        Some(subject + " cannot be empty"@)
    } else if utf8_size(s) as usize > 256 {
        Some(subject + " is too long (max 256 characters)"@)
    } else if seq_contains(s, ".."@) {
        Some(subject + " cannot contain '..' (path traversal)"@)
    } else if !(forall|i: int| 0 <= i < s.len() ==> name_char_ok(#[trigger] s[i])) {
        Some(
            subject
                + " contains invalid characters (only ASCII alphanumeric, '-', '_', '.', '@' are allowed)"@,
        )
    } else {
        None
    }
}

/// The outcome owed to a name check.
pub open spec fn name_checked(r: Result<(), AdminError>, s: Seq<char>, subject: Seq<char>) -> bool {
    match name_error(s, subject) {
        Some(m) => err_config(r, m),
        None => r is Ok,
    }
}

fn all_name_chars(s: &[char]) -> (b: bool)
    ensures
        b == (forall|i: int| 0 <= i < s@.len() ==> name_char_ok(#[trigger] s@[i])),
{
    let n = s.len();
    for i in 0..n
        invariant
            n == s@.len(),
            forall|k: int| 0 <= k < i ==> name_char_ok(#[trigger] s@[k]),
    {
        let c = s[i];
        let ok = ('0' <= c && c <= '9') || ('a' <= c && c <= 'z') || ('A' <= c && c <= 'Z') || c
            == '-' || c == '_' || c == '.' || c == '@';
        if !ok {
            assert(!name_char_ok(s@[i as int]));
            return false;
        }
    }
    true
}

fn config_error(subject: &str, rest: &str) -> (e: AdminError)
    ensures
        e matches AdminError::InvalidConfig(m) && m@ == subject@ + rest@,
{
    let mut v = chars_of(subject);
    push_str(&mut v, rest);
    AdminError::InvalidConfig(string_from_chars(v.as_slice()))
}

fn check_name(name: &str, subject: &str) -> (r: Result<(), AdminError>)
    ensures
        name_checked(r, name@, subject@),
{
    let cs = chars_of(name);
    let t = trim(cs.as_slice());
    if cs.len() == 0 || t.len() == 0 {
        return Err(config_error(subject, " cannot be empty"));
    }
    let nb = name.len();
    assert(nb == utf8_size(name@) as usize) by {
        reveal(utf8_size);
    }
    if nb > 256 {
        return Err(config_error(subject, " is too long (max 256 characters)"));
    }
    let dots = chars_of("..");
    if crate::text::contains(cs.as_slice(), dots.as_slice()) {
        return Err(config_error(subject, " cannot contain '..' (path traversal)"));
    }
    if !all_name_chars(cs.as_slice()) {
        return Err(
            config_error(
                subject,
                " contains invalid characters (only ASCII alphanumeric, '-', '_', '.', '@' are allowed)",
            ),
        );
    }
    Ok(())
}

/// Checks that a username is safe in storage paths and URL segments: not
/// blank, at most 256 bytes, no "..", only ASCII letters, digits and
/// `-_.@`.
pub fn validate_username(username: &str) -> (r: Result<(), AdminError>)
    ensures
        name_checked(r, username@, "Username"@),
{
    check_name(username, "Username")
}

/// Checks that a role name is safe in storage paths and URL segments, with
/// the rules of `validate_username`.
pub fn validate_role_name(name: &str) -> (r: Result<(), AdminError>)
    ensures
        name_checked(r, name@, "Role name"@),
{
    check_name(name, "Role name")
}

/// Storage path of a role.
pub fn role_path(name: &str) -> (p: String)
    ensures
        p@ == ROLE_STORAGE_PREFIX@ + name@,
{
    let mut v = chars_of(ROLE_STORAGE_PREFIX);
    push_str(&mut v, name);
    string_from_chars(v.as_slice())
}

/// Storage path of a backup.
pub fn backup_path(backup_id: &str) -> (p: String)
    ensures
        p@ == BACKUP_PREFIX@ + backup_id@,
{
    let mut v = chars_of(BACKUP_PREFIX);
    push_str(&mut v, backup_id);
    string_from_chars(v.as_slice())
}

/// A configuration key that `update_config` accepts.
pub open spec fn allowed_config_key(k: Seq<char>) -> bool {
    ||| k == "jwt_expiration"@
    ||| k == "session_timeout"@
    ||| k == "max_failed_attempts"@
    ||| k == "password_policy_min_length"@
    ||| k == "password_policy_require_uppercase"@
    ||| k == "password_policy_require_numbers"@
    ||| k == "password_policy_require_special"@
    ||| k == "rate_limit_requests_per_minute"@
    ||| k == "enable_mfa"@
    ||| k == "enable_audit_logging"@
    ||| k == "backup_retention_days"@
    ||| k == "log_retention_days"@
}

/// Whether `update_config` accepts a configuration key.
pub fn is_allowed_config_key(k: &str) -> (b: bool)
    ensures
        b == allowed_config_key(k@),
{
    str_is(k, "jwt_expiration") || str_is(k, "session_timeout") || str_is(k, "max_failed_attempts")
        || str_is(k, "password_policy_min_length") || str_is(
        k,
        "password_policy_require_uppercase",
    ) || str_is(k, "password_policy_require_numbers") || str_is(
        k,
        "password_policy_require_special",
    ) || str_is(k, "rate_limit_requests_per_minute") || str_is(k, "enable_mfa") || str_is(
        k,
        "enable_audit_logging",
    ) || str_is(k, "backup_retention_days") || str_is(k, "log_retention_days")
}

/// The keys that `update_config` refuses, in order.
pub open spec fn rejected_keys(keys: Seq<Seq<char>>) -> Seq<Seq<char>>
    decreases keys.len(),
{
    if keys.len() == 0 {
        Seq::empty()
    } else if allowed_config_key(keys.last()) {
        rejected_keys(keys.drop_last())
    } else {
        rejected_keys(keys.drop_last()).push(keys.last())
    }
}

/// Checks the keys of a configuration update (in the order the update
/// lists them): all must be known settings, else the error lists the
/// others, separated by ", ".
pub fn validate_config_keys(keys: &Vec<String>) -> (r: Result<(), AdminError>)
    ensures
        r is Ok <==> rejected_keys(views(keys@)).len() == 0,
        r is Err ==> err_config(
            r,
            "Invalid configuration keys: "@ + joined(rejected_keys(views(keys@)), ", "@),
        ),
{
    let n = keys.len();
    let mut bad: Vec<String> = Vec::new();
    for i in 0..n
        invariant
            n == keys@.len(),
            views(bad@) == rejected_keys(views(keys@.take(i as int))),
    {
        let ghost before = views(keys@.take(i as int));
        assert(views(keys@.take(i + 1)).drop_last() =~= before);
        assert(views(keys@.take(i + 1)).last() == keys@[i as int]@);
        if !is_allowed_config_key(keys[i].as_str()) {
            let k = keys[i].clone();
            bad.push(k);
            assert(views(bad@) =~= rejected_keys(views(keys@.take(i + 1))));
        }
    }
    assert(keys@.take(n as int) =~= keys@);
    if bad.len() == 0 {
        return Ok(());
    }
    let mut m = chars_of("Invalid configuration keys: ");
    let j = join_strings(&bad, ", ");
    let jc = chars_of_string(&j);
    push_all(&mut m, jc.as_slice());
    Err(AdminError::InvalidConfig(string_from_chars(m.as_slice())))
}


/// A finding of a security scan.
#[derive(Debug)]
pub struct SecurityFinding {
    pub severity: String,
    pub category: String,
    pub title: String,
    pub description: String,
    pub recommendation: String,
    pub affected_resources: Vec<String>,
}

/// The texts of a finding: severity, category, title, description,
/// recommendation and affected resources.
pub type FindingText = (Seq<char>, Seq<char>, Seq<char>, Seq<char>, Seq<char>, Seq<Seq<char>>);

/// The texts of a finding.
pub open spec fn finding_text(f: SecurityFinding) -> FindingText {
    (
        f.severity@,
        f.category@,
        f.title@,
        f.description@,
        f.recommendation@,
        views(f.affected_resources@),
    )
}

/// The texts of a list of findings.
pub open spec fn findings_text(v: Seq<SecurityFinding>) -> Seq<FindingText> {
    v.map_values(|f: SecurityFinding| finding_text(f))
}

/// A finding's texts from its parts.
pub open spec fn ft(
    severity: &str,
    category: &str,
    title: Seq<char>,
    description: Seq<char>,
    recommendation: &str,
    resources: Seq<Seq<char>>,
) -> FindingText {
    (severity@, category@, title, description, recommendation@, resources)
}

fn mk(
    severity: &str,
    category: &str,
    title: String,
    description: String,
    recommendation: &str,
    resources: Vec<String>,
) -> (f: SecurityFinding)
    ensures
        finding_text(f) == ft(severity, category, title@, description@, recommendation, views(
            resources@,
        )),
{
    SecurityFinding {
        severity: owned(severity),
        category: owned(category),
        title,
        description,
        recommendation: owned(recommendation),
        affected_resources: resources,
    }
}

fn one_res(s: &str) -> (v: Vec<String>)
    ensures
        views(v@) == seq![s@],
{
    let mut v: Vec<String> = Vec::new();
    v.push(owned(s));
    assert(views(v@) =~= seq![s@]);
    v
}

fn one_res_string(s: String) -> (v: Vec<String>)
    ensures
        views(v@) == seq![s@],
{
    let mut v: Vec<String> = Vec::new();
    v.push(s);
    assert(views(v@) =~= seq![s@]);
    v
}

fn single(f: SecurityFinding) -> (v: Vec<SecurityFinding>)
    ensures
        findings_text(v@) == seq![finding_text(f)],
{
    let mut v: Vec<SecurityFinding> = Vec::new();
    v.push(f);
    assert(findings_text(v@) =~= seq![finding_text(f)]);
    v
}

fn no_findings() -> (v: Vec<SecurityFinding>)
    ensures
        findings_text(v@) == Seq::<FindingText>::empty(),
{
    let v: Vec<SecurityFinding> = Vec::new();
    assert(findings_text(v@) =~= Seq::<FindingText>::empty());
    v
}

fn append_findings(acc: &mut Vec<SecurityFinding>, more: Vec<SecurityFinding>)
    ensures
        findings_text(final(acc)@) == findings_text(old(acc)@) + findings_text(more@),
{
    let ghost m = more@;
    let mut more = more;
    acc.append(&mut more);
    assert(acc@ == old(acc)@ + m);
    assert(findings_text(acc@) =~= findings_text(old(acc)@) + findings_text(m));
}

fn text_num(a: &str, n: u64, b: &str) -> (s: String)
    ensures
        s@ == a@ + decimal(n as nat) + b@,
{
    let mut v = chars_of(a);
    let d = decimal_chars(n);
    push_all(&mut v, d.as_slice());
    push_str(&mut v, b);
    string_from_chars(v.as_slice())
}

fn text_str(a: &str, x: &str, b: &str) -> (s: String)
    ensures
        s@ == a@ + x@ + b@,
{
    let mut v = chars_of(a);
    push_str(&mut v, x);
    push_str(&mut v, b);
    string_from_chars(v.as_slice())
}

/// The stored system configuration, key by key, as JSON values.
#[derive(Debug, Clone)]
pub struct SystemConfig {
    pub jwt_expiration: ConfigValue,
    pub session_timeout: ConfigValue,
    pub max_failed_attempts: ConfigValue,
    pub password_policy_min_length: ConfigValue,
    pub password_policy_require_uppercase: ConfigValue,
    pub password_policy_require_numbers: ConfigValue,
    pub password_policy_require_special: ConfigValue,
    pub rate_limit_requests_per_minute: ConfigValue,
    pub enable_mfa: ConfigValue,
    pub enable_audit_logging: ConfigValue,
    pub backup_retention_days: ConfigValue,
    pub log_retention_days: ConfigValue,
}

/// Findings about the audit logging switch.
pub open spec fn audit_logging_findings(v: ConfigValue) -> Seq<FindingText> {
    match v {
        ConfigValue::Absent => seq![
            ft(
                "medium",
                "configuration",
                "Audit logging configuration missing"@,
                "Audit logging configuration is not set"@,
                "Configure audit logging to track security-relevant events",
                seq!["audit_system"@],
            ),
        ],
        ConfigValue::Bool(false) => seq![
            ft(
                "high",
                "configuration",
                "Audit logging disabled"@,
                "Audit logging is disabled, which reduces security monitoring capabilities"@,
                "Enable audit logging to track security-relevant events",
                seq!["audit_system"@],
            ),
        ],
        _ => seq![],
    }
}

/// Findings about the MFA switch.
pub open spec fn mfa_findings(v: ConfigValue) -> Seq<FindingText> {
    match v {
        ConfigValue::Absent => seq![
            ft(
                "medium",
                "authentication",
                "MFA configuration missing"@,
                "Multi-factor authentication configuration is not set"@,
                "Configure and enable multi-factor authentication",
                seq!["authentication"@],
            ),
        ],
        ConfigValue::Bool(false) => seq![
            ft(
                "medium",
                "authentication",
                "Multi-factor authentication disabled"@,
                "MFA is disabled, reducing authentication security"@,
                "Enable multi-factor authentication for all users",
                seq!["authentication"@],
            ),
        ],
        _ => seq![],
    }
}

/// Findings about the session timeout (minutes).
pub open spec fn session_findings(v: ConfigValue) -> Seq<FindingText> {
    match v {
        ConfigValue::UInt(m) => if m > 480 {
            seq![
                ft(
                    "low",
                    "configuration",
                    "Long session timeout"@,
                    "Session timeout is set to "@ + decimal(m as nat)
                        + " minutes, which may reduce security"@,
                    "Consider reducing session timeout to 480 minutes (8 hours) or less",
                    seq!["session_management"@],
                ),
            ]
        } else if m < 15 {
            seq![
                ft(
                    "medium",
                    "configuration",
                    "Very short session timeout"@,
                    "Session timeout is set to "@ + decimal(m as nat)
                        + " minutes, which may impact usability"@,
                    "Consider increasing session timeout to at least 15 minutes",
                    seq!["session_management"@],
                ),
            ]
        } else {
            seq![]
        },
        _ => seq![],
    }
}

/// Findings about the JWT lifetime (hours).
pub open spec fn jwt_findings(v: ConfigValue) -> Seq<FindingText> {
    match v {
        ConfigValue::UInt(h) => if h > 24 {
            seq![
                ft(
                    "low",
                    "configuration",
                    "Long JWT expiration"@,
                    "JWT tokens expire after "@ + decimal(h as nat)
                        + " hours, which may reduce security"@,
                    "Consider reducing JWT expiration to 24 hours or less",
                    seq!["authentication"@],
                ),
            ]
        } else {
            seq![]
        },
        _ => seq![],
    }
}

/// Findings about the rate limit (requests per minute).
pub open spec fn rate_limit_findings(v: ConfigValue) -> Seq<FindingText> {
    match v {
        ConfigValue::Absent => seq![
            ft(
                "medium",
                "configuration",
                "Rate limiting not configured"@,
                "Rate limiting configuration is missing"@,
                "Configure rate limiting to prevent abuse",
                seq!["rate_limiting"@],
            ),
        ],
        ConfigValue::UInt(l) => if l > 1000 {
            seq![
                ft(
                    "low",
                    "configuration",
                    "High rate limit threshold"@,
                    "Rate limit is set to "@ + decimal(l as nat)
                        + " requests per minute, which may allow abuse"@,
                    "Consider reducing rate limit to prevent abuse",
                    seq!["rate_limiting"@],
                ),
            ]
        } else if l < 10 {
            seq![
                ft(
                    "medium",
                    "configuration",
                    "Very low rate limit"@,
                    "Rate limit is set to "@ + decimal(l as nat)
                        + " requests per minute, which may impact legitimate usage"@,
                    "Consider increasing rate limit to allow legitimate usage",
                    seq!["rate_limiting"@],
                ),
            ]
        } else {
            seq![]
        },
        _ => seq![],
    }
}

/// Findings about the failed-login limit.
pub open spec fn attempts_findings(v: ConfigValue) -> Seq<FindingText> {
    match v {
        ConfigValue::UInt(a) => if a > 10 {
            seq![
                ft(
                    "low",
                    "configuration",
                    "High failed login attempt limit"@,
                    "Maximum failed login attempts is set to "@ + decimal(a as nat)
                        + ", which may allow brute force attacks"@,
                    "Consider reducing maximum failed attempts to 5-10",
                    seq!["authentication"@],
                ),
            ]
        } else if a < 3 {
            seq![
                ft(
                    "low",
                    "configuration",
                    "Low failed login attempt limit"@,
                    "Maximum failed login attempts is set to "@ + decimal(a as nat)
                        + ", which may cause usability issues"@,
                    "Consider increasing maximum failed attempts to at least 3",
                    seq!["authentication"@],
                ),
            ]
        } else {
            seq![]
        },
        _ => seq![],
    }
}

/// Findings about the backup retention (days).
pub open spec fn backup_retention_findings(v: ConfigValue) -> Seq<FindingText> {
    match v {
        ConfigValue::UInt(d) => if d > 365 {
            seq![
                ft(
                    "low",
                    "configuration",
                    "Long backup retention period"@,
                    "Backup retention is set to "@ + decimal(d as nat)
                        + " days, which may consume excessive storage"@,
                    "Consider reducing backup retention period",
                    seq!["backup_system"@],
                ),
            ]
        } else if d < 7 {
            seq![
                ft(
                    "medium",
                    "configuration",
                    "Short backup retention period"@,
                    "Backup retention is set to "@ + decimal(d as nat)
                        + " days, which may not provide adequate recovery options"@,
                    "Consider increasing backup retention period to at least 7 days",
                    seq!["backup_system"@],
                ),
            ]
        } else {
            seq![]
        },
        _ => seq![],
    }
}

/// Findings about the log retention (days).
pub open spec fn log_retention_findings(v: ConfigValue) -> Seq<FindingText> {
    match v {
        ConfigValue::UInt(d) => if d > 365 {
            seq![
                ft(
                    "low",
                    "configuration",
                    "Long log retention period"@,
                    "Log retention is set to "@ + decimal(d as nat)
                        + " days, which may consume excessive storage"@,
                    "Consider reducing log retention period based on compliance requirements",
                    seq!["logging_system"@],
                ),
            ]
        } else if d < 30 {
            seq![
                ft(
                    "medium",
                    "configuration",
                    "Short log retention period"@,
                    "Log retention is set to "@ + decimal(d as nat)
                        + " days, which may not meet compliance requirements"@,
                    "Consider increasing log retention period to meet compliance requirements",
                    seq!["logging_system"@],
                ),
            ]
        } else {
            seq![]
        },
        _ => seq![],
    }
}

/// The findings of the configuration check: one per setting that is
/// missing or out of its recommended range, in a fixed order; a missing or
/// unreadable configuration is one high finding.
pub open spec fn config_findings(c: Option<SystemConfig>) -> Seq<FindingText> {
    match c {
        None => seq![
            ft(
                "high",
                "configuration",
                "Security configuration missing"@,
                "System security configuration is not properly set up"@,
                "Create and configure system security settings including audit logging, MFA, and session management",
                seq!["system_configuration"@],
            ),
        ],
        Some(c) => audit_logging_findings(c.enable_audit_logging) + mfa_findings(c.enable_mfa)
            + session_findings(c.session_timeout) + jwt_findings(c.jwt_expiration)
            + rate_limit_findings(c.rate_limit_requests_per_minute) + attempts_findings(
            c.max_failed_attempts,
        ) + backup_retention_findings(c.backup_retention_days) + log_retention_findings(
            c.log_retention_days,
        ),
    }
}


fn check_audit_logging(v: &ConfigValue) -> (r: Vec<SecurityFinding>)
    ensures
        findings_text(r@) == audit_logging_findings(*v),
{
    match v {
        ConfigValue::Absent => single(
            mk(
                "medium",
                "configuration",
                owned("Audit logging configuration missing"),
                owned("Audit logging configuration is not set"),
                "Configure audit logging to track security-relevant events",
                one_res("audit_system"),
            ),
        ),
        ConfigValue::Bool(false) => single(
            mk(
                "high",
                "configuration",
                owned("Audit logging disabled"),
                owned("Audit logging is disabled, which reduces security monitoring capabilities"),
                "Enable audit logging to track security-relevant events",
                one_res("audit_system"),
            ),
        ),
        _ => no_findings(),
    }
}

fn check_mfa(v: &ConfigValue) -> (r: Vec<SecurityFinding>)
    ensures
        findings_text(r@) == mfa_findings(*v),
{
    match v {
        ConfigValue::Absent => single(
            mk(
                "medium",
                "authentication",
                owned("MFA configuration missing"),
                owned("Multi-factor authentication configuration is not set"),
                "Configure and enable multi-factor authentication",
                one_res("authentication"),
            ),
        ),
        ConfigValue::Bool(false) => single(
            mk(
                "medium",
                "authentication",
                owned("Multi-factor authentication disabled"),
                owned("MFA is disabled, reducing authentication security"),
                "Enable multi-factor authentication for all users",
                one_res("authentication"),
            ),
        ),
        _ => no_findings(),
    }
}

fn check_session(v: &ConfigValue) -> (r: Vec<SecurityFinding>)
    ensures
        findings_text(r@) == session_findings(*v),
{
    match v {
        ConfigValue::UInt(m) => if *m > 480 {
            single(
                mk(
                    "low",
                    "configuration",
                    owned("Long session timeout"),
                    text_num("Session timeout is set to ", *m, " minutes, which may reduce security"),
                    "Consider reducing session timeout to 480 minutes (8 hours) or less",
                    one_res("session_management"),
                ),
            )
        } else if *m < 15 {
            single(
                mk(
                    "medium",
                    "configuration",
                    owned("Very short session timeout"),
                    text_num("Session timeout is set to ", *m, " minutes, which may impact usability"),
                    "Consider increasing session timeout to at least 15 minutes",
                    one_res("session_management"),
                ),
            )
        } else {
            no_findings()
        },
        _ => no_findings(),
    }
}

fn check_jwt(v: &ConfigValue) -> (r: Vec<SecurityFinding>)
    ensures
        findings_text(r@) == jwt_findings(*v),
{
    match v {
        ConfigValue::UInt(h) => if *h > 24 {
            single(
                mk(
                    "low",
                    "configuration",
                    owned("Long JWT expiration"),
                    text_num("JWT tokens expire after ", *h, " hours, which may reduce security"),
                    "Consider reducing JWT expiration to 24 hours or less",
                    one_res("authentication"),
                ),
            )
        } else {
            no_findings()
        },
        _ => no_findings(),
    }
}

fn check_rate_limit(v: &ConfigValue) -> (r: Vec<SecurityFinding>)
    ensures
        findings_text(r@) == rate_limit_findings(*v),
{
    match v {
        ConfigValue::Absent => single(
            mk(
                "medium",
                "configuration",
                owned("Rate limiting not configured"),
                owned("Rate limiting configuration is missing"),
                "Configure rate limiting to prevent abuse",
                one_res("rate_limiting"),
            ),
        ),
        ConfigValue::UInt(l) => if *l > 1000 {
            single(
                mk(
                    "low",
                    "configuration",
                    owned("High rate limit threshold"),
                    text_num(
                        "Rate limit is set to ",
                        *l,
                        " requests per minute, which may allow abuse",
                    ),
                    "Consider reducing rate limit to prevent abuse",
                    one_res("rate_limiting"),
                ),
            )
        } else if *l < 10 {
            single(
                mk(
                    "medium",
                    "configuration",
                    owned("Very low rate limit"),
                    text_num(
                        "Rate limit is set to ",
                        *l,
                        " requests per minute, which may impact legitimate usage",
                    ),
                    "Consider increasing rate limit to allow legitimate usage",
                    one_res("rate_limiting"),
                ),
            )
        } else {
            no_findings()
        },
        _ => no_findings(),
    }
}

fn check_attempts(v: &ConfigValue) -> (r: Vec<SecurityFinding>)
    ensures
        findings_text(r@) == attempts_findings(*v),
{
    match v {
        ConfigValue::UInt(a) => if *a > 10 {
            single(
                mk(
                    "low",
                    "configuration",
                    owned("High failed login attempt limit"),
                    text_num(
                        "Maximum failed login attempts is set to ",
                        *a,
                        ", which may allow brute force attacks",
                    ),
                    "Consider reducing maximum failed attempts to 5-10",
                    one_res("authentication"),
                ),
            )
        } else if *a < 3 {
            single(
                mk(
                    "low",
                    "configuration",
                    owned("Low failed login attempt limit"),
                    text_num(
                        "Maximum failed login attempts is set to ",
                        *a,
                        ", which may cause usability issues",
                    ),
                    "Consider increasing maximum failed attempts to at least 3",
                    one_res("authentication"),
                ),
            )
        } else {
            no_findings()
        },
        _ => no_findings(),
    }
}

fn check_backup_retention(v: &ConfigValue) -> (r: Vec<SecurityFinding>)
    ensures
        findings_text(r@) == backup_retention_findings(*v),
{
    match v {
        ConfigValue::UInt(d) => if *d > 365 {
            single(
                mk(
                    "low",
                    "configuration",
                    owned("Long backup retention period"),
                    text_num(
                        "Backup retention is set to ",
                        *d,
                        " days, which may consume excessive storage",
                    ),
                    "Consider reducing backup retention period",
                    one_res("backup_system"),
                ),
            )
        } else if *d < 7 {
            single(
                mk(
                    "medium",
                    "configuration",
                    owned("Short backup retention period"),
                    text_num(
                        "Backup retention is set to ",
                        *d,
                        " days, which may not provide adequate recovery options",
                    ),
                    "Consider increasing backup retention period to at least 7 days",
                    one_res("backup_system"),
                ),
            )
        } else {
            no_findings()
        },
        _ => no_findings(),
    }
}

fn check_log_retention(v: &ConfigValue) -> (r: Vec<SecurityFinding>)
    ensures
        findings_text(r@) == log_retention_findings(*v),
{
    match v {
        ConfigValue::UInt(d) => if *d > 365 {
            single(
                mk(
                    "low",
                    "configuration",
                    owned("Long log retention period"),
                    text_num(
                        "Log retention is set to ",
                        *d,
                        " days, which may consume excessive storage",
                    ),
                    "Consider reducing log retention period based on compliance requirements",
                    one_res("logging_system"),
                ),
            )
        } else if *d < 30 {
            single(
                mk(
                    "medium",
                    "configuration",
                    owned("Short log retention period"),
                    text_num(
                        "Log retention is set to ",
                        *d,
                        " days, which may not meet compliance requirements",
                    ),
                    "Consider increasing log retention period to meet compliance requirements",
                    one_res("logging_system"),
                ),
            )
        } else {
            no_findings()
        },
        _ => no_findings(),
    }
}

/// Reviews the stored system configuration (`None` when it is missing or
/// not JSON) and reports settings that are missing or outside their
/// recommended ranges.
pub fn check_security_configuration(config: Option<&SystemConfig>) -> (r: Vec<SecurityFinding>)
    ensures
        findings_text(r@) == config_findings(unref(config)),
{
    match config {
        None => single(
            mk(
                "high",
                "configuration",
                owned("Security configuration missing"),
                owned("System security configuration is not properly set up"),
                "Create and configure system security settings including audit logging, MFA, and session management",
                one_res("system_configuration"),
            ),
        ),
        Some(c) => {
            let mut r = check_audit_logging(&c.enable_audit_logging);
            append_findings(&mut r, check_mfa(&c.enable_mfa));
            append_findings(&mut r, check_session(&c.session_timeout));
            append_findings(&mut r, check_jwt(&c.jwt_expiration));
            append_findings(&mut r, check_rate_limit(&c.rate_limit_requests_per_minute));
            append_findings(&mut r, check_attempts(&c.max_failed_attempts));
            append_findings(&mut r, check_backup_retention(&c.backup_retention_days));
            append_findings(&mut r, check_log_retention(&c.log_retention_days));
            r
        },
    }
}


/// The password policy the admin scan reviews: each stored key of the right
/// type overrides the default; lowercase letters are always required.  The
/// minimum length is taken modulo the width of `usize`.
pub open spec fn scan_password_policy(c: Option<SystemConfig>) -> PasswordPolicy {
    match c {
        None => PasswordPolicy {
            min_length: 8,
            max_length: None,
            require_uppercase: true,
            require_lowercase: true,
            require_numbers: true,
            require_special: false,
        },
        Some(c) => PasswordPolicy {
            min_length: match c.password_policy_min_length {
                ConfigValue::UInt(v) => v as usize,
                _ => 8,
            },
            max_length: None,
            require_uppercase: bool_or(c.password_policy_require_uppercase, true),
            require_lowercase: true,
            require_numbers: bool_or(c.password_policy_require_numbers, true),
            require_special: bool_or(c.password_policy_require_special, false),
        },
    }
}

fn value_bool_or(v: &ConfigValue, d: bool) -> (b: bool)
    ensures
        b == bool_or(*v, d),
{
    match v {
        ConfigValue::Bool(b) => *b,
        _ => d,
    }
}

/// The password policy read from the stored configuration.
pub fn get_password_policy(config: Option<&SystemConfig>) -> (p: PasswordPolicy)
    ensures
        p == scan_password_policy(unref(config)),
{
    match config {
        None => PasswordPolicy {
            min_length: 8,
            max_length: None,
            require_uppercase: true,
            require_lowercase: true,
            require_numbers: true,
            require_special: false,
        },
        Some(c) => {
            let min_length: usize = match c.password_policy_min_length {
                ConfigValue::UInt(v) => {
                    #[verifier::truncate]
                    let n = v as usize;
                    n
                },
                _ => 8,
            };
            PasswordPolicy {
                min_length,
                max_length: None,
                require_uppercase: value_bool_or(&c.password_policy_require_uppercase, true),
                require_lowercase: true,
                require_numbers: value_bool_or(&c.password_policy_require_numbers, true),
                require_special: value_bool_or(&c.password_policy_require_special, false),
            }
        },
    }
}

/// The default of a user's `enabled` flag when a record lacks it.
pub fn default_enabled() -> (b: bool)
    ensures
        b,
{
    true
}

/// A user account as the admin service shows it.  Times are Unix seconds.
#[derive(Debug)]
pub struct UserInfo {
    pub id: String,
    pub username: String,
    pub email: String,
    pub full_name: Option<String>,
    pub enabled: bool,
    pub roles: Vec<String>,
    pub permissions: Vec<String>,
    pub last_login: Option<i64>,
    pub created_at: i64,
    pub updated_at: i64,
    pub metadata: Vec<(String, String)>,
}

/// Integer division rounding toward zero, as Rust's `/` does.
pub open spec fn trunc_div(a: int, b: int) -> int {
    if a >= 0 {
        a / b
    } else {
        -((-a) / b)
    }
}

/// Whole days from `earlier` to `later` (seconds), rounded toward zero.
pub open spec fn days_between(later: i64, earlier: i64) -> int {
    trunc_div(later - earlier, 86400)
}

fn days_between_exec(later: i64, earlier: i64) -> (d: i64)
    ensures
        d == days_between(later, earlier),
{
    let diff: i128 = later as i128 - earlier as i128;
    if diff >= 0 {
        let q: u128 = (diff as u128) / 86400;
        q as i64
    } else {
        let q: u128 = ((-diff) as u128) / 86400;
        -(q as i64)
    }
}

/// The findings about one account's activity at time `now`.
pub open spec fn activity_findings(u: UserInfo, now: i64) -> Seq<FindingText> {
    let name = u.username@;
    (match u.last_login {
        Some(t) => if days_between(now, t) > 90 {
            seq![
                ft(
                    "medium",
                    "authentication",
                    "Inactive user account: "@ + name,
                    "User "@ + name + " has not logged in for "@ + signed_decimal(
                        days_between(now, t),
                    ) + " days"@,
                    "Review inactive accounts and disable if no longer needed",
                    seq!["user:"@ + name],
                ),
            ]
        } else {
            seq![]
        },
        None => seq![],
    }) + if u.last_login is None && days_between(now, u.created_at) > 30 {
        seq![
            ft(
                "low",
                "authentication",
                "Unused user account: "@ + name,
                "User "@ + name + " was created "@ + signed_decimal(days_between(now, u.created_at))
                    + " days ago but has never logged in"@,
                "Review unused accounts and remove if not needed",
                seq!["user:"@ + name],
            ),
        ]
    } else {
        seq![]
    }
}

/// The activity findings of all accounts, account by account.
pub open spec fn all_activity_findings(users: Seq<UserInfo>, now: i64) -> Seq<FindingText>
    decreases users.len(),
{
    if users.len() == 0 {
        seq![]
    } else {
        all_activity_findings(users.drop_last(), now) + activity_findings(users.last(), now)
    }
}

/// The findings about a weak password policy.
pub open spec fn policy_findings(p: PasswordPolicy) -> Seq<FindingText> {
    (if p.min_length < 8 {
        seq![
            ft(
                "high",
                "configuration",
                "Weak password minimum length"@,
                "Password policy requires minimum length of "@ + decimal(p.min_length as nat)
                    + " characters"@,
                "Increase minimum password length to at least 8 characters",
                seq!["password_policy"@],
            ),
        ]
    } else {
        seq![]
    }) + (if !p.require_uppercase {
        seq![
            ft(
                "medium",
                "configuration",
                "Password policy doesn't require uppercase"@,
                "Password policy should require at least one uppercase character"@,
                "Enable uppercase character requirement in password policy",
                seq!["password_policy"@],
            ),
        ]
    } else {
        seq![]
    }) + (if !p.require_numbers {
        seq![
            ft(
                "medium",
                "configuration",
                "Password policy doesn't require numbers"@,
                "Password policy should require at least one numeric character"@,
                "Enable numeric character requirement in password policy",
                seq!["password_policy"@],
            ),
        ]
    } else {
        seq![]
    }) + if !p.require_special {
        seq![
            ft(
                "low",
                "configuration",
                "Password policy doesn't require special characters"@,
                "Password policy should require at least one special character"@,
                "Enable special character requirement in password policy",
                seq!["password_policy"@],
            ),
        ]
    } else {
        seq![]
    }
}

/// The value stored under key `k` (the last entry with that key).
pub open spec fn meta_lookup(m: Seq<(String, String)>, k: Seq<char>) -> Option<Seq<char>>
    decreases m.len(),
{
    if m.len() == 0 {
        None
    } else if m.last().0@ == k {
        Some(m.last().1@)
    } else {
        meta_lookup(m.drop_last(), k)
    }
}

/// The value stored under a key.
pub fn meta_get(m: &Vec<(String, String)>, k: &str) -> (r: Option<String>)
    ensures
        match r {
            Some(v) => meta_lookup(m@, k@) == Some(v@),
            None => meta_lookup(m@, k@) is None,
        },
{
    let n = m.len();
    let mut i = n;
    assert(m@.take(n as int) =~= m@);
    while i > 0
        invariant
            i <= n == m@.len(),
            meta_lookup(m@, k@) == meta_lookup(m@.take(i as int), k@),
        decreases i,
    {
        assert(m@.take(i as int).drop_last() =~= m@.take(i - 1));
        if str_is(m[i - 1].0.as_str(), k) {
            return Some(m[i - 1].1.clone());
        }
        i = i - 1;
    }
    None
}

/// The first weak-password word found in a hint, compared without regard
/// to ASCII case.
pub open spec fn weak_indicator(hint: Seq<char>) -> Option<Seq<char>> {
    let l = ascii_lower(hint);
    if seq_contains(l, "password"@) {
        Some("password"@)
    } else if seq_contains(l, "123456"@) {
        Some("123456"@)
    } else if seq_contains(l, "admin"@) {
        Some("admin"@)
    } else if seq_contains(l, "user"@) {
        Some("user"@)
    } else if seq_contains(l, "default"@) {
        Some("default"@)
    } else {
        None
    }
}

/// The finding about an account whose password hint looks weak.
pub open spec fn hint_findings(u: UserInfo) -> Seq<FindingText> {
    match meta_lookup(u.metadata@, "password_hint"@) {
        Some(h) => match weak_indicator(h) {
            Some(w) => seq![
                ft(
                    "high",
                    "authentication",
                    "Potentially weak password for user: "@ + u.username@,
                    "User "@ + u.username@ + " has a password hint containing '"@ + w + "'"@,
                    "Require user to change password immediately",
                    seq!["user:"@ + u.username@],
                ),
            ],
            None => seq![],
        },
        None => seq![],
    }
}

/// The hint findings of all accounts.
pub open spec fn all_hint_findings(users: Seq<UserInfo>) -> Seq<FindingText>
    decreases users.len(),
{
    if users.len() == 0 {
        seq![]
    } else {
        all_hint_findings(users.drop_last()) + hint_findings(users.last())
    }
}

/// The findings of the password review: account activity, then the policy,
/// then weak hints; when there is none, one informational finding.
pub open spec fn password_findings(users: Seq<UserInfo>, p: PasswordPolicy, now: i64) -> Seq<
    FindingText,
> {
    let f = all_activity_findings(users, now) + policy_findings(p) + all_hint_findings(users);
    if f.len() == 0 {
        seq![
            ft(
                "info",
                "authentication",
                "Password security review completed"@,
                "No immediate password security issues found"@,
                "Continue regular password policy reviews and user account audits",
                seq!["password_security"@],
            ),
        ]
    } else {
        f
    }
}

fn user_resource(name: &String) -> (v: Vec<String>)
    ensures
        views(v@) == seq!["user:"@ + name@],
{
    let s = text_str("user:", name.as_str(), "");
    proof {
        reveal_strlit("");
        assert(s@ =~= "user:"@ + name@);
    }
    one_res_string(s)
}

fn text_days(a: &str, name: &String, b: &str, days: i64, c: &str) -> (s: String)
    ensures
        s@ == a@ + name@ + b@ + signed_decimal(days as int) + c@,
{
    let mut v = chars_of(a);
    push_str(&mut v, name.as_str());
    push_str(&mut v, b);
    let d = signed_decimal_chars(days);
    push_all(&mut v, d.as_slice());
    push_str(&mut v, c);
    string_from_chars(v.as_slice())
}

fn title_for(a: &str, name: &String) -> (s: String)
    ensures
        s@ == a@ + name@,
{
    let mut v = chars_of(a);
    push_str(&mut v, name.as_str());
    string_from_chars(v.as_slice())
}

fn check_activity(u: &UserInfo, now: i64) -> (r: Vec<SecurityFinding>)
    ensures
        findings_text(r@) == activity_findings(*u, now),
{
    let mut r = no_findings();
    match u.last_login {
        Some(t) => {
            let d = days_between_exec(now, t);
            if d > 90 {
                let f = mk(
                    "medium",
                    "authentication",
                    title_for("Inactive user account: ", &u.username),
                    text_days("User ", &u.username, " has not logged in for ", d, " days"),
                    "Review inactive accounts and disable if no longer needed",
                    user_resource(&u.username),
                );
                append_findings(&mut r, single(f));
            }
        },
        None => {},
    }
    let c = days_between_exec(now, u.created_at);
    if u.last_login.is_none() && c > 30 {
        let f = mk(
            "low",
            "authentication",
            title_for("Unused user account: ", &u.username),
            text_days("User ", &u.username, " was created ", c, " days ago but has never logged in"),
            "Review unused accounts and remove if not needed",
            user_resource(&u.username),
        );
        append_findings(&mut r, single(f));
    }
    assert(findings_text(r@) =~= activity_findings(*u, now));
    r
}

fn check_policy(p: &PasswordPolicy) -> (r: Vec<SecurityFinding>)
    ensures
        findings_text(r@) == policy_findings(*p),
{
    let mut r = no_findings();
    if p.min_length < 8 {
        let f = mk(
            "high",
            "configuration",
            owned("Weak password minimum length"),
            text_num(
                "Password policy requires minimum length of ",
                p.min_length as u64,
                " characters",
            ),
            "Increase minimum password length to at least 8 characters",
            one_res("password_policy"),
        );
        append_findings(&mut r, single(f));
    }
    if !p.require_uppercase {
        let f = mk(
            "medium",
            "configuration",
            owned("Password policy doesn't require uppercase"),
            owned("Password policy should require at least one uppercase character"),
            "Enable uppercase character requirement in password policy",
            one_res("password_policy"),
        );
        append_findings(&mut r, single(f));
    }
    if !p.require_numbers {
        let f = mk(
            "medium",
            "configuration",
            owned("Password policy doesn't require numbers"),
            owned("Password policy should require at least one numeric character"),
            "Enable numeric character requirement in password policy",
            one_res("password_policy"),
        );
        append_findings(&mut r, single(f));
    }
    if !p.require_special {
        let f = mk(
            "low",
            "configuration",
            owned("Password policy doesn't require special characters"),
            owned("Password policy should require at least one special character"),
            "Enable special character requirement in password policy",
            one_res("password_policy"),
        );
        append_findings(&mut r, single(f));
    }
    assert(findings_text(r@) =~= policy_findings(*p));
    r
}

fn weak_word(hint: &String) -> (r: Option<&'static str>)
    ensures
        match r {
            Some(w) => weak_indicator(hint@) == Some(w@),
            None => weak_indicator(hint@) is None,
        },
{
    let hc = chars_of_string(hint);
    let l = to_ascii_lower(hc.as_slice());
    let w1 = chars_of("password");
    if crate::text::contains(l.as_slice(), w1.as_slice()) {
        return Some("password");
    }
    let w2 = chars_of("123456");
    if crate::text::contains(l.as_slice(), w2.as_slice()) {
        return Some("123456");
    }
    let w3 = chars_of("admin");
    if crate::text::contains(l.as_slice(), w3.as_slice()) {
        return Some("admin");
    }
    let w4 = chars_of("user");
    if crate::text::contains(l.as_slice(), w4.as_slice()) {
        return Some("user");
    }
    let w5 = chars_of("default");
    if crate::text::contains(l.as_slice(), w5.as_slice()) {
        return Some("default");
    }
    None
}

fn weak_hint_text(name: &String, w: &str) -> (s: String)
    ensures
        s@ == "User "@ + name@ + " has a password hint containing '"@ + w@ + "'"@,
{
    let mut v = chars_of("User ");
    push_str(&mut v, name.as_str());
    push_str(&mut v, " has a password hint containing '");
    push_str(&mut v, w);
    push_str(&mut v, "'");
    string_from_chars(v.as_slice())
}

fn check_hint(u: &UserInfo) -> (r: Vec<SecurityFinding>)
    ensures
        findings_text(r@) == hint_findings(*u),
{
    match meta_get(&u.metadata, "password_hint") {
        Some(h) => match weak_word(&h) {
            Some(w) => single(
                mk(
                    "high",
                    "authentication",
                    title_for("Potentially weak password for user: ", &u.username),
                    weak_hint_text(&u.username, w),
                    "Require user to change password immediately",
                    user_resource(&u.username),
                ),
            ),
            None => no_findings(),
        },
        None => no_findings(),
    }
}

/// Reviews accounts and the password policy at time `now` (Unix seconds):
/// accounts inactive for over 90 days, accounts never used for over 30
/// days, a weak policy, and password hints that contain a common weak
/// password word; with nothing to report, one informational finding.
pub fn check_password_security(users: &Vec<UserInfo>, policy: &PasswordPolicy, now: i64) -> (r:
    Vec<SecurityFinding>)
    ensures
        findings_text(r@) == password_findings(users@, *policy, now),
{
    let n = users.len();
    let mut r = no_findings();
    assert(users@.take(0) =~= Seq::<UserInfo>::empty());
    for i in 0..n
        invariant
            n == users@.len(),
            findings_text(r@) == all_activity_findings(users@.take(i as int), now),
    {
        assert(users@.take(i + 1).drop_last() =~= users@.take(i as int));
        append_findings(&mut r, check_activity(&users[i], now));
    }
    assert(users@.take(n as int) =~= users@);
    append_findings(&mut r, check_policy(policy));
    let mut h = no_findings();
    for i in 0..n
        invariant
            n == users@.len(),
            findings_text(h@) == all_hint_findings(users@.take(i as int)),
    {
        assert(users@.take(i + 1).drop_last() =~= users@.take(i as int));
        append_findings(&mut h, check_hint(&users[i]));
    }
    append_findings(&mut r, h);
    if r.len() == 0 {
        return single(
            mk(
                "info",
                "authentication",
                owned("Password security review completed"),
                owned("No immediate password security issues found"),
                "Continue regular password policy reviews and user account audits",
                one_res("password_security"),
            ),
        );
    }
    r
}


/// An audit log line as the admin API shows it.
#[derive(Debug)]
pub struct AuditLogEntry {
    pub id: String,
    /// Nanoseconds since the Unix epoch.
    pub timestamp: i64,
    /// The user name the event was recorded under.
    pub user_id: String,
    pub action: String,
    pub resource: String,
    pub resource_id: Option<String>,
    pub ip_address: String,
    pub user_agent: String,
    pub success: bool,
    pub details: Vec<(String, String)>,
}

/// The admin view of a query result.
pub open spec fn log_entry_of(l: AuditLogEntry, r: RichAuditEntry) -> bool {
    &&& l.id@ == uuid_hyphenated(r.entry.id)
    &&& l.timestamp == r.entry.timestamp
    &&& l.user_id@ == r.original_user@
    &&& l.action@ == r.entry.action@
    &&& l.resource@ == r.entry.resource_type@
    &&& l.resource_id == r.entry.resource_id
    &&& l.ip_address@ == text_or_empty(r.entry.ip_address)
    &&& l.user_agent@ == text_or_empty(r.entry.user_agent)
    &&& l.success == r.entry.success
    &&& l.details@ == r.entry.details@
}

fn clone_opt_string(o: &Option<String>) -> (r: Option<String>)
    ensures
        r == *o,
{
    match o {
        Some(s) => Some(s.clone()),
        None => None,
    }
}

fn text_or_empty_of(o: &Option<String>) -> (s: String)
    ensures
        s@ == text_or_empty(*o),
{
    match o {
        Some(x) => x.clone(),
        None => {
            proof {
                reveal_strlit("");
            }
            owned("")
        },
    }
}

fn clone_pairs(v: &Vec<(String, String)>) -> (r: Vec<(String, String)>)
    ensures
        r@ == v@,
{
    let n = v.len();
    let mut r: Vec<(String, String)> = Vec::new();
    for i in 0..n
        invariant
            n == v@.len(),
            r@ == v@.take(i as int),
    {
        let p = (v[i].0.clone(), v[i].1.clone());
        r.push(p);
        assert(r@ =~= v@.take(i + 1));
    }
    assert(v@.take(n as int) =~= v@);
    r
}

fn log_entry(r: &RichAuditEntry) -> (l: AuditLogEntry)
    ensures
        log_entry_of(l, *r),
{
    AuditLogEntry {
        id: uuid_text(r.entry.id),
        timestamp: r.entry.timestamp,
        user_id: r.original_user.clone(),
        action: r.entry.action.clone(),
        resource: r.entry.resource_type.clone(),
        resource_id: clone_opt_string(&r.entry.resource_id),
        ip_address: text_or_empty_of(&r.entry.ip_address),
        user_agent: text_or_empty_of(&r.entry.user_agent),
        success: r.entry.success,
        details: clone_pairs(&r.entry.details),
    }
}

/// The number of audit lines returned: all of them, or the first `limit`.
pub open spec fn shown_count(n: nat, limit: Option<u32>) -> nat {
    match limit {
        Some(l) => if (l as nat) < n {
            l as nat
        } else {
            n
        },
        None => n,
    }
}

/// The admin audit log: the query results in order, each as an audit line
/// under the user name it was recorded with, cut to `limit` lines after
/// filtering.
pub fn audit_log_entries(entries: &Vec<RichAuditEntry>, limit: Option<u32>) -> (r: Vec<AuditLogEntry>)
    ensures
        r@.len() == shown_count(entries@.len(), limit),
        forall|i: int| 0 <= i < r@.len() ==> log_entry_of(#[trigger] r@[i], entries@[i]),
{
    let n = entries.len();
    let m: usize = match limit {
        Some(l) => if (l as u64) < (n as u64) {
            l as usize
        } else {
            n
        },
        None => n,
    };
    let mut r: Vec<AuditLogEntry> = Vec::new();
    for i in 0..m
        invariant
            m <= n == entries@.len(),
            m == shown_count(n as nat, limit),
            r@.len() == i,
            forall|k: int| 0 <= k < i ==> log_entry_of(#[trigger] r@[k], entries@[k]),
    {
        r.push(log_entry(&entries[i]));
    }
    r
}

/// Failed logins among the audit lines.
pub open spec fn failed_login_count(logs: Seq<AuditLogEntry>) -> nat
    decreases logs.len(),
{
    if logs.len() == 0 {
        0
    } else {
        failed_login_count(logs.drop_last()) + if logs.last().action@ == "login"@
            && !logs.last().success {
            1nat
        } else {
            0nat
        }
    }
}

/// Deletions and modifications among the audit lines.
pub open spec fn destructive_count(logs: Seq<AuditLogEntry>) -> nat
    decreases logs.len(),
{
    if logs.len() == 0 {
        0
    } else {
        destructive_count(logs.drop_last()) + if logs.last().action@ == "delete"@
            || logs.last().action@ == "modify"@ {
            1nat
        } else {
            0nat
        }
    }
}

/// The findings about the last day's audit lines: over 10 failed logins,
/// over 50 deletions or modifications.
pub open spec fn activity_alerts(logs: Seq<AuditLogEntry>) -> Seq<FindingText> {
    (if failed_login_count(logs) > 10 {
        seq![
            ft(
                "medium",
                "authentication",
                "High number of failed login attempts"@,
                "Detected "@ + decimal(failed_login_count(logs)) + " failed login attempts in the last 24 hours"@,
                "Review authentication logs and consider implementing additional security measures",
                seq!["authentication"@],
            ),
        ]
    } else {
        seq![]
    }) + if destructive_count(logs) > 50 {
        seq![
            ft(
                "low",
                "access_control",
                "High volume of destructive operations"@,
                "Detected "@ + decimal(destructive_count(logs))
                    + " potentially destructive operations in the last 24 hours"@,
                "Monitor for unusual access patterns and ensure proper authorization",
                seq!["secreton_operations"@],
            ),
        ]
    } else {
        seq![]
    }
}

/// Looks for suspicious patterns in the audit lines of the last 24 hours.
pub fn check_suspicious_activity(logs: &Vec<AuditLogEntry>) -> (r: Vec<SecurityFinding>)
    ensures
        findings_text(r@) == activity_alerts(logs@),
{
    let n = logs.len();
    let mut failed: u64 = 0;
    let mut destructive: u64 = 0;
    for i in 0..n
        invariant
            n == logs@.len(),
            failed == failed_login_count(logs@.take(i as int)),
            destructive == destructive_count(logs@.take(i as int)),
            failed <= i,
            destructive <= i,
    {
        assert(logs@.take(i + 1).drop_last() =~= logs@.take(i as int));
        let l = &logs[i];
        if str_is(l.action.as_str(), "login") && !l.success {
            failed = failed + 1;
        }
        if str_is(l.action.as_str(), "delete") || str_is(l.action.as_str(), "modify") {
            destructive = destructive + 1;
        }
    }
    assert(logs@.take(n as int) =~= logs@);
    let mut r = no_findings();
    if failed > 10 {
        append_findings(
            &mut r,
            single(
                mk(
                    "medium",
                    "authentication",
                    owned("High number of failed login attempts"),
                    text_num("Detected ", failed, " failed login attempts in the last 24 hours"),
                    "Review authentication logs and consider implementing additional security measures",
                    one_res("authentication"),
                ),
            ),
        );
    }
    if destructive > 50 {
        append_findings(
            &mut r,
            single(
                mk(
                    "low",
                    "access_control",
                    owned("High volume of destructive operations"),
                    text_num(
                        "Detected ",
                        destructive,
                        " potentially destructive operations in the last 24 hours",
                    ),
                    "Monitor for unusual access patterns and ensure proper authorization",
                    one_res("secreton_operations"),
                ),
            ),
        );
    }
    assert(findings_text(r@) =~= activity_alerts(logs@));
    r
}

/// Formats of the audit log export.
#[derive(Debug, Clone, Copy, PartialEq, Eq, Structural)]
pub enum LogExportFormat {
    Json,
    Csv,
    Xml,
}

/// The export format named by a request, compared without regard to case.
/// (Only ASCII letters can lowercase to the letters of "json", "csv" and
/// "xml", so ASCII folding decides as full lowercasing would.)
pub open spec fn export_format_named(format: Seq<char>) -> Option<LogExportFormat> {
    let l = ascii_lower(format);
    if l == "json"@ {
        Some(LogExportFormat::Json)
    } else if l == "csv"@ {
        Some(LogExportFormat::Csv)
    } else if l == "xml"@ {
        Some(LogExportFormat::Xml)
    } else {
        None
    }
}

/// The export format a request names; any other name is refused.
pub fn parse_export_format(format: &str) -> (r: Result<LogExportFormat, AdminError>)
    ensures
        match export_format_named(format@) {
            Some(f) => r == Ok::<LogExportFormat, AdminError>(f),
            None => err_config(r, "Unsupported export format: "@ + format@),
        },
{
    let fc = chars_of(format);
    let l = to_ascii_lower(fc.as_slice());
    let j = chars_of("json");
    let c = chars_of("csv");
    let x = chars_of("xml");
    if crate::text::chars_eq(l.as_slice(), j.as_slice()) {
        Ok(LogExportFormat::Json)
    } else if crate::text::chars_eq(l.as_slice(), c.as_slice()) {
        Ok(LogExportFormat::Csv)
    } else if crate::text::chars_eq(l.as_slice(), x.as_slice()) {
        Ok(LogExportFormat::Xml)
    } else {
        Err(config_error("Unsupported export format: ", format))
    }
}

/// One line of the admin CSV export (cells quoted, not escaped).
pub open spec fn log_csv_line(l: AuditLogEntry) -> Seq<char> {
    "\""@ + utc_text(l.timestamp) + "\",\""@ + l.user_id@ + "\",\""@ + l.action@ + "\",\""@
        + l.resource@ + "\",\""@ + text_or_empty(l.resource_id) + "\",\""@ + l.ip_address@
        + "\",\""@ + l.user_agent@ + "\",\""@ + bool_text(l.success) + "\"\n"@
}

/// The lines of the admin CSV export.
pub open spec fn log_csv_lines(s: Seq<AuditLogEntry>) -> Seq<char>
    decreases s.len(),
{
    if s.len() == 0 {
        Seq::empty()
    } else {
        log_csv_lines(s.drop_last()) + log_csv_line(s.last())
    }
}

/// First line of the admin CSV export.
pub open spec fn log_csv_header() -> Seq<char> {
    "timestamp,user_id,action,resource,resource_id,ip_address,user_agent,success\n"@
}

fn push_string(v: &mut Vec<char>, s: &String)
    ensures
        final(v)@ == old(v)@ + s@,
{
    let c = chars_of_string(s);
    push_all(v, c.as_slice());
}

fn push_csv_line(v: &mut Vec<char>, l: &AuditLogEntry)
    ensures
        final(v)@ == old(v)@ + log_csv_line(*l),
{
    let ghost s0 = v@;
    push_str(v, "\"");
    let t = audit_time_text(l.timestamp);
    push_string(v, &t);
    push_str(v, "\",\"");
    push_string(v, &l.user_id);
    push_str(v, "\",\"");
    push_string(v, &l.action);
    push_str(v, "\",\"");
    let ghost s1 = v@;
    assert(s1 =~= s0 + "\""@ + utc_text(l.timestamp) + "\",\""@ + l.user_id@ + "\",\""@
        + l.action@ + "\",\""@);
    push_string(v, &l.resource);
    push_str(v, "\",\"");
    let rid = text_or_empty_of(&l.resource_id);
    push_string(v, &rid);
    push_str(v, "\",\"");
    push_string(v, &l.ip_address);
    push_str(v, "\",\"");
    let ghost s2 = v@;
    assert(s2 =~= s1 + l.resource@ + "\",\""@ + text_or_empty(l.resource_id) + "\",\""@
        + l.ip_address@ + "\",\""@);
    push_string(v, &l.user_agent);
    push_str(v, "\",\"");
    let b = bool_string(l.success);
    push_string(v, &b);
    push_str(v, "\"\n");
    assert(v@ =~= s2 + l.user_agent@ + "\",\""@ + bool_text(l.success) + "\"\n"@);
    assert(v@ =~= s0 + log_csv_line(*l));
}

/// The admin CSV export of audit lines.
pub fn export_logs_csv(logs: &Vec<AuditLogEntry>) -> (s: String)
    ensures
        s@ == log_csv_header() + log_csv_lines(logs@),
{
    let mut v = chars_of("timestamp,user_id,action,resource,resource_id,ip_address,user_agent,success\n");
    let n = logs.len();
    assert(logs@.take(0) =~= Seq::<AuditLogEntry>::empty());
    for i in 0..n
        invariant
            n == logs@.len(),
            v@ == log_csv_header() + log_csv_lines(logs@.take(i as int)),
    {
        push_csv_line(&mut v, &logs[i]);
        proof {
            assert(logs@.take(i + 1).drop_last() =~= logs@.take(i as int));
            assert(v@ =~= log_csv_header() + log_csv_lines(logs@.take(i + 1)));
        }
    }
    assert(logs@.take(n as int) =~= logs@);
    string_from_chars(v.as_slice())
}

/// One entry of the XML export (values not escaped).
pub open spec fn log_xml_entry(l: AuditLogEntry) -> Seq<char> {
    "  <entry>\n    <timestamp>"@ + utc_text(l.timestamp) + "</timestamp>\n    <user_id>"@
        + l.user_id@ + "</user_id>\n    <action>"@ + l.action@ + "</action>\n    <resource>"@
        + l.resource@ + "</resource>\n    <success>"@ + bool_text(l.success)
        + "</success>\n  </entry>\n"@
}

/// The entries of the XML export.
pub open spec fn log_xml_entries(s: Seq<AuditLogEntry>) -> Seq<char>
    decreases s.len(),
{
    if s.len() == 0 {
        Seq::empty()
    } else {
        log_xml_entries(s.drop_last()) + log_xml_entry(s.last())
    }
}

fn push_xml_entry(v: &mut Vec<char>, l: &AuditLogEntry)
    ensures
        final(v)@ == old(v)@ + log_xml_entry(*l),
{
    let ghost s0 = v@;
    push_str(v, "  <entry>\n    <timestamp>");
    let t = audit_time_text(l.timestamp);
    push_string(v, &t);
    push_str(v, "</timestamp>\n    <user_id>");
    push_string(v, &l.user_id);
    push_str(v, "</user_id>\n    <action>");
    let ghost s1 = v@;
    assert(s1 =~= s0 + "  <entry>\n    <timestamp>"@ + utc_text(l.timestamp)
        + "</timestamp>\n    <user_id>"@ + l.user_id@ + "</user_id>\n    <action>"@);
    push_string(v, &l.action);
    push_str(v, "</action>\n    <resource>");
    push_string(v, &l.resource);
    push_str(v, "</resource>\n    <success>");
    let b = bool_string(l.success);
    push_string(v, &b);
    push_str(v, "</success>\n  </entry>\n");
    assert(v@ =~= s1 + l.action@ + "</action>\n    <resource>"@ + l.resource@
        + "</resource>\n    <success>"@ + bool_text(l.success) + "</success>\n  </entry>\n"@);
    assert(v@ =~= s0 + log_xml_entry(*l));
}

/// The XML export of audit lines.
pub fn export_logs_xml(logs: &Vec<AuditLogEntry>) -> (s: String)
    ensures
        s@ == "<?xml version=\"1.0\" encoding=\"UTF-8\"?>\n<audit_logs>\n"@ + log_xml_entries(logs@)
            + "</audit_logs>"@,
{
    let mut v = chars_of("<?xml version=\"1.0\" encoding=\"UTF-8\"?>\n<audit_logs>\n");
    let n = logs.len();
    assert(logs@.take(0) =~= Seq::<AuditLogEntry>::empty());
    for i in 0..n
        invariant
            n == logs@.len(),
            v@ == "<?xml version=\"1.0\" encoding=\"UTF-8\"?>\n<audit_logs>\n"@ + log_xml_entries(
                logs@.take(i as int),
            ),
    {
        push_xml_entry(&mut v, &logs[i]);
        proof {
            assert(logs@.take(i + 1).drop_last() =~= logs@.take(i as int));
            assert(v@ =~= "<?xml version=\"1.0\" encoding=\"UTF-8\"?>\n<audit_logs>\n"@
                + log_xml_entries(logs@.take(i + 1)));
        }
    }
    assert(logs@.take(n as int) =~= logs@);
    push_str(&mut v, "</audit_logs>");
    string_from_chars(v.as_slice())
}


/// A stored entry as the scans read it: its path and metadata.
#[derive(Debug)]
pub struct EntryMeta {
    pub path: String,
    pub metadata: Vec<(String, String)>,
}

/// The instant an RFC 3339 text denotes, as chrono reads it: Unix seconds
/// and the nanoseconds within the second (from 1 000 000 000 on within a
/// leap second); `None` when chrono rejects the text.
pub uninterp spec fn rfc3339_utc(text: Seq<char>) -> Option<(i64, u32)>;

/// Parses an RFC 3339 time.
///
/// Trusted: calls `chrono::DateTime::parse_from_rfc3339`, then `timestamp`
/// and `timestamp_subsec_nanos` of the result; the result is named by
/// `rfc3339_utc`.
#[verifier::external_body]
pub(crate) fn parse_rfc3339(text: &str) -> (r: Option<(i64, u32)>)
    ensures
        r == rfc3339_utc(text@),
{
    match chrono::DateTime::parse_from_rfc3339(text) {
        Ok(t) => Some((t.timestamp(), t.timestamp_subsec_nanos())),
        Err(_) => None,
    }
}

/// Nanoseconds from instant `n` to instant `e` as chrono counts them,
/// where a leap second (nanoseconds from 1 000 000 000 on) is counted in
/// the second it extends when the other instant lies later in the day.
pub open spec fn delta_nanos(e: (i64, u32), n: (i64, u32)) -> int {
    let e_sod = e.0 % 86400;
    let n_sod = n.0 % 86400;
    let adj: int = if e_sod > n_sod && n.1 >= 1_000_000_000 {
        1
    } else if e_sod < n_sod && e.1 >= 1_000_000_000 {
        -1
    } else {
        0
    };
    (e.0 - n.0 + adj) * 1_000_000_000 + (e.1 - n.1)
}

/// Whole days from `n` to `e`, rounded toward zero.
pub open spec fn days_until(e: (i64, u32), n: (i64, u32)) -> int {
    trunc_div(trunc_div(delta_nanos(e, n), 1_000_000_000), 86400)
}

/// Whole hours from `n` to `e`, rounded toward zero.
pub open spec fn hours_until(e: (i64, u32), n: (i64, u32)) -> int {
    trunc_div(trunc_div(delta_nanos(e, n), 1_000_000_000), 3600)
}

fn second_of_day(t: i64) -> (s: i64)
    ensures
        s == t % 86400,
{
    let k: i128 = 106751991167301;
    let x: i128 = t as i128 + k * 86400;
    proof {
        vstd::arithmetic::div_mod::lemma_mod_multiples_vanish(k as int, t as int, 86400);
        assert(x as int == 86400 * k + t);
    }
    let r: u128 = (x as u128) % 86400;
    r as i64
}

fn trunc_div_exec(a: i128, b: u128) -> (q: i128)
    requires
        0 < b,
        -0x7fff_ffff_ffff_ffff_ffff_ffff_ffff_ffff <= a,
    ensures
        q == trunc_div(a as int, b as int),
{
    if a >= 0 {
        ((a as u128) / b) as i128
    } else {
        let q: u128 = ((-a) as u128) / b;
        proof {
            assert(q <= (-a) as u128);
        }
        -(q as i128)
    }
}

/// Whole days and hours from `now` to `e`, as chrono's time delta counts
/// them.
fn days_hours_until(e: (i64, u32), now: (i64, u32)) -> (r: (i64, i64))
    ensures
        r.0 == days_until(e, now),
        r.1 == hours_until(e, now),
        -300000000000000000 <= r.0 <= 300000000000000000,
        -300000000000000000 <= r.1 <= 300000000000000000,
{
    let e_sod = second_of_day(e.0);
    let n_sod = second_of_day(now.0);
    let adj: i128 = if e_sod > n_sod && now.1 >= 1_000_000_000 {
        1
    } else if e_sod < n_sod && e.1 >= 1_000_000_000 {
        -1
    } else {
        0
    };
    let d: i128 = (e.0 as i128 - now.0 as i128 + adj) * 1_000_000_000 + (e.1 as i128 - now.1 as i128);
    let secs = trunc_div_exec(d, 1_000_000_000);
    proof {
        assert(-20000000000000000000 <= secs <= 20000000000000000000) by (nonlinear_arith)
            requires
                secs == trunc_div(d as int, 1_000_000_000),
                -20000000000000000000 * 1_000_000_000 <= d <= 20000000000000000000 * 1_000_000_000,
        ;
    }
    let days = trunc_div_exec(secs, 86400);
    let hours = trunc_div_exec(secs, 3600);
    proof {
        assert(-300000000000000000 <= hours <= 300000000000000000) by (nonlinear_arith)
            requires
                hours == trunc_div(secs as int, 3600),
                -20000000000000000000 <= secs <= 20000000000000000000,
        ;
        assert(-300000000000000000 <= days <= 300000000000000000) by (nonlinear_arith)
            requires
                days == trunc_div(secs as int, 86400),
                -20000000000000000000 <= secs <= 20000000000000000000,
        ;
    }
    (days as i64, hours as i64)
}


/// The finding about a certificate that expires `days` days (`hours`
/// hours) from now.
pub open spec fn expiry_findings(path: Seq<char>, days: int, hours: int) -> Seq<FindingText> {
    if days <= 0 {
        seq![
            ft(
                "critical",
                "certificates",
                "Certificate expired: "@ + path,
                "Certificate "@ + path + " has expired "@ + signed_decimal(-days) + " days ago"@,
                "Renew the certificate immediately and update all dependent services",
                seq![path],
            ),
        ]
    } else if days <= 7 {
        seq![
            ft(
                "critical",
                "certificates",
                "Certificate expiring critically soon: "@ + path,
                "Certificate "@ + path + " expires in "@ + signed_decimal(days) + " days ("@
                    + signed_decimal(hours) + " hours)"@,
                "Renew the certificate immediately to prevent service disruption",
                seq![path],
            ),
        ]
    } else if days <= 30 {
        seq![
            ft(
                "high",
                "certificates",
                "Certificate expiring soon: "@ + path,
                "Certificate "@ + path + " expires in "@ + signed_decimal(days) + " days"@,
                "Renew the certificate before it expires",
                seq![path],
            ),
        ]
    } else {
        seq![]
    }
}

/// The expiry findings of one entry at time `now`.
pub open spec fn entry_expiry_findings(e: EntryMeta, now: (i64, u32)) -> Seq<FindingText> {
    match meta_lookup(e.metadata@, "expires_at"@) {
        Some(t) => match rfc3339_utc(t) {
            Some(x) => expiry_findings(e.path@, days_until(x, now), hours_until(x, now)),
            None => seq![],
        },
        None => seq![],
    }
}

/// The expiry findings of all entries.
pub open spec fn all_expiry_findings(es: Seq<EntryMeta>, now: (i64, u32)) -> Seq<FindingText>
    decreases es.len(),
{
    if es.len() == 0 {
        seq![]
    } else {
        all_expiry_findings(es.drop_last(), now) + entry_expiry_findings(es.last(), now)
    }
}

/// The paths of the entries without an expiry.
pub open spec fn paths_without_expiry(es: Seq<EntryMeta>) -> Seq<Seq<char>>
    decreases es.len(),
{
    if es.len() == 0 {
        seq![]
    } else if meta_lookup(es.last().metadata@, "expires_at"@) is None {
        paths_without_expiry(es.drop_last()).push(es.last().path@)
    } else {
        paths_without_expiry(es.drop_last())
    }
}

/// The finding about entries without an expiry, if there are any.
pub open spec fn missing_expiry_findings(es: Seq<EntryMeta>) -> Seq<FindingText> {
    let p = paths_without_expiry(es);
    if p.len() == 0 {
        seq![]
    } else {
        seq![
            ft(
                "medium",
                "certificates",
                "Certificates without expiry information: "@ + decimal(p.len()),
                "Found "@ + decimal(p.len()) + " certificates that don't have expiry information set"@,
                "Review certificates and ensure expiry dates are properly configured for monitoring",
                p,
            ),
        ]
    }
}

/// The finding about a PKI certificate of one entry.
pub open spec fn entry_pki_findings(e: EntryMeta, now: (i64, u32)) -> Seq<FindingText> {
    match meta_lookup(e.metadata@, "certificate_expires_at"@) {
        Some(t) => match rfc3339_utc(t) {
            Some(x) => if 0 < days_until(x, now) <= 30 {
                seq![
                    ft(
                        "high",
                        "pki_certificates",
                        "PKI Certificate expiring soon: "@ + e.path@,
                        "PKI Certificate "@ + e.path@ + " expires in "@ + signed_decimal(
                            days_until(x, now),
                        ) + " days"@,
                        "Renew the PKI certificate before it expires",
                        seq![e.path@],
                    ),
                ]
            } else {
                seq![]
            },
            None => seq![],
        },
        None => seq![],
    }
}

/// The PKI findings of all entries.
pub open spec fn all_pki_findings(es: Seq<EntryMeta>, now: (i64, u32)) -> Seq<FindingText>
    decreases es.len(),
{
    if es.len() == 0 {
        seq![]
    } else {
        all_pki_findings(es.drop_last(), now) + entry_pki_findings(es.last(), now)
    }
}

/// The findings of the certificate check: `entries` is the storage listing
/// (`None` when storage could not be listed) and `pki_entries` the listing
/// scanned for PKI certificates (`None` when it failed, which is not
/// reported).
pub open spec fn certificate_findings(
    entries: Option<Seq<EntryMeta>>,
    pki_entries: Option<Seq<EntryMeta>>,
    now: (i64, u32),
) -> Seq<FindingText> {
    (match entries {
        Some(es) => all_expiry_findings(es, now) + missing_expiry_findings(es),
        None => seq![
            ft(
                "medium",
                "certificates",
                "Certificate monitoring not available"@,
                "Unable to scan certificate storage for expiry dates"@,
                "Ensure certificate storage is accessible and properly configured",
                seq!["certificate_storage"@],
            ),
        ],
    }) + match pki_entries {
        Some(ps) => all_pki_findings(ps, now),
        None => seq![],
    }
}

fn path_text(a: &str, path: &String, b: &str, n1: i64, c: &str, n2: i64, d: &str) -> (s: String)
    ensures
        s@ == a@ + path@ + b@ + signed_decimal(n1 as int) + c@ + signed_decimal(n2 as int) + d@,
{
    let mut v = chars_of(a);
    push_str(&mut v, path.as_str());
    push_str(&mut v, b);
    let x = signed_decimal_chars(n1);
    push_all(&mut v, x.as_slice());
    push_str(&mut v, c);
    let y = signed_decimal_chars(n2);
    push_all(&mut v, y.as_slice());
    push_str(&mut v, d);
    string_from_chars(v.as_slice())
}

fn path_text1(a: &str, path: &String, b: &str, n: i64, c: &str) -> (s: String)
    ensures
        s@ == a@ + path@ + b@ + signed_decimal(n as int) + c@,
{
    let mut v = chars_of(a);
    push_str(&mut v, path.as_str());
    push_str(&mut v, b);
    let x = signed_decimal_chars(n);
    push_all(&mut v, x.as_slice());
    push_str(&mut v, c);
    string_from_chars(v.as_slice())
}

fn check_entry_expiry(e: &EntryMeta, now: (i64, u32)) -> (r: Vec<SecurityFinding>)
    ensures
        findings_text(r@) == entry_expiry_findings(*e, now),
{
    let t = match meta_get(&e.metadata, "expires_at") {
        Some(t) => t,
        None => {
            return no_findings();
        },
    };
    let x = match parse_rfc3339(t.as_str()) {
        Some(x) => x,
        None => {
            return no_findings();
        },
    };
    let (days, hours) = days_hours_until(x, now);
    let p = &e.path;
    if days <= 0 {
        let nd: i64 = -days;
        single(
            mk(
                "critical",
                "certificates",
                title_for("Certificate expired: ", p),
                path_text1("Certificate ", p, " has expired ", nd, " days ago"),
                "Renew the certificate immediately and update all dependent services",
                one_res_string(p.clone()),
            ),
        )
    } else if days <= 7 {
        single(
            mk(
                "critical",
                "certificates",
                title_for("Certificate expiring critically soon: ", p),
                path_text("Certificate ", p, " expires in ", days, " days (", hours, " hours)"),
                "Renew the certificate immediately to prevent service disruption",
                one_res_string(p.clone()),
            ),
        )
    } else if days <= 30 {
        single(
            mk(
                "high",
                "certificates",
                title_for("Certificate expiring soon: ", p),
                path_text1("Certificate ", p, " expires in ", days, " days"),
                "Renew the certificate before it expires",
                one_res_string(p.clone()),
            ),
        )
    } else {
        no_findings()
    }
}


fn check_entry_pki(e: &EntryMeta, now: (i64, u32)) -> (r: Vec<SecurityFinding>)
    ensures
        findings_text(r@) == entry_pki_findings(*e, now),
{
    let t = match meta_get(&e.metadata, "certificate_expires_at") {
        Some(t) => t,
        None => {
            return no_findings();
        },
    };
    let x = match parse_rfc3339(t.as_str()) {
        Some(x) => x,
        None => {
            return no_findings();
        },
    };
    let (days, _hours) = days_hours_until(x, now);
    if 0 < days && days <= 30 {
        single(
            mk(
                "high",
                "pki_certificates",
                title_for("PKI Certificate expiring soon: ", &e.path),
                path_text1("PKI Certificate ", &e.path, " expires in ", days, " days"),
                "Renew the PKI certificate before it expires",
                one_res_string(e.path.clone()),
            ),
        )
    } else {
        no_findings()
    }
}

fn check_missing_expiry(es: &Vec<EntryMeta>) -> (r: Vec<SecurityFinding>)
    ensures
        findings_text(r@) == missing_expiry_findings(es@),
{
    let n = es.len();
    let mut paths: Vec<String> = Vec::new();
    assert(es@.take(0) =~= Seq::<EntryMeta>::empty());
    for i in 0..n
        invariant
            n == es@.len(),
            views(paths@) == paths_without_expiry(es@.take(i as int)),
            paths@.len() <= i,
    {
        assert(es@.take(i + 1).drop_last() =~= es@.take(i as int));
        if meta_get(&es[i].metadata, "expires_at").is_none() {
            paths.push(es[i].path.clone());
            assert(views(paths@) =~= paths_without_expiry(es@.take(i + 1)));
        }
    }
    assert(es@.take(n as int) =~= es@);
    let k = paths.len();
    if k == 0 {
        return no_findings();
    }
    let title = text_num("Certificates without expiry information: ", k as u64, "");
    let desc = text_num("Found ", k as u64, " certificates that don't have expiry information set");
    proof {
        reveal_strlit("");
        assert(title@ =~= "Certificates without expiry information: "@ + decimal(k as nat));
    }
    single(
        mk(
            "medium",
            "certificates",
            title,
            desc,
            "Review certificates and ensure expiry dates are properly configured for monitoring",
            paths,
        ),
    )
}

/// Reviews expiry dates at time `now` (Unix seconds and nanoseconds): each
/// entry whose "expires_at" has passed or comes within 7 days is critical,
/// within 30 days high; entries without "expires_at" are listed in one
/// medium finding; PKI certificates ("certificate_expires_at") expiring
/// within 30 days are high.  A failed storage listing is itself a finding.
pub fn check_certificate_expiry(
    entries: Option<&Vec<EntryMeta>>,
    pki_entries: Option<&Vec<EntryMeta>>,
    now: (i64, u32),
) -> (r: Vec<SecurityFinding>)
    ensures
        findings_text(r@) == certificate_findings(
            match entries {
                Some(v) => Some(v@),
                None => None,
            },
            match pki_entries {
                Some(v) => Some(v@),
                None => None,
            },
            now,
        ),
{
    let mut r = no_findings();
    match entries {
        Some(es) => {
            let n = es.len();
            assert(es@.take(0) =~= Seq::<EntryMeta>::empty());
            for i in 0..n
                invariant
                    n == es@.len(),
                    findings_text(r@) == all_expiry_findings(es@.take(i as int), now),
            {
                assert(es@.take(i + 1).drop_last() =~= es@.take(i as int));
                append_findings(&mut r, check_entry_expiry(&es[i], now));
            }
            assert(es@.take(n as int) =~= es@);
            append_findings(&mut r, check_missing_expiry(es));
        },
        None => {
            r = single(
                mk(
                    "medium",
                    "certificates",
                    owned("Certificate monitoring not available"),
                    owned("Unable to scan certificate storage for expiry dates"),
                    "Ensure certificate storage is accessible and properly configured",
                    one_res("certificate_storage"),
                ),
            );
        },
    }
    match pki_entries {
        Some(ps) => {
            let n = ps.len();
            let mut q = no_findings();
            assert(ps@.take(0) =~= Seq::<EntryMeta>::empty());
            for i in 0..n
                invariant
                    n == ps@.len(),
                    findings_text(q@) == all_pki_findings(ps@.take(i as int), now),
            {
                assert(ps@.take(i + 1).drop_last() =~= ps@.take(i as int));
                append_findings(&mut q, check_entry_pki(&ps[i], now));
            }
            assert(ps@.take(n as int) =~= ps@);
            append_findings(&mut r, q);
        },
        None => {
            assert(findings_text(r@) =~= findings_text(r@) + Seq::<FindingText>::empty());
        },
    }
    r
}


/// The result of a security scan.  Times are Unix seconds.
#[derive(Debug)]
pub struct SecurityScanResult {
    pub scan_id: String,
    pub status: String,
    pub started_at: i64,
    pub completed_at: Option<i64>,
    pub findings: Vec<SecurityFinding>,
}

/// Assembles a completed scan from the four reviews, in the order
/// passwords, certificates, configuration, activity.
pub fn scan_result(
    scan_id: String,
    started_at: i64,
    completed_at: i64,
    passwords: Vec<SecurityFinding>,
    certificates: Vec<SecurityFinding>,
    configuration: Vec<SecurityFinding>,
    activity: Vec<SecurityFinding>,
) -> (r: SecurityScanResult)
    ensures
        r.scan_id == scan_id,
        r.status@ == "completed"@,
        r.started_at == started_at,
        r.completed_at == Some(completed_at),
        findings_text(r.findings@) == findings_text(passwords@) + findings_text(certificates@)
            + findings_text(configuration@) + findings_text(activity@),
{
    let mut f = passwords;
    append_findings(&mut f, certificates);
    append_findings(&mut f, configuration);
    append_findings(&mut f, activity);
    SecurityScanResult {
        scan_id,
        status: owned("completed"),
        started_at,
        completed_at: Some(completed_at),
        findings: f,
    }
}

/// The path lies in the backup area.
pub open spec fn is_backup_path(p: Seq<char>) -> bool {
    seq_starts_with(p, BACKUP_PREFIX@)
}

/// Whether a path lies in the backup area (backups are never backed up nor
/// restored).
pub fn in_backup_area(p: &str) -> (b: bool)
    ensures
        b == is_backup_path(p@),
{
    let c = chars_of(p);
    let b = chars_of(BACKUP_PREFIX);
    crate::text::starts_with(c.as_slice(), b.as_slice())
}

/// Where the data of a backup to restore comes from.
#[derive(Debug, Clone, Copy, PartialEq, Eq, Structural)]
pub enum BackupSource {
    /// The unencrypted data kept in the entry's metadata.
    Inline,
    /// The entry's encrypted payload, decrypted by the crypto service.
    Decrypt,
}

/// Where the data of a backup comes from: its inline data when it has
/// some, else its encrypted payload when that is non-empty and a crypto
/// service is available; otherwise the restore fails.
pub fn backup_data_source(has_inline_data: bool, encrypted_len: usize, crypto_available: bool) -> (r:
    Result<BackupSource, AdminError>)
    ensures
        has_inline_data ==> r == Ok::<BackupSource, AdminError>(BackupSource::Inline),
        !has_inline_data && encrypted_len > 0 && crypto_available ==> r == Ok::<
            BackupSource,
            AdminError,
        >(BackupSource::Decrypt),
        !has_inline_data && encrypted_len > 0 && !crypto_available ==> (r matches Err(
            AdminError::Internal(m),
        ) && m@ == "Crypto service unavailable, cannot decrypt backup"@),
        !has_inline_data && encrypted_len == 0 ==> (r matches Err(AdminError::Internal(m)) && m@
            == "Backup data not found"@),
{
    if has_inline_data {
        Ok(BackupSource::Inline)
    } else if encrypted_len > 0 {
        if crypto_available {
            Ok(BackupSource::Decrypt)
        } else {
            Err(AdminError::Internal(owned("Crypto service unavailable, cannot decrypt backup")))
        }
    } else {
        Err(AdminError::Internal(owned("Backup data not found")))
    }
}

/// The checksum text of backup data: "sha256:" and the lowercase hex of its
/// SHA-256 digest.
pub open spec fn backup_checksum_of(data: Seq<u8>) -> Seq<char> {
    "sha256:"@ + hex_of(sha256_of(data))
}

/// The checksum of backup data.
pub fn backup_checksum(data: &[u8]) -> (s: String)
    ensures
        s@ == backup_checksum_of(data@),
{
    let d = sha256(data);
    let h = hex_encode(d.as_slice());
    let mut v = chars_of("sha256:");
    push_string(&mut v, &h);
    string_from_chars(v.as_slice())
}

/// Verifies backup data against the checksum stored with it, if any.
pub fn verify_backup_checksum(data: &[u8], stored: Option<&str>) -> (r: Result<(), AdminError>)
    ensures
        match stored {
            Some(c) => if c@ == backup_checksum_of(data@) {
                r is Ok
            } else {
                r matches Err(AdminError::Internal(m)) && m@
                    == "Backup data integrity check failed: checksum mismatch"@
            },
            None => r is Ok,
        },
{
    match stored {
        Some(c) => {
            let computed = backup_checksum(data);
            if str_is(c, computed.as_str()) {
                Ok(())
            } else {
                Err(
                    AdminError::Internal(
                        owned("Backup data integrity check failed: checksum mismatch"),
                    ),
                )
            }
        },
        None => Ok(()),
    }
}

/// Information about a backup.  Times are Unix seconds.
#[derive(Debug)]
pub struct BackupInfo {
    pub id: String,
    pub created_at: i64,
    pub size_bytes: u64,
    pub compressed: bool,
    pub encrypted: bool,
    pub checksum: String,
    pub metadata: Vec<(String, String)>,
}

/// The metadata recorded with a new backup.
pub open spec fn backup_metadata_of(version: Seq<char>, entry_count: nat) -> Seq<
    (Seq<char>, Seq<char>),
> {
    seq![
        ("version"@, version),
        ("type"@, "full"@),
        ("entry_count"@, decimal(entry_count)),
    ]
}

/// The texts of key/value pairs.
pub open spec fn pair_texts(v: Seq<(String, String)>) -> Seq<(Seq<char>, Seq<char>)> {
    v.map_values(|p: (String, String)| (p.0@, p.1@))
}

fn backup_metadata(version: &str, entry_count: u64) -> (m: Vec<(String, String)>)
    ensures
        pair_texts(m@) == backup_metadata_of(version@, entry_count as nat),
{
    let mut m: Vec<(String, String)> = Vec::new();
    m.push((owned("version"), owned(version)));
    m.push((owned("type"), owned("full")));
    m.push((owned("entry_count"), decimal_string(entry_count)));
    assert(pair_texts(m@) =~= backup_metadata_of(version@, entry_count as nat));
    m
}

/// The information returned for a new backup of `entry_count` entries whose
/// serialized form is `data`: its size is that of the encrypted form when
/// encrypted, else of the data; it is never compressed.
pub fn new_backup_info(
    id: String,
    created_at: i64,
    data: &[u8],
    encrypted: Option<&Vec<u8>>,
    entry_count: u64,
    version: &str,
) -> (b: BackupInfo)
    ensures
        b.id == id,
        b.created_at == created_at,
        b.size_bytes == match encrypted {
            Some(e) => e@.len(),
            None => data@.len(),
        },
        !b.compressed,
        b.encrypted == encrypted is Some,
        b.checksum@ == backup_checksum_of(data@),
        pair_texts(b.metadata@) == backup_metadata_of(version@, entry_count as nat),
{
    let size_bytes: u64 = match encrypted {
        Some(e) => e.len() as u64,
        None => data.len() as u64,
    };
    BackupInfo {
        id,
        created_at,
        size_bytes,
        compressed: false,
        encrypted: encrypted.is_some(),
        checksum: backup_checksum(data),
        metadata: backup_metadata(version, entry_count),
    }
}

/// The positions, in order, among the first `n` stored paths, of those a
/// full backup takes: every path outside the backup area.
pub open spec fn snapshot_indices(paths: Seq<String>, n: int) -> Seq<int>
    decreases n,
{
    if n <= 0 {
        Seq::empty()
    } else if is_backup_path(paths[n - 1]@) {
        snapshot_indices(paths, n - 1)
    } else {
        snapshot_indices(paths, n - 1).push(n - 1)
    }
}

/// The stored entries a full backup takes, by their paths: every entry
/// outside the backup area, in storage order (earlier backups are never
/// backed up again).
pub fn backup_snapshot(paths: &Vec<String>) -> (r: Vec<usize>)
    ensures
        r@.map_values(|x: usize| x as int) == snapshot_indices(paths@, paths@.len() as int),
{
    let mut r: Vec<usize> = Vec::new();
    let n = paths.len();
    let mut i: usize = 0;
    while i < n
        invariant
            i <= n,
            n == paths@.len(),
            r@.map_values(|x: usize| x as int) == snapshot_indices(paths@, i as int),
        decreases n - i,
    {
        let ghost prev = r@;
        if !in_backup_area(paths[i].as_str()) {
            r.push(i);
            assert(r@.map_values(|x: usize| x as int) =~= prev.map_values(|x: usize| x as int).push(
                i as int,
            ));
        }
        i = i + 1;
    }
    r
}

/// The metadata stored on a backup entry: the backup metadata, and the
/// serialized data itself when the backup is not encrypted.
pub fn backup_entry_metadata(version: &str, entry_count: u64, inline_data: Option<String>) -> (m: Vec<
    (String, String),
>)
    ensures
        pair_texts(m@) == match inline_data {
            Some(d) => backup_metadata_of(version@, entry_count as nat).push(("data"@, d@)),
            None => backup_metadata_of(version@, entry_count as nat),
        },
{
    let mut m = backup_metadata(version, entry_count);
    let ghost before = m@;
    match inline_data {
        Some(d) => {
            m.push((owned("data"), d));
            assert(pair_texts(m@) =~= pair_texts(before).push(("data"@, m@.last().1@)));
        },
        None => {},
    }
    m
}

/// The outcome of a maintenance operation, with its numeric details.
#[derive(Debug)]
pub struct MaintenanceResult {
    pub operation: String,
    pub success: bool,
    pub duration_ms: u64,
    pub details: Vec<(String, u64)>,
}

/// The report of a garbage collection: the expired sessions and secrets it
/// removed and the bytes the storage cleanup freed.
pub fn garbage_collection_report(
    expired_sessions: u64,
    expired_secrets: u64,
    storage_cleaned_bytes: u64,
    duration_ms: u64,
) -> (r: MaintenanceResult)
    ensures
        r.operation@ == "garbage_collection"@,
        r.success,
        r.duration_ms == duration_ms,
        r.details@.len() == 3,
        r.details@[0].0@ == "expired_sessions"@ && r.details@[0].1 == expired_sessions,
        r.details@[1].0@ == "expired_secrets"@ && r.details@[1].1 == expired_secrets,
        r.details@[2].0@ == "storage_cleaned_bytes"@ && r.details@[2].1 == storage_cleaned_bytes,
{
    let mut details: Vec<(String, u64)> = Vec::new();
    details.push((owned("expired_sessions"), expired_sessions));
    details.push((owned("expired_secrets"), expired_secrets));
    details.push((owned("storage_cleaned_bytes"), storage_cleaned_bytes));
    MaintenanceResult { operation: owned("garbage_collection"), success: true, duration_ms, details }
}

/// The text after the last '/', or the whole text without one.
pub open spec fn last_segment(p: Seq<char>) -> Seq<char>
    decreases p.len(),
{
    if p.len() == 0 {
        p
    } else if p.last() == '/' {
        Seq::empty()
    } else {
        last_segment(p.drop_last()).push(p.last())
    }
}

/// The id of a backup stored at `path`: its last path segment.
pub fn backup_id_of(path: &str) -> (s: String)
    ensures
        s@ == last_segment(path@),
{
    let c = chars_of(path);
    let n = c.len();
    let mut i = n;
    assert(c@.take(n as int) =~= c@);
    assert(c@.subrange(n as int, n as int) =~= Seq::<char>::empty());
    while i > 0 && c[i - 1] != '/'
        invariant
            i <= n == c@.len(),
            last_segment(c@) == last_segment(c@.take(i as int)) + c@.subrange(i as int, n as int),
        decreases i,
    {
        assert(c@.take(i as int).drop_last() =~= c@.take(i - 1));
        assert(c@.subrange(i - 1, n as int) =~= seq![c@[i - 1]] + c@.subrange(i as int, n as int));
        assert(last_segment(c@.take(i as int)) =~= last_segment(c@.take(i - 1)).push(c@[i - 1]));
        i = i - 1;
    }
    proof {
        if i > 0 {
            assert(c@.take(i as int).last() == '/');
        } else {
            assert(c@.take(0) =~= Seq::<char>::empty());
        }
        assert(c@.take(n as int) =~= c@);
    }
    let tail = crate::text::slice_chars(c.as_slice(), i, n);
    string_from_chars(tail.as_slice())
}

/// The metadata without its "data" entries.
pub open spec fn without_data(m: Seq<(String, String)>) -> Seq<(String, String)>
    decreases m.len(),
{
    if m.len() == 0 {
        m
    } else if m.last().0@ == "data"@ {
        without_data(m.drop_last())
    } else {
        without_data(m.drop_last()).push(m.last())
    }
}

/// The information about a stored backup: encrypted unless stored in the
/// clear (algorithm "none" with the data kept in metadata); the size is
/// that of the data in metadata (in UTF-8 bytes) or of the stored bytes;
/// the checksum is the stored one, if any; the metadata loses "data".
pub fn stored_backup_info(
    id: String,
    created_at: i64,
    algorithm: &str,
    metadata: Vec<(String, String)>,
    stored_len: usize,
) -> (b: BackupInfo)
    ensures
        b.id == id,
        b.created_at == created_at,
        b.encrypted == (algorithm@ != "none"@ || meta_lookup(metadata@, "data"@) is None),
        b.size_bytes == match meta_lookup(metadata@, "data"@) {
            Some(d) => (utf8_size(d) as usize) as int,
            None => stored_len as int,
        },
        !b.compressed,
        b.checksum@ == match meta_lookup(metadata@, "checksum"@) {
            Some(c) => c,
            None => Seq::<char>::empty(),
        },
        b.metadata@ == without_data(metadata@),
{
    let data = meta_get(&metadata, "data");
    let size_bytes: u64 = match &data {
        Some(d) => {
            let k = d.as_str().len();
            assert(k == utf8_size(d@) as usize) by {
                reveal(utf8_size);
            }
            k as u64
        },
        None => stored_len as u64,
    };
    let encrypted = !str_is(algorithm, "none") || data.is_none();
    let checksum = match meta_get(&metadata, "checksum") {
        Some(c) => c,
        None => {
            proof {
                reveal_strlit("");
            }
            owned("")
        },
    };
    let n = metadata.len();
    let mut kept: Vec<(String, String)> = Vec::new();
    assert(metadata@.take(0) =~= Seq::<(String, String)>::empty());
    for i in 0..n
        invariant
            n == metadata@.len(),
            kept@ == without_data(metadata@.take(i as int)),
    {
        assert(metadata@.take(i + 1).drop_last() =~= metadata@.take(i as int));
        if !str_is(metadata[i].0.as_str(), "data") {
            let p = (metadata[i].0.clone(), metadata[i].1.clone());
            kept.push(p);
        }
    }
    assert(metadata@.take(n as int) =~= metadata@);
    BackupInfo {
        id,
        created_at,
        size_bytes,
        compressed: false,
        encrypted,
        checksum,
        metadata: kept,
    }
}


/// Entry counts of the system statistics: all entries count as secrets,
/// and keys are estimated as a tenth of them, at least one.
pub fn storage_counts(total_entries: u64) -> (r: (u64, u64))
    ensures
        r.0 == total_entries,
        r.1 == if total_entries / 10 >= 1 {
            total_entries / 10
        } else {
            1
        },
{
    let k = total_entries / 10;
    (total_entries, if k >= 1 {
        k
    } else {
        1
    })
}

/// Bytes freed by a cleanup: the drop in storage size, zero if it grew.
pub fn bytes_cleaned(before: u64, after: u64) -> (r: u64)
    ensures
        r == if before >= after {
            before - after
        } else {
            0
        },
{
    before.saturating_sub(after)
}

/// The numbers a compaction reports: original size, compacted size, space
/// saved (never negative) and entries processed.
pub fn compaction_details(before_size: u64, after_size: u64, entries: u64) -> (r: Vec<(String, u64)>)
    ensures
        r@.len() == 4,
        r@[0].0@ == "original_size_bytes"@ && r@[0].1 == before_size,
        r@[1].0@ == "compacted_size_bytes"@ && r@[1].1 == after_size,
        r@[2].0@ == "space_saved_bytes"@ && r@[2].1 == if before_size >= after_size {
            before_size - after_size
        } else {
            0
        },
        r@[3].0@ == "entries_processed"@ && r@[3].1 == entries,
{
    let mut r: Vec<(String, u64)> = Vec::new();
    r.push((owned("original_size_bytes"), before_size));
    r.push((owned("compacted_size_bytes"), after_size));
    r.push((owned("space_saved_bytes"), bytes_cleaned(before_size, after_size)));
    r.push((owned("entries_processed"), entries));
    r
}

/// Instant `a` is not later than instant `b`, both as (seconds, nanoseconds).
pub open spec fn instant_le(a: (i64, u32), b: (i64, u32)) -> bool {
    a.0 < b.0 || (a.0 == b.0 && a.1 <= b.1)
}

/// The entry carries a readable "expires_at" that is not after `now`.
pub open spec fn expired_at(e: EntryMeta, now: (i64, u32)) -> bool {
    meta_lookup(e.metadata@, "expires_at"@) matches Some(t) && rfc3339_utc(t) matches Some(x)
        && instant_le(x, now)
}

/// The paths of the expired entries, in order.
pub open spec fn expired_paths_of(es: Seq<EntryMeta>, now: (i64, u32)) -> Seq<Seq<char>>
    decreases es.len(),
{
    if es.len() == 0 {
        seq![]
    } else if expired_at(es.last(), now) {
        expired_paths_of(es.drop_last(), now).push(es.last().path@)
    } else {
        expired_paths_of(es.drop_last(), now)
    }
}

fn is_expired(e: &EntryMeta, now: (i64, u32)) -> (b: bool)
    ensures
        b == expired_at(*e, now),
{
    match meta_get(&e.metadata, "expires_at") {
        Some(t) => match parse_rfc3339(t.as_str()) {
            Some(x) => x.0 < now.0 || (x.0 == now.0 && x.1 <= now.1),
            None => false,
        },
        None => false,
    }
}

/// The paths that the cleanup of expired secrets deletes at time `now`:
/// entries whose "expires_at" is readable and not after `now`.
pub fn expired_paths(entries: &Vec<EntryMeta>, now: (i64, u32)) -> (r: Vec<String>)
    ensures
        views(r@) == expired_paths_of(entries@, now),
{
    let n = entries.len();
    let mut r: Vec<String> = Vec::new();
    assert(entries@.take(0) =~= Seq::<EntryMeta>::empty());
    for i in 0..n
        invariant
            n == entries@.len(),
            views(r@) == expired_paths_of(entries@.take(i as int), now),
    {
        assert(entries@.take(i + 1).drop_last() =~= entries@.take(i as int));
        if is_expired(&entries[i], now) {
            r.push(entries[i].path.clone());
            assert(views(r@) =~= expired_paths_of(entries@.take(i + 1), now));
        }
    }
    assert(entries@.take(n as int) =~= entries@);
    r
}

/// A role.  Times are Unix seconds.
#[derive(Debug)]
pub struct RoleInfo {
    pub name: String,
    pub description: Option<String>,
    pub permissions: Vec<String>,
    pub users: Vec<String>,
    pub created_at: i64,
    pub updated_at: i64,
    pub metadata: Vec<(String, String)>,
}

/// A request to create a role.
#[derive(Debug)]
pub struct CreateRoleRequest {
    pub name: String,
    pub description: Option<String>,
    pub permissions: Vec<String>,
    pub metadata: Option<Vec<(String, String)>>,
}

/// A partial update of a role.
#[derive(Debug)]
pub struct UpdateRoleRequest {
    pub description: Option<String>,
    pub permissions: Option<Vec<String>>,
    pub metadata: Option<Vec<(String, String)>>,
}

/// The error of a role that already exists.
pub fn role_exists_error(name: &str) -> (e: AdminError)
    ensures
        e matches AdminError::AlreadyExists(m) && m@ == "Role '"@ + name@ + "'"@,
{
    AdminError::AlreadyExists(text_str("Role '", name, "'"))
}

/// The error of a role that does not exist.
pub fn role_not_found_error(name: &str) -> (e: AdminError)
    ensures
        e matches AdminError::NotFound(m) && m@ == "Role "@ + name@ + " not found"@,
{
    AdminError::NotFound(text_str("Role ", name, " not found"))
}

/// The error of a user that does not exist.
pub fn user_not_found_error(username: &str) -> (e: AdminError)
    ensures
        e matches AdminError::NotFound(m) && m@ == "User "@ + username@ + " not found"@,
{
    AdminError::NotFound(text_str("User ", username, " not found"))
}

/// The error of a backup that does not exist.
pub fn backup_not_found_error(backup_id: &str) -> (e: AdminError)
    ensures
        e matches AdminError::NotFound(m) && m@ == "Backup "@ + backup_id@ + " not found"@,
{
    AdminError::NotFound(text_str("Backup ", backup_id, " not found"))
}

/// A new role from its request: no users yet, created and updated now,
/// without metadata when none was given.
pub fn new_role(request: CreateRoleRequest, now: i64) -> (r: RoleInfo)
    ensures
        r.name == request.name,
        r.description == request.description,
        r.permissions == request.permissions,
        r.users@.len() == 0,
        r.created_at == now,
        r.updated_at == now,
        r.metadata@ == match request.metadata {
            Some(m) => m@,
            None => Seq::<(String, String)>::empty(),
        },
{
    let metadata = match request.metadata {
        Some(m) => m,
        None => Vec::new(),
    };
    RoleInfo {
        name: request.name,
        description: request.description,
        permissions: request.permissions,
        users: Vec::new(),
        created_at: now,
        updated_at: now,
        metadata,
    }
}

/// A role after a partial update at time `now`: each given field replaces
/// the stored one; the update time is now.
pub fn apply_role_update(role: RoleInfo, request: UpdateRoleRequest, now: i64) -> (r: RoleInfo)
    ensures
        r.name == role.name,
        r.description == match request.description {
            Some(d) => Some(d),
            None => role.description,
        },
        r.permissions == match request.permissions {
            Some(p) => p,
            None => role.permissions,
        },
        r.users == role.users,
        r.created_at == role.created_at,
        r.updated_at == now,
        r.metadata == match request.metadata {
            Some(m) => m,
            None => role.metadata,
        },
{
    let mut role = role;
    match request.description {
        Some(d) => {
            role.description = Some(d);
        },
        None => {},
    }
    match request.permissions {
        Some(p) => {
            role.permissions = p;
        },
        None => {},
    }
    role.updated_at = now;
    match request.metadata {
        Some(m) => {
            role.metadata = m;
        },
        None => {},
    }
    role
}

/// A partial update of a user.
#[derive(Debug)]
pub struct UpdateUserRequest {
    pub email: Option<String>,
    pub full_name: Option<String>,
    pub enabled: Option<bool>,
    pub roles: Option<Vec<String>>,
}

/// The roles keep "admin" or "root".
pub open spec fn keeps_admin(roles: Seq<String>) -> bool {
    seq_has_str(roles, "admin"@) || seq_has_str(roles, "root"@)
}

/// The refusal owed to an update of the user `username`: the default admin
/// can be neither disabled nor stripped of admin privileges.
pub open spec fn user_update_refusal(username: Seq<char>, request: UpdateUserRequest) -> Option<
    Seq<char>,
> {
    if username == "admin"@ && request.enabled == Some(false) {
        Some("Cannot disable the default admin user"@)
    } else if username == "admin"@ && (request.roles matches Some(r) && !keeps_admin(r@)) {
        Some("Cannot remove admin privileges from the default admin user"@)
    } else {
        None
    }
}

fn keeps_admin_exec(roles: &Vec<String>) -> (b: bool)
    ensures
        b == keeps_admin(roles@),
{
    vec_has_str(roles, "admin") || vec_has_str(roles, "root")
}

/// Checks an update of an existing user against the protections of the
/// default admin account.
pub fn check_user_update(username: &str, request: &UpdateUserRequest) -> (r: Result<(), AdminError>)
    ensures
        match user_update_refusal(username@, *request) {
            Some(m) => err_not_permitted(r, m),
            None => r is Ok,
        },
{
    let is_admin = str_is(username, "admin");
    match request.enabled {
        Some(false) => if is_admin {
            return Err(AdminError::NotPermitted(owned("Cannot disable the default admin user")));
        },
        _ => {},
    }
    match &request.roles {
        Some(roles) => if is_admin && !keeps_admin_exec(roles) {
            return Err(
                AdminError::NotPermitted(
                    owned("Cannot remove admin privileges from the default admin user"),
                ),
            );
        },
        None => {},
    }
    Ok(())
}

/// A value of a stored user document, as far as updates tell values apart.
#[derive(Debug)]
pub enum DocValue {
    /// A JSON string.
    Str(String),
    /// A JSON boolean.
    Bool(bool),
    /// A JSON array of strings.
    Strs(Vec<String>),
    /// Any other JSON value, as its JSON text.
    Raw(String),
}

/// A stored user document: a JSON object, as its members in order.
#[derive(Debug)]
pub struct UserDocument {
    pub fields: Vec<(String, DocValue)>,
}

/// No two members share a key.
pub open spec fn keys_distinct(d: Seq<(String, DocValue)>) -> bool {
    forall|i: int, j: int|
        0 <= i < j < d.len() ==> (#[trigger] d[i]).0@ != (#[trigger] d[j]).0@
}

/// Some member has key `k`.
pub open spec fn has_key(d: Seq<(String, DocValue)>, k: Seq<char>) -> bool {
    exists|i: int| 0 <= i < d.len() && (#[trigger] d[i]).0@ == k
}

/// The document as a map from keys to values.
pub open spec fn doc_view(d: Seq<(String, DocValue)>) -> Map<Seq<char>, DocValue> {
    Map::new(
        |k: Seq<char>| has_key(d, k),
        |k: Seq<char>| d[choose|i: int| 0 <= i < d.len() && (#[trigger] d[i]).0@ == k].1,
    )
}

impl UserDocument {
    /// Members have distinct keys, as in any JSON object read back.
    pub open spec fn wf(&self) -> bool {
        keys_distinct(self.fields@)
    }

    /// The document as a map from keys to values.
    pub open spec fn view_map(&self) -> Map<Seq<char>, DocValue> {
        doc_view(self.fields@)
    }
}

proof fn lemma_doc_value_at(d: Seq<(String, DocValue)>, i: int)
    requires
        keys_distinct(d),
        0 <= i < d.len(),
    ensures
        doc_view(d).contains_key(d[i].0@),
        doc_view(d)[d[i].0@] == d[i].1,
{
    let k = d[i].0@;
    assert(has_key(d, k));
    let c = choose|j: int| 0 <= j < d.len() && (#[trigger] d[j]).0@ == k;
    if c != i {
        if c < i {
            assert(d[c].0@ != d[i].0@);
        } else {
            assert(d[i].0@ != d[c].0@);
        }
    }
}

/// Sets member `key` to `v`: replaced in place when present, else added.
fn set_field(d: &mut Vec<(String, DocValue)>, key: &str, v: DocValue)
    requires
        keys_distinct(old(d)@),
    ensures
        keys_distinct(final(d)@),
        doc_view(final(d)@) == doc_view(old(d)@).insert(key@, v),
{
    let ghost od = d@;
    let n = d.len();
    let mut i: usize = 0;
    while i < n
        invariant
            i <= n,
            n == d@.len(),
            d@ == od,
            forall|j: int| 0 <= j < i ==> (#[trigger] od[j]).0@ != key@,
        ensures
            i <= n,
            i < n ==> od[i as int].0@ == key@,
            forall|j: int| 0 <= j < i ==> (#[trigger] od[j]).0@ != key@,
        decreases n - i,
    {
        if str_is(d[i].0.as_str(), key) {
            break;
        }
        i = i + 1;
    }
    let ghost found = i < n;
    let k = owned(key);
    if i < n {
        d.set(i, (k, v));
    } else {
        d.push((k, v));
    }
    proof {
        let nd = d@;
        let idx: int = i as int;
        assert(nd[idx].0@ == key@ && nd[idx].1 == v);
        assert(forall|j: int| 0 <= j < od.len() && j != idx ==> #[trigger] nd[j] == od[j]);
        assert(!found ==> idx == od.len());
        assert(nd.len() == if found { od.len() } else { od.len() + 1 });
        assert(!found ==> !has_key(od, key@));
        assert forall|a: int, b: int| 0 <= a < b < nd.len() implies (#[trigger] nd[a]).0@
            != (#[trigger] nd[b]).0@ by {
            if a == idx {
                assert(nd[b] == od[b]);
                if found {
                    if od[b].0@ == key@ {
                        assert(od[idx].0@ != od[b].0@);
                    }
                } else {
                    assert(false);
                }
            } else if b == idx {
                assert(nd[a] == od[a]);
                if found {
                    assert(od[a].0@ != od[idx].0@);
                } else {
                    assert(od[a].0@ != key@) by {
                        if od[a].0@ == key@ {
                            assert(has_key(od, key@));
                        }
                    }
                }
            } else {
                assert(nd[a] == od[a] && nd[b] == od[b]);
            }
        }
        let m1 = doc_view(nd);
        let m2 = doc_view(od).insert(key@, v);
        assert forall|k: Seq<char>| m1.contains_key(k) <==> m2.contains_key(k) by {
            if m1.contains_key(k) {
                let w = choose|j: int| 0 <= j < nd.len() && (#[trigger] nd[j]).0@ == k;
                if w != idx {
                    assert(od[w] == nd[w]);
                    assert(has_key(od, k));
                }
            }
            if m2.contains_key(k) {
                if k == key@ {
                    assert(has_key(nd, k));
                } else {
                    let w = choose|j: int| 0 <= j < od.len() && (#[trigger] od[j]).0@ == k;
                    assert(nd[w] == od[w]);
                    assert(has_key(nd, k));
                }
            }
        }
        assert forall|k: Seq<char>| m1.contains_key(k) implies m1[k] == m2[k] by {
            let w = choose|j: int| 0 <= j < nd.len() && (#[trigger] nd[j]).0@ == k;
            lemma_doc_value_at(nd, w);
            if w == idx {
                assert(k == key@);
            } else {
                assert(nd[w] == od[w]);
                lemma_doc_value_at(od, w);
                if k == key@ {
                    assert(nd[idx].0@ == nd[w].0@);
                    if w < idx {
                        assert(nd[w].0@ != nd[idx].0@);
                    } else {
                        assert(nd[idx].0@ != nd[w].0@);
                    }
                }
            }
        }
        assert(m1 =~= m2);
    }
}

/// The document after applying an admitted update at the time `now_text`:
/// each of email, full name, enabled flag and roles given in the request
/// replaces (or adds) its member, the update time is set, and every other
/// member stays as it was.
pub open spec fn merged_user_doc(
    d: Map<Seq<char>, DocValue>,
    request: UpdateUserRequest,
    now_text: String,
) -> Map<Seq<char>, DocValue> {
    let d1 = match request.email {
        Some(e) => d.insert("email"@, DocValue::Str(e)),
        None => d,
    };
    let d2 = match request.full_name {
        Some(f) => d1.insert("full_name"@, DocValue::Str(f)),
        None => d1,
    };
    let d3 = match request.enabled {
        Some(b) => d2.insert("enabled"@, DocValue::Bool(b)),
        None => d2,
    };
    let d4 = match request.roles {
        Some(r) => d3.insert("roles"@, DocValue::Strs(r)),
        None => d3,
    };
    d4.insert("updated_at"@, DocValue::Str(now_text))
}

/// Merges an update into the stored document of the user `username`:
/// refused (with the document left alone) when it would disable the
/// default admin or strip its admin privileges; otherwise only the
/// requested members change, the update time is set, and every other
/// member of the document (password hash, MFA secret, lock state, ...) is
/// kept.
pub fn merge_user_update(
    username: &str,
    doc: UserDocument,
    request: UpdateUserRequest,
    now_text: String,
) -> (r: Result<UserDocument, AdminError>)
    requires
        doc.wf(),
    ensures
        match user_update_refusal(username@, request) {
            Some(m) => err_not_permitted(r, m),
            None => r matches Ok(d) && d.wf() && d.view_map() == merged_user_doc(
                doc.view_map(),
                request,
                now_text,
            ),
        },
{
    match check_user_update(username, &request) {
        Err(e) => Err(e),
        Ok(()) => {
            let ghost rq = request;
            let UpdateUserRequest { email, full_name, enabled, roles } = request;
            let mut f = doc.fields;
            match email {
                Some(e) => set_field(&mut f, "email", DocValue::Str(e)),
                None => {},
            }
            match full_name {
                Some(n) => set_field(&mut f, "full_name", DocValue::Str(n)),
                None => {},
            }
            match enabled {
                Some(b) => set_field(&mut f, "enabled", DocValue::Bool(b)),
                None => {},
            }
            match roles {
                Some(r) => set_field(&mut f, "roles", DocValue::Strs(r)),
                None => {},
            }
            set_field(&mut f, "updated_at", DocValue::Str(now_text));
            Ok(UserDocument { fields: f })
        },
    }
}

/// Checks a role assignment: the default admin keeps "admin" or "root".
pub fn check_role_assignment(username: &str, roles: &Vec<String>) -> (r: Result<(), AdminError>)
    ensures
        (username@ == "admin"@ && !keeps_admin(roles@)) ==> err_not_permitted(
            r,
            "Cannot remove admin privileges from the default admin user"@,
        ),
        !(username@ == "admin"@ && !keeps_admin(roles@)) ==> r is Ok,
{
    if str_is(username, "admin") && !keeps_admin_exec(roles) {
        return Err(
            AdminError::NotPermitted(
                owned("Cannot remove admin privileges from the default admin user"),
            ),
        );
    }
    Ok(())
}

/// Checks a user deletion: the default admin cannot be deleted.
pub fn check_user_deletion(username: &str) -> (r: Result<(), AdminError>)
    ensures
        username@ == "admin"@ ==> err_not_permitted(r, "Cannot delete admin user"@),
        username@ != "admin"@ ==> r is Ok,
{
    if str_is(username, "admin") {
        return Err(AdminError::NotPermitted(owned("Cannot delete admin user")));
    }
    Ok(())
}

/// A request to create a user.
#[derive(Debug)]
pub struct CreateUserRequest {
    pub username: String,
    pub email: String,
    pub password: String,
    pub full_name: Option<String>,
    pub enabled: Option<bool>,
    pub roles: Vec<String>,
    pub permissions: Vec<String>,
    pub metadata: Vec<(String, String)>,
}

/// Whether a creation request carries fields that the authentication
/// service does not store itself (metadata, full name, enabled flag).
pub fn has_extra_fields(request: &CreateUserRequest) -> (b: bool)
    ensures
        b == (request.metadata@.len() > 0 || request.full_name is Some || request.enabled is Some),
{
    request.metadata.len() > 0 || request.full_name.is_some() || request.enabled.is_some()
}

/// A user as the authentication service created it.  Times are Unix
/// seconds.
#[derive(Debug)]
pub struct CreatedUser {
    pub id: String,
    pub username: String,
    pub email: Option<String>,
    pub full_name: Option<String>,
    pub enabled: bool,
    pub roles: Vec<String>,
    pub permissions: Vec<String>,
    pub last_login: Option<i64>,
    pub created_at: i64,
    pub updated_at: i64,
    pub metadata: Vec<(String, String)>,
}

/// The account shown after a creation: the request's full name, enabled
/// flag and (non-empty) metadata win over what was created.
pub fn created_user_info(user: CreatedUser, request: CreateUserRequest) -> (u: UserInfo)
    ensures
        u.id == user.id,
        u.username == user.username,
        u.email@ == text_or_empty(user.email),
        u.full_name == match request.full_name {
            Some(f) => Some(f),
            None => user.full_name,
        },
        u.enabled == match request.enabled {
            Some(e) => e,
            None => user.enabled,
        },
        u.roles == user.roles,
        u.permissions == user.permissions,
        u.last_login == user.last_login,
        u.created_at == user.created_at,
        u.updated_at == user.updated_at,
        u.metadata == if request.metadata@.len() == 0 {
            user.metadata
        } else {
            request.metadata
        },
{
    let email = string_or_empty(user.email);
    let full_name = match request.full_name {
        Some(f) => Some(f),
        None => user.full_name,
    };
    let enabled = match request.enabled {
        Some(e) => e,
        None => user.enabled,
    };
    let metadata = if request.metadata.len() == 0 {
        user.metadata
    } else {
        request.metadata
    };
    UserInfo {
        id: user.id,
        username: user.username,
        email,
        full_name,
        enabled,
        roles: user.roles,
        permissions: user.permissions,
        last_login: user.last_login,
        created_at: user.created_at,
        updated_at: user.updated_at,
        metadata,
    }
}


/// The value a key maps to in a key/value list where a later pair shadows
/// an earlier one with the same key.
pub open spec fn key_lookup<V>(s: Seq<(String, V)>, k: Seq<char>) -> Option<V>
    decreases s.len(),
{
    if s.len() == 0 {
        None
    } else if s.last().0@ == k {
        Some(s.last().1)
    } else {
        key_lookup(s.drop_last(), k)
    }
}

proof fn lemma_key_lookup_concat<V>(a: Seq<(String, V)>, b: Seq<(String, V)>, k: Seq<char>)
    ensures
        key_lookup(a + b, k) == match key_lookup(b, k) {
            Some(v) => Some(v),
            None => key_lookup(a, k),
        },
    decreases b.len(),
{
    if b.len() == 0 {
        assert(a + b =~= a);
    } else {
        assert((a + b).drop_last() =~= a + b.drop_last());
        assert((a + b).last() == b.last());
        lemma_key_lookup_concat(a, b.drop_last(), k);
    }
}

/// Applies configuration updates to the stored configuration, each update
/// replacing the value of its key; returns the merged configuration and
/// the number of updates applied.
pub fn merge_config<V>(current: Vec<(String, V)>, updates: Vec<(String, V)>) -> (r: (
    Vec<(String, V)>,
    usize,
))
    ensures
        r.1 == updates@.len(),
        forall|k: Seq<char>|
            #[trigger] key_lookup(r.0@, k) == match key_lookup(updates@, k) {
                Some(v) => Some(v),
                None => key_lookup(current@, k),
            },
{
    let ghost a = current@;
    let ghost b = updates@;
    let count = updates.len();
    let mut merged = current;
    let mut more = updates;
    merged.append(&mut more);
    assert forall|k: Seq<char>| #[trigger] key_lookup(merged@, k) == match key_lookup(b, k) {
        Some(v) => Some(v),
        None => key_lookup(a, k),
    } by {
        lemma_key_lookup_concat(a, b, k);
    }
    (merged, count)
}

} // verus!
