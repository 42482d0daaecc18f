use secreton_api::auth::refresh_claims;
use secreton_api::auth::{account_from_claims, token_acceptance, AuthError};
use secreton_api::admin::{
    backup_entry_metadata, backup_snapshot, garbage_collection_report, merge_user_update,
    DocValue, UpdateUserRequest, UserDocument,
    backup_checksum, check_role_assignment, check_security_configuration, check_user_deletion,
    merge_config, storage_counts, validate_username, verify_backup_checksum, AdminError,
};
use secreton_api::api::{error_response, handle_rejection, rejection_response, RejectionCause, ServiceError};
use secreton_api::auth::{
    enforce_mfa, login_denial_message, login_precheck, new_account, record_failed_attempt,
    reset_after_success, LoginDenial, MfaOutcome, TokenBlacklist,
};
use secreton_api::auth::{
    authenticate_mfa_step, authenticate_password_step, authenticate_precheck, login_error,
    login_mfa_step, login_step_precheck, UserRecordRead,
};
use secreton_api::models::HttpStatus;

fn account(roles: &[&str]) -> secreton_api::auth::UserAccount {
    new_account(
        "00000000-0000-0000-0000-000000000001".to_string(),
        "alice".to_string(),
        None,
        roles.iter().map(|r| r.to_string()).collect(),
        vec![],
    )
}

#[test]
fn lockout_after_five_failures() {
    let now = 1_700_000_000;
    let mut u = account(&["user"]);
    for _ in 0..4 {
        assert!(!record_failed_attempt(&mut u, now));
    }
    assert!(record_failed_attempt(&mut u, now));
    assert_eq!(u.locked_until, Some(now + 900));
    assert_eq!(login_precheck("alice", Some(&u), now + 899), Some(LoginDenial::Locked));
    assert_eq!(login_precheck("alice", Some(&u), now + 900), None);
    assert!(reset_after_success(&mut u));
    assert_eq!(u.failed_login_attempts, 0);
    assert_eq!(u.locked_until, None);
}

#[test]
fn privileged_accounts_are_never_locked() {
    let mut admin = account(&["admin"]);
    assert!(admin.is_superuser);
    for _ in 0..10 {
        assert!(!record_failed_attempt(&mut admin, 100));
    }
    assert_eq!(admin.locked_until, None);
}

#[test]
fn root_never_logs_in_with_a_password() {
    assert_eq!(login_precheck("root", None, 0), Some(LoginDenial::RootPasswordLogin));
    assert_eq!(
        login_denial_message(LoginDenial::RootPasswordLogin),
        "Root login disabled via password. Use unseal process."
    );
    let mut disabled = account(&[]);
    disabled.enabled = false;
    assert_eq!(login_precheck("alice", Some(&disabled), 0), Some(LoginDenial::Disabled));
}

#[test]
fn mfa_enforcement_outcomes() {
    assert_eq!(enforce_mfa(false, false, true, Some(true), false, false), MfaOutcome::NotRequired);
    assert_eq!(enforce_mfa(true, false, true, Some(true), false, false), MfaOutcome::CodeRequired);
    assert_eq!(enforce_mfa(true, false, true, Some(true), true, true), MfaOutcome::Verified);
    assert_eq!(enforce_mfa(true, false, true, Some(true), true, false), MfaOutcome::InvalidCode);
    assert_eq!(enforce_mfa(true, false, true, None, false, false), MfaOutcome::CodeRequired);
    assert_eq!(enforce_mfa(true, false, true, Some(false), false, false), MfaOutcome::TrustOnFirstUse);
    assert_eq!(enforce_mfa(false, true, true, Some(false), false, false), MfaOutcome::NotConfigured);
    assert_eq!(enforce_mfa(true, false, false, None, true, true), MfaOutcome::ServiceMissingForPrivileged);
}

#[test]
fn revoked_tokens_until_they_lapse() {
    let mut b = TokenBlacklist::new();
    b.revoke_token("t1".to_string(), 200, 100);
    assert!(b.is_token_revoked("t1", 150));
    assert!(!b.is_token_revoked("t1", 200));
    assert!(!b.is_token_revoked("t2", 150));
    b.revoke_token("t2".to_string(), 500, 300);
    assert!(b.is_token_revoked("t2", 400));
}

#[test]
fn admin_names_and_protections() {
    assert!(validate_username("alice.smith@corp").is_ok());
    match validate_username("") {
        Err(AdminError::InvalidConfig(m)) => assert_eq!(m, "Username cannot be empty"),
        _ => panic!("blank name"),
    }
    match validate_username("a/../b") {
        Err(AdminError::InvalidConfig(m)) => assert_eq!(m, "Username cannot contain '..' (path traversal)"),
        _ => panic!("traversal"),
    }
    assert!(validate_username("bad name").is_err());
    assert!(matches!(check_user_deletion("admin"), Err(AdminError::NotPermitted(_))));
    assert!(check_user_deletion("bob").is_ok());
    assert!(check_role_assignment("admin", &vec!["root".to_string()]).is_ok());
    assert!(check_role_assignment("admin", &vec!["user".to_string()]).is_err());
}

#[test]
fn backup_checksums() {
    let c = backup_checksum(b"abc");
    assert_eq!(c, "sha256:ba7816bf8f01cfea414140de5dae2223b00361a396177a9cb410ff61f20015ad");
    assert!(verify_backup_checksum(b"abc", Some(&c)).is_ok());
    assert!(verify_backup_checksum(b"abc", None).is_ok());
    match verify_backup_checksum(b"abd", Some(&c)) {
        Err(AdminError::Internal(m)) => assert_eq!(m, "Backup data integrity check failed: checksum mismatch"),
        _ => panic!("tampered backup"),
    }
    assert_eq!(storage_counts(0), (0, 1));
    assert_eq!(storage_counts(95), (95, 9));
}

#[test]
fn missing_configuration_is_reported() {
    let f = check_security_configuration(None);
    assert!(!f.is_empty());
}

#[test]
fn configuration_updates_replace_their_keys() {
    let current = vec![("a".to_string(), 1u32), ("b".to_string(), 2)];
    let updates = vec![("b".to_string(), 20u32), ("c".to_string(), 30)];
    let (merged, n) = merge_config(current, updates);
    assert_eq!(n, 2);
    let get = |k: &str| merged.iter().rev().find(|(key, _)| key == k).map(|(_, v)| *v);
    assert_eq!(get("a"), Some(1));
    assert_eq!(get("b"), Some(20));
    assert_eq!(get("c"), Some(30));
}

#[test]
fn service_errors_map_to_answers() {
    let (s, m) = error_response(&ServiceError::NotFound { resource: "x".to_string() });
    assert_eq!(s, HttpStatus::NotFound);
    assert_eq!(m, "Resource not found: x");
    let (s, m) = error_response(&ServiceError::MfaNotConfigured { username: "alice".to_string() });
    assert_eq!(s, HttpStatus::Unauthorized);
    assert_eq!(m, "Invalid credentials");
    let (s2, m2) = error_response(&ServiceError::Authentication { message: "Invalid credentials".to_string() });
    assert_eq!((s2, m2), (s, m));
}

#[test]
fn token_lifetimes_fall_back_when_out_of_range() {
    assert_eq!(secreton_api::auth::token_lifetimes(900, 86_400), (900, 86_400));
    assert_eq!(secreton_api::auth::token_lifetimes(9_223_372_036_854_775, 1), (9_223_372_036_854_775, 1));
    assert_eq!(secreton_api::auth::token_lifetimes(9_223_372_036_854_776, u64::MAX), (3600, 604_800));
}

#[test]
fn access_tokens_need_a_live_session() {
    assert!(token_acceptance(false, true, true).is_ok());
    assert!(matches!(token_acceptance(true, true, true), Err(AuthError::InvalidToken)));
    assert!(matches!(token_acceptance(false, false, true), Err(AuthError::InvalidToken)));
    assert!(matches!(token_acceptance(false, true, false), Err(AuthError::InvalidToken)));
    let u = account_from_claims("id".to_string(), "bob".to_string(), None, vec!["admin".to_string()], vec!["ops".to_string()]);
    assert!(u.is_active && !u.is_superuser);
    assert_eq!(u.policies, vec!["ops".to_string()]);
}

#[test]
fn refresh_tokens_last_seven_days() {
    let c = refresh_claims(
        1_000,
        "id".to_string(),
        "bob".to_string(),
        None,
        vec!["user".to_string()],
        "jti-1".to_string(),
        "secreton".to_string(),
        "secreton-api".to_string(),
    );
    assert_eq!(c.iat, 1_000);
    assert_eq!(c.exp, 1_000 + 7 * 86_400);
    assert_eq!(c.email, "");
    assert_eq!(c.aud, "secreton-api");
}

#[test]
fn authenticate_refuses_before_the_password_alike() {
    let now = 1_700_000_000;
    let u = account(&["user"]);
    assert!(matches!(
        authenticate_precheck("root", UserRecordRead::StorageFailed("down".to_string()), now),
        Err(AuthError::InvalidCredentials)
    ));
    assert!(matches!(
        authenticate_precheck("alice", UserRecordRead::StorageFailed("down".to_string()), now),
        Err(AuthError::Storage(m)) if m == "down"
    ));
    assert!(matches!(
        authenticate_precheck("alice", UserRecordRead::DecodeFailed("bad json".to_string()), now),
        Err(AuthError::Internal(m)) if m == "bad json"
    ));
    assert!(matches!(authenticate_precheck("alice", UserRecordRead::Absent, now), Ok(None)));
    let mut locked = u.clone();
    locked.locked_until = Some(now + 10);
    assert!(matches!(
        authenticate_precheck("alice", UserRecordRead::Stored(locked), now),
        Err(AuthError::InvalidCredentials)
    ));
    let mut disabled = u.clone();
    disabled.disabled = true;
    assert!(matches!(
        authenticate_precheck("alice", UserRecordRead::Stored(disabled), now),
        Err(AuthError::InvalidCredentials)
    ));
    let mut inactive = u.clone();
    inactive.is_active = false;
    assert!(matches!(
        authenticate_precheck("alice", UserRecordRead::Stored(inactive), now),
        Err(AuthError::InvalidCredentials)
    ));
    assert!(matches!(
        authenticate_precheck("alice", UserRecordRead::Stored(u), now),
        Ok(Some(a)) if a.username == "alice"
    ));
}

#[test]
fn authenticate_counts_failures_and_locks_on_the_fifth() {
    let now = 1_700_000_000;
    let mut u = account(&["user"]);
    u.failed_login_attempts = 4;
    let (r, persist) = authenticate_password_step(Some(u.clone()), false, now);
    assert!(matches!(r, Err(AuthError::InvalidCredentials)));
    let p = persist.unwrap();
    assert_eq!(p.failed_login_attempts, 5);
    assert_eq!(p.locked_until, Some(now + 900));
    let (r, persist) = authenticate_password_step(Some(u.clone()), true, now);
    assert!(r.is_ok() && persist.is_none());
    let (r, persist) = authenticate_password_step(None, false, now);
    assert!(matches!(r, Err(AuthError::InvalidCredentials)) && persist.is_none());
    // Only a rejected MFA code counts as a failure.
    let (r, persist) = authenticate_mfa_step(Some(u.clone()), MfaOutcome::InvalidCode, "alice", now);
    assert!(matches!(r, Err(AuthError::InvalidMfaCode)));
    assert_eq!(persist.unwrap().failed_login_attempts, 5);
    let (r, persist) = authenticate_mfa_step(Some(u.clone()), MfaOutcome::CodeRequired, "alice", now);
    assert!(matches!(r, Err(AuthError::MfaRequired)) && persist.is_none());
    // An admitted login clears the counter.
    let (r, persist) = authenticate_mfa_step(Some(u.clone()), MfaOutcome::Verified, "alice", now);
    assert!(r.is_ok());
    assert_eq!(persist.unwrap().failed_login_attempts, 0);
    let clean = account(&["user"]);
    let (r, persist) = authenticate_mfa_step(Some(clean), MfaOutcome::NotRequired, "alice", now);
    assert!(r.is_ok() && persist.is_none());
}

#[test]
fn rejections_are_answered_generically() {
    let (code, body) = handle_rejection(&RejectionCause::NotFound);
    assert_eq!(code, 404);
    assert!(!body.success);
    assert_eq!(body.error.as_deref(), Some("Endpoint not found"));
    let (code, body) = handle_rejection(&RejectionCause::Api(ServiceError::Internal {
        message: "db password leaked".to_string(),
    }));
    assert_eq!(code, 500);
    assert_eq!(body.error.as_deref(), Some("Internal server error"));
    let (code, body) = handle_rejection(&RejectionCause::BadJson);
    assert_eq!((code, body.error.as_deref()), (400, Some("Invalid JSON format")));
    let (code, body) = handle_rejection(&RejectionCause::MethodNotAllowed);
    assert_eq!((code, body.error.as_deref()), (405, Some("Method not allowed")));
    let (code, _) = handle_rejection(&RejectionCause::Unhandled);
    assert_eq!(code, 500);
    // An unenrolled user's correct password is answered as a wrong one.
    let a = rejection_response(&ServiceError::MfaNotConfigured { username: "alice".to_string() });
    let b = rejection_response(&ServiceError::Authentication { message: "Invalid credentials".to_string() });
    assert_eq!(a, b);
}

#[test]
fn test_run_garbage_collection_returns_details() {
    let r = garbage_collection_report(2, 3, 4096, 12);
    assert_eq!(r.operation, "garbage_collection");
    assert!(r.success);
    let has = |k: &str| r.details.iter().any(|(key, _)| key == k);
    assert!(has("expired_sessions"));
    assert!(has("expired_secrets"));
    assert!(has("storage_cleaned_bytes"));
    assert_eq!(r.details[2].1, 4096);
}

#[test]
fn backups_skip_the_backup_area() {
    let paths: Vec<String> = ["app/a", "backups/b1", "users/x", "backups/b2", "sys/init"]
        .iter()
        .map(|s| s.to_string())
        .collect();
    assert_eq!(backup_snapshot(&paths), vec![0, 2, 4]);
    let m = backup_entry_metadata("1.0.0", 3, Some("[]".to_string()));
    assert_eq!(m.len(), 4);
    assert_eq!(m[2], ("entry_count".to_string(), "3".to_string()));
    assert_eq!(m[3], ("data".to_string(), "[]".to_string()));
    assert_eq!(backup_entry_metadata("1.0.0", 3, None).len(), 3);
}

fn doc() -> UserDocument {
    UserDocument {
        fields: vec![
            ("username".to_string(), DocValue::Str("bob".to_string())),
            ("email".to_string(), DocValue::Str("old@x".to_string())),
            ("password_hash".to_string(), DocValue::Str("$argon2id$hash".to_string())),
            ("enabled".to_string(), DocValue::Bool(true)),
            ("roles".to_string(), DocValue::Strs(vec!["admin".to_string()])),
            ("failed_login_attempts".to_string(), DocValue::Raw("3".to_string())),
            ("mfa_secret".to_string(), DocValue::Raw("null".to_string())),
        ],
    }
}

fn member<'a>(d: &'a UserDocument, k: &str) -> Option<&'a DocValue> {
    d.fields.iter().find(|(key, _)| key == k).map(|(_, v)| v)
}

#[test]
fn user_updates_change_only_requested_fields() {
    let req = UpdateUserRequest { email: Some("new@x".to_string()), full_name: None, enabled: None, roles: None };
    let d = merge_user_update("bob", doc(), req, "2024-02-02T00:00:00Z".to_string()).unwrap();
    assert!(matches!(member(&d, "email"), Some(DocValue::Str(e)) if e == "new@x"));
    assert!(member(&d, "full_name").is_none());
    assert!(matches!(member(&d, "enabled"), Some(DocValue::Bool(true))));
    assert!(matches!(member(&d, "updated_at"), Some(DocValue::Str(t)) if t == "2024-02-02T00:00:00Z"));
    // Every other member survives untouched.
    assert!(matches!(member(&d, "password_hash"), Some(DocValue::Str(h)) if h == "$argon2id$hash"));
    assert!(matches!(member(&d, "failed_login_attempts"), Some(DocValue::Raw(t)) if t == "3"));
    assert!(matches!(member(&d, "mfa_secret"), Some(DocValue::Raw(t)) if t == "null"));
    assert_eq!(d.fields.len(), 8);
    let req = UpdateUserRequest { email: None, full_name: Some("Bob B".to_string()), enabled: None, roles: None };
    let d = merge_user_update("bob", doc(), req, "t".to_string()).unwrap();
    assert!(matches!(member(&d, "full_name"), Some(DocValue::Str(n)) if n == "Bob B"));
    let req = UpdateUserRequest { email: None, full_name: None, enabled: Some(false), roles: None };
    match merge_user_update("admin", doc(), req, "t".to_string()) {
        Err(AdminError::NotPermitted(m)) => assert_eq!(m, "Cannot disable the default admin user"),
        _ => panic!("the default admin cannot be disabled"),
    }
    let req = UpdateUserRequest { email: None, full_name: None, enabled: None, roles: Some(vec!["user".to_string()]) };
    assert!(merge_user_update("admin", doc(), req, "t".to_string()).is_err());
    let req = UpdateUserRequest { email: None, full_name: None, enabled: Some(false), roles: Some(vec!["user".to_string()]) };
    let d = merge_user_update("bob", doc(), req, "t".to_string()).unwrap();
    assert!(matches!(member(&d, "enabled"), Some(DocValue::Bool(false))));
    assert!(matches!(member(&d, "roles"), Some(DocValue::Strs(r)) if r == &vec!["user".to_string()]));
}

#[test]
fn login_steps_answer_like_the_api() {
    let now = 1_700_000_000;
    match login_step_precheck("root", UserRecordRead::Absent, now) {
        Err(ServiceError::Authentication { message }) => {
            assert_eq!(message, "Root login disabled via password. Use unseal process.")
        }
        _ => panic!("root never logs in with a password"),
    }
    match login_step_precheck("alice", UserRecordRead::StorageFailed("x".to_string()), now) {
        Err(ServiceError::Internal { message }) => {
            assert_eq!(message, "An internal error occurred during authentication")
        }
        _ => panic!("a failed read fails closed"),
    }
    let mut u = account(&["user"]);
    u.locked_until = Some(now + 1);
    match login_step_precheck("alice", UserRecordRead::Stored(u), now) {
        Err(ServiceError::Authentication { message }) => {
            assert_eq!(message, "Account is locked. Please try again later.")
        }
        _ => panic!("a locked account is refused"),
    }
    assert!(matches!(
        login_step_precheck("alice", UserRecordRead::DecodeFailed("x".to_string()), now),
        Ok((None, true))
    ));
    assert!(matches!(login_step_precheck("alice", UserRecordRead::Absent, now), Ok((None, false))));
    // A rejected code counts only when the record is stored.
    let u = account(&["user"]);
    let (r, p) = login_mfa_step(u.clone(), true, MfaOutcome::InvalidCode, "alice", now);
    assert!(matches!(r, Err(ServiceError::Authentication { message }) if message == "Invalid MFA code"));
    assert_eq!(p.unwrap().failed_login_attempts, 1);
    let (_, p) = login_mfa_step(u.clone(), false, MfaOutcome::InvalidCode, "alice", now);
    assert!(p.is_none());
    // A new account is written on its first successful login.
    let (r, p) = login_mfa_step(u.clone(), false, MfaOutcome::NotRequired, "alice", now);
    assert!(r.is_ok() && p.is_some());
    let (r, p) = login_mfa_step(u.clone(), true, MfaOutcome::NotRequired, "alice", now);
    assert!(r.is_ok() && p.is_none());
    assert!(matches!(
        login_error(AuthError::MfaNotConfigured("alice".to_string())),
        ServiceError::MfaNotConfigured { username } if username == "alice"
    ));
    assert!(matches!(
        login_error(AuthError::Internal("no mfa".to_string())),
        ServiceError::Configuration { message } if message == "no mfa"
    ));
    assert!(matches!(
        login_error(AuthError::Storage("disk".to_string())),
        ServiceError::Authentication { message } if message == "Storage error: disk"
    ));
}
