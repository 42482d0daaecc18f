use secreton_api::access::{bearer_token, client_certificate, mtls_admits, preflight_headers};
use secreton_api::auth::{session_revocation, sessions_of, AuthError};
use secreton_api::access::{
    check_request_size, extract_client_ip, enforce_mfa_pending, is_audited_path, is_auth_exempt,
    is_health_path, seal_gate, security_headers, RateLimitState, MFA_PENDING_ALLOWED_PATHS,
    RATE_WINDOW_NANOS, audit_user_info,
};
use secreton_api::auth::UserAccount;
use secreton_api::models::HttpStatus;
use std::collections::HashSet;

fn make_user(mfa_pending: bool) -> UserAccount {
    let mut metadata = Vec::new();
    if mfa_pending {
        metadata.push(("mfa_pending".to_string(), "true".to_string()));
    }
    UserAccount {
        id: "00000000-0000-0000-0000-000000000001".to_string(),
        username: "testuser".to_string(),
        email: Some("test@example.com".to_string()),
        roles: vec![],
        permissions: vec![],
        policies: vec!["default".to_string()],
        disabled: false,
        enabled: true,
        is_active: true,
        is_superuser: false,
        mfa_enabled: false,
        failed_login_attempts: 0,
        locked_until: None,
        metadata,
    }
}

#[test]
fn test_rate_limiting() {
    let mut rate_limiter = RateLimitState::new(5);
    let now = RATE_WINDOW_NANOS + 1_000;

    for i in 0..5u64 {
        assert!(rate_limiter.check_rate_limit("test-client", now + i));
    }

    assert!(!rate_limiter.check_rate_limit("test-client", now + 5));

    assert!(rate_limiter.check_rate_limit("other-client", now + 6));
}

#[test]
fn rate_limit_window_slides() {
    let mut limiter = RateLimitState::new(2);
    let t0 = RATE_WINDOW_NANOS;
    assert!(limiter.check_rate_limit("c", t0));
    assert!(limiter.check_rate_limit("c", t0 + 1));
    assert!(!limiter.check_rate_limit("c", t0 + 2));
    // A minute after the first request it has left the window.
    assert!(limiter.check_rate_limit("c", t0 + RATE_WINDOW_NANOS));
    assert!(!limiter.check_rate_limit("c", t0 + RATE_WINDOW_NANOS));
}

#[test]
fn enforce_mfa_pending_allows_everything_when_not_pending() {
    let user = make_user(false);
    for path in [
        "/api/v1/auth/login",
        "/api/v1/secret/data/foo",
        "/api/v1/sys/config",
        "/api/v1/auth/mfa/disable",
    ] {
        assert!(
            enforce_mfa_pending(&user, path).is_ok(),
            "path {} should be allowed when mfa_pending is false",
            path
        );
    }
}

#[test]
fn enforce_mfa_pending_allows_enrollment_paths_when_pending() {
    let user = make_user(true);
    for path in [
        "/api/v1/auth/mfa/setup",
        "/api/v1/auth/mfa/setup/complete",
        "/api/v1/auth/mfa/verify",
        "/api/v1/auth/logout",
    ] {
        assert!(
            enforce_mfa_pending(&user, path).is_ok(),
            "path {} should be allowed during TOFU",
            path
        );
    }
}

#[test]
fn enforce_mfa_pending_blocks_other_paths_when_pending() {
    let user = make_user(true);
    for path in [
        "/api/v1/secret/data/foo",
        "/api/v1/sys/config",
        "/api/v1/auth/mfa/disable",
        "/api/v1/secret/data/api/v1/auth/mfa/setup",
        "/api/v1/auth/mfa/setup/../secret/data/foo",
        "/api/v1/auth/login",
    ] {
        assert_eq!(
            enforce_mfa_pending(&user, path).unwrap_err(),
            HttpStatus::Forbidden,
            "path {} must be forbidden during TOFU",
            path
        );
    }
}

#[test]
fn mfa_pending_allowlist_matches_handler_routes() {
    let expected: &[&str] = &[
        "/api/v1/auth/mfa/setup",
        "/api/v1/auth/mfa/setup/complete",
        "/api/v1/auth/mfa/verify",
        "/api/v1/auth/logout",
    ];
    let actual: HashSet<&str> = MFA_PENDING_ALLOWED_PATHS.iter().copied().collect();
    let expected_set: HashSet<&str> = expected.iter().copied().collect();
    assert_eq!(actual, expected_set);
}

#[test]
fn client_ip_prefers_real_ip_then_last_forwarded() {
    assert_eq!(extract_client_ip(Some(" 1.2.3.4 "), Some("9.9.9.9")), "1.2.3.4");
    assert_eq!(extract_client_ip(None, Some("1.1.1.1, 2.2.2.2 ,3.3.3.3 ")), "3.3.3.3");
    assert_eq!(extract_client_ip(None, Some("5.6.7.8")), "5.6.7.8");
    assert_eq!(extract_client_ip(None, None), "unknown");
}

#[test]
fn request_size_limit() {
    assert!(check_request_size(None).is_ok());
    assert!(check_request_size(Some("1048576")).is_ok());
    assert_eq!(check_request_size(Some("1048577")), Err((413, 1048576, 1048577)));
    assert!(check_request_size(Some("not a number")).is_ok());
}

#[test]
fn public_sealed_and_audited_paths() {
    assert!(is_auth_exempt("/api/v1/auth/login"));
    assert!(is_auth_exempt("/api/v1/auth/oauth/github/callback"));
    assert!(!is_auth_exempt("/api/v1/secret/data/x"));
    assert_eq!(seal_gate("/api/v1/secret/data/x", true), Err(HttpStatus::ServiceUnavailable));
    assert!(seal_gate("/api/v1/sys/unseal", true).is_ok());
    assert!(seal_gate("/api/v1/secret/data/x", false).is_ok());
    assert!(is_health_path("/health/runtime"));
    assert!(!is_health_path("/api/v1/secret"));
    assert!(is_audited_path("/api/v1/transit/encrypt/k"));
    assert!(!is_audited_path("/api/v1/secret/data/x"));
}

#[test]
fn audit_user_text() {
    assert_eq!(audit_user_info(None), "user:anonymous");
    assert_eq!(audit_user_info(Some((Some("u1"), None))), "user:u1 email:unknown");
    assert_eq!(audit_user_info(Some((None, Some("a@b.c")))), "user:anonymous email:a@b.c");
}

#[test]
fn security_headers_in_order() {
    let h = security_headers();
    assert_eq!(h.len(), 6);
    assert_eq!(h[0], ("X-Content-Type-Options".to_string(), "nosniff".to_string()));
    assert_eq!(h[1], ("X-Frame-Options".to_string(), "DENY".to_string()));
    assert_eq!(h[3].1, "max-age=31536000; includeSubDomains");
}

#[test]
fn bearer_tokens_and_mutual_tls() {
    assert_eq!(bearer_token(Some("Bearer abc.def")), Ok("abc.def".to_string()));
    assert_eq!(bearer_token(Some("Basic abc")), Err(HttpStatus::Unauthorized));
    assert_eq!(bearer_token(None), Err(HttpStatus::Unauthorized));
    assert_eq!(client_certificate(Some(vec![1, 2]), Some("ff")), Some(vec![1, 2]));
    assert_eq!(client_certificate(None, Some("0aff")), Some(vec![0x0a, 0xff]));
    assert_eq!(client_certificate(None, Some("zz")), None);
    assert!(mtls_admits("/health", true, None));
    assert!(mtls_admits("/api/v1/secret", false, None));
    assert!(!mtls_admits("/api/v1/secret", true, None));
    assert!(!mtls_admits("/api/v1/secret", true, Some(false)));
    assert!(mtls_admits("/api/v1/secret", true, Some(true)));
    let h = preflight_headers();
    assert_eq!(h[3], ("Access-Control-Max-Age".to_string(), "86400".to_string()));
}

#[test]
fn sessions_and_revocation() {
    let owners = vec!["u1".to_string(), "u2".to_string(), "u1".to_string()];
    assert_eq!(sessions_of(&owners, "u1"), vec![0, 2]);
    assert!(sessions_of(&owners, "u3").is_empty());
    assert_eq!(session_revocation(Some(Some("u1")), "u1").unwrap(), true);
    assert_eq!(session_revocation(Some(None), "u1").unwrap(), false);
    assert!(matches!(session_revocation(Some(Some("u2")), "u1"), Err(AuthError::PermissionDenied)));
    assert!(matches!(session_revocation(None, "u1"), Err(AuthError::Storage(_))));
}

#[test]
fn route_tokens_are_read_leniently() {
    assert_eq!(secreton_api::access::route_token("Bearer abc"), "abc");
    assert_eq!(secreton_api::access::route_token("abc"), "abc");
    assert_eq!(secreton_api::access::config_token(Some("Bearer t1"), Some("t2")), Some("t1".to_string()));
    assert_eq!(secreton_api::access::config_token(None, Some("t2")), Some("t2".to_string()));
    assert_eq!(secreton_api::access::config_token(None, None), None);
}
