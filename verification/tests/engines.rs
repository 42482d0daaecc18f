use secreton_api::database::{
    credential_error, lease_duration, lease_id_for, lease_not_found, lease_path, lease_username,
    lease_vanished, new_lease_id, revocation_outcome, role_name_of, role_path,
    validate_connection_url, DatabaseServiceError, EngineFailure,
};
use secreton_api::models::HttpStatus;
use secreton_api::pki::{
    ca_pem, issue_precondition, issued_cert_path, may_manage_pki, pki_request_gate,
    root_ca_precondition, root_ca_response, ttl_seconds, PkiServiceError,
};

#[test]
fn pki_authorization() {
    let admin = vec!["admin".to_string()];
    let reader = vec!["reader".to_string()];
    assert!(may_manage_pki(&admin, false));
    assert!(may_manage_pki(&reader, true));
    assert!(!may_manage_pki(&reader, false));
    assert_eq!(pki_request_gate(&reader, false, true), Err(HttpStatus::Forbidden));
    assert_eq!(pki_request_gate(&admin, false, false), Err(HttpStatus::ServiceUnavailable));
    assert!(pki_request_gate(&vec!["root".to_string()], false, true).is_ok());
}

#[test]
fn pki_preconditions_and_paths() {
    let e = root_ca_precondition(true).unwrap_err();
    assert!(matches!(e, PkiServiceError::Conflict(_)));
    assert_eq!(e.status(), HttpStatus::Conflict);
    assert_eq!(e.message(), "Root CA already exists. Use force if you really intend to overwrite.");
    assert!(root_ca_precondition(false).is_ok());
    let e = issue_precondition(false).unwrap_err();
    assert_eq!(e.status(), HttpStatus::BadRequest);
    assert!(issue_precondition(true).is_ok());
    assert_eq!(issued_cert_path("0A1B"), "sys/pki/certs/0A1B");
    assert_eq!(ttl_seconds(Some(3600)), Some(3600));
    assert_eq!(ttl_seconds(Some(u64::MAX)), Some(-1));
    assert_eq!(ttl_seconds(None), None);
    assert_eq!(PkiServiceError::NotFound("x".to_string()).status(), HttpStatus::NotFound);
    assert_eq!(PkiServiceError::Internal("x".to_string()).status(), HttpStatus::InternalServerError);
}

#[test]
fn root_ca_answer() {
    let r = root_ca_response("PEM".to_string(), 1_700_000_000);
    assert_eq!(r.certificate, "PEM");
    assert_eq!(r.private_key, "");
    assert_eq!(r.serial_number, "ROOT");
    assert_eq!(r.expiration, 1_700_000_000 + 3650 * 86400);
    assert_eq!(ca_pem(false, Some("PEM".to_string())), None);
    assert_eq!(ca_pem(true, Some("PEM".to_string())), Some("PEM".to_string()));
    assert_eq!(ca_pem(true, None), None);
}

#[test]
fn database_connection_urls() {
    assert!(validate_connection_url("postgres://db:5432/app").is_ok());
    assert!(validate_connection_url("redis://cache").is_ok());
    match validate_connection_url("") {
        Err(DatabaseServiceError::BadRequest(m)) => assert_eq!(m, "connection_url must not be empty"),
        _ => panic!("empty URL must be refused"),
    }
    match validate_connection_url("oracle://db") {
        Err(DatabaseServiceError::BadRequest(m)) => assert_eq!(
            m,
            "Unsupported database type in connection_url. Must start with one of: postgresql://, postgres://, mysql://, mongodb://, redis://"
        ),
        _ => panic!("unknown scheme must be refused"),
    }
}

#[test]
fn database_paths_and_leases() {
    assert_eq!(role_path("ro"), "sys/database/roles/ro");
    assert_eq!(lease_path("db_ro_1"), "sys/database/leases/db_ro_1");
    assert_eq!(role_name_of("sys/database/roles/readonly"), Some("readonly".to_string()));
    assert_eq!(role_name_of("sys/database/leases/x"), None);
    assert_eq!(lease_duration(None), 3600);
    assert_eq!(lease_duration(Some(60)), 60);
    assert_eq!(
        lease_id_for("ro", 0x0123456789abcdef0011223344556677),
        "db_ro_0123456789abcdef0011223344556677"
    );
    let a = new_lease_id("ro");
    let b = new_lease_id("ro");
    assert!(a.starts_with("db_ro_"));
    assert_eq!(a.len(), "db_ro_".len() + 32);
    assert_ne!(a, b);
    assert_eq!(lease_not_found("L").message(), "Lease 'L' not found");
    assert_eq!(lease_vanished("L").message(), "Lease 'L' not found during deletion");
    assert_eq!(lease_username(Some("u".to_string())).unwrap(), "u");
    assert_eq!(lease_username(None).unwrap_err().message(), "Lease missing username");
}

#[test]
fn database_engine_failures() {
    assert_eq!(credential_error(EngineFailure::RoleNotFound, "r".to_string()).status(), HttpStatus::NotFound);
    assert_eq!(credential_error(EngineFailure::EngineDisabled, "d".to_string()).status(), HttpStatus::ServiceUnavailable);
    assert_eq!(credential_error(EngineFailure::UnsupportedDatabaseType, "t".to_string()).status(), HttpStatus::BadRequest);
    assert_eq!(credential_error(EngineFailure::Other, "o".to_string()).message(), "o");
    assert!(revocation_outcome(Ok(())).is_ok());
    assert!(revocation_outcome(Err((EngineFailure::RevocationNotImplemented, "n".to_string()))).is_ok());
    let e = revocation_outcome(Err((EngineFailure::Other, "timeout".to_string()))).unwrap_err();
    assert_eq!(e.status(), HttpStatus::InternalServerError);
    assert_eq!(e.message(), "Database revocation failed: timeout");
}
