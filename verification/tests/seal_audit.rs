use secreton_api::config::{ConfigService, CONFIG_PATH};
use secreton_api::api::ApiResponse;
use secreton_api::audit::{
    audit_entry_path, audit_storage_record, export_csv, query_prefix, select_entries, AuditEvent, AuditEventKind,
    AuditFilters, AuditLogger, AuditStatus, SecurityEventType,
};
use secreton_api::seal::{
    decode_share, init_response, root_placeholder_password, status, unsealed_response,
    validate_init, InitConfig, Share, UnsealBuffer, UnsealStep, Vault,
};

#[test]
fn init_parameters() {
    assert!(validate_init(false, 5, 3).is_ok());
    assert_eq!(validate_init(true, 5, 3).unwrap_err().message, "System already initialized");
    assert_eq!(validate_init(false, 2, 3).unwrap_err().message, "Threshold cannot be greater than shares");
    assert_eq!(validate_init(false, 5, 1).unwrap_err().message, "Threshold must be at least 2");
}

#[test]
fn init_answer_hands_out_hex_and_base64_shares() {
    let r = init_response(&vec![vec![0x01, 0xab], vec![0xff]], "otpauth://x".to_string());
    assert_eq!(r.keys, vec!["01ab".to_string(), "ff".to_string()]);
    assert_eq!(r.keys_base64, vec!["Aas=".to_string(), "/w==".to_string()]);
    assert_eq!(r.root_totp_uri, "otpauth://x");
    let p = root_placeholder_password();
    assert_eq!(p.len(), 72);
    assert_ne!(p, root_placeholder_password());
}

#[test]
fn shares_decode_from_hex_or_base64() {
    assert_eq!(decode_share("01ab").unwrap(), vec![0x01, 0xab]);
    assert_eq!(decode_share("Aas=").unwrap(), vec![0x01, 0xab]);
    assert_eq!(
        decode_share("%%%").unwrap_err().message,
        "Invalid share format (expected hex or base64)"
    );
}

#[test]
fn test_seal_buffer_flow() {
    let mut b = UnsealBuffer::new();
    assert!(!b.submit(Share { index: 1, data: vec![1] }, 2));
    // The same share again counts once.
    assert!(!b.submit(Share { index: 1, data: vec![1] }, 2));
    assert_eq!(b.progress(), 1);
    assert!(b.submit(Share { index: 2, data: vec![2] }, 2));
    let s = status(true, Some(InitConfig { shares: 3, threshold: 2 }), b.progress());
    assert!(s.sealed);
    assert_eq!((s.t, s.n, s.progress), (2, 3, 2));
    b.clear();
    assert_eq!(b.progress(), 0);
    let u = unsealed_response(2, "tok".to_string());
    assert!(!u.sealed);
    assert_eq!(u.root_token, Some("tok".to_string()));
    let none = status(true, None, 0);
    assert_eq!((none.t, none.n), (0, 0));
}

fn event(id: &str, ts: i64, user: &str, resource: &str, op: &str) -> AuditEvent {
    AuditEvent {
        id: id.to_string(),
        timestamp: ts,
        event_type: AuditEventKind::SecretRead,
        status: AuditStatus::Success,
        user: user.to_string(),
        resource: resource.to_string(),
        operation: op.to_string(),
        client_ip: None,
        metadata: vec![],
    }
}

#[test]
fn audit_logger_records_and_skips_when_disabled() {
    let mut on = AuditLogger::new(2555, true);
    on.log_event(
        SecurityEventType::SecretDeletion { secret_path: "app/a".to_string(), user: "bob".to_string() },
        "e1".to_string(),
        5,
    );
    assert_eq!(on.buffer.len(), 1);
    assert_eq!(on.buffer[0].user, "bob");
    assert_eq!(on.buffer[0].resource, "app/a");
    let mut off = AuditLogger::new(2555, false);
    off.log_event(
        SecurityEventType::SecretDeletion { secret_path: "app/a".to_string(), user: "bob".to_string() },
        "e1".to_string(),
        5,
    );
    assert!(off.buffer.is_empty());
}

#[test]
fn audit_queries_are_newest_first_and_filtered() {
    let events = vec![
        event("a", 10, "alice", "app/x", "read"),
        event("b", 30, "bob", "app/y", "read"),
        event("c", 20, "alice", "app/z", "write"),
    ];
    let r = select_entries(events, &AuditFilters::by_user("alice".to_string()));
    assert_eq!(r.len(), 2);
    assert_eq!(r[0].entry.timestamp, 20);
    assert_eq!(r[1].entry.timestamp, 10);
    assert_eq!(r[0].original_user, "alice");
    let csv = export_csv(&r);
    assert!(csv.starts_with("timestamp,user,action,resource,resource_id,ip_address,user_agent,success\n"));
    assert_eq!(csv.lines().count(), 3);
}

#[test]
fn audit_storage_paths() {
    // 2024-03-05T00:00:10Z
    let ts = 1_709_596_810_000_000_000i64;
    let e = event("id-1", ts, "u", "r", "o");
    assert_eq!(audit_entry_path(&e), "sys/audit/2024/03/05/1709596810-id-1");
    let mut f = AuditFilters::new();
    f.start_date = Some(ts);
    f.end_date = Some(ts + 1_000_000_000);
    assert_eq!(query_prefix(&f), "sys/audit/2024/03/05/");
    f.end_date = Some(ts + 40 * 86_400 * 1_000_000_000);
    assert_eq!(query_prefix(&f), "sys/audit/2024/");
    assert_eq!(query_prefix(&AuditFilters::new()), "sys/audit/");
}

#[test]
fn audit_flush_hands_over_the_buffer() {
    let mut on = AuditLogger::new(2555, true);
    on.log_event(
        SecurityEventType::SecretCreation { secret_path: "app/a".to_string(), user: "bob".to_string() },
        "e1".to_string(),
        5,
    );
    on.log_event(
        SecurityEventType::SecretCreation { secret_path: "app/b".to_string(), user: "bob".to_string() },
        "e2".to_string(),
        6,
    );
    let written = on.flush();
    assert_eq!(written.len(), 2);
    assert_eq!(written[0].id, "e1");
    assert!(on.buffer.is_empty());
    let mut off = AuditLogger::new(2555, false);
    assert!(off.flush().is_empty());
}

#[test]
fn config_loads_fall_back_to_defaults() {
    assert_eq!(CONFIG_PATH, "sys/config/main");
    assert_eq!(ConfigService::load_outcome(None, 7u8), Ok(7));
    assert_eq!(ConfigService::load_outcome(Some(Ok(3u8)), 7), Ok(3));
    assert_eq!(
        ConfigService::load_outcome(Some(Err("bad json".to_string())), 7u8),
        Err("Failed to deserialize stored configuration".to_string())
    );
}

#[test]
fn api_envelopes() {
    let ok = ApiResponse::success(5u8);
    assert!(ok.success && ok.data == Some(5) && ok.error.is_none());
    let err: ApiResponse<u8> = ApiResponse::error("nope".to_string());
    assert!(!err.success && err.data.is_none());
    assert_eq!(err.error, Some("nope".to_string()));
}

#[test]
fn audit_records_are_kept_for_the_retention_period() {
    // 2024-03-05T00:00:10Z
    let ts = 1_709_596_810_000_000_000i64;
    let e = event("id-1", ts, "bad-user", "auth", "login");
    let logger = AuditLogger::new(2555, true);
    let r = logger.storage_record(&e);
    assert_eq!(r.path, "sys/audit/2024/03/05/1709596810-id-1");
    assert_eq!(r.expires_at, 1_709_596_810 + 2555 * 86_400);
    let days = (r.expires_at - 1_709_596_810) / 86_400;
    assert!(days >= 2550 && days <= 2560);
    assert_eq!(audit_storage_record(&e, 0).expires_at, 1_709_596_810);
}

#[test]
fn audit_paths_before_the_epoch_round_seconds_down() {
    // 1969-12-31T23:59:59.5Z
    let e = event("x", -500_000_000, "u", "r", "o");
    assert_eq!(audit_entry_path(&e), "sys/audit/1969/12/31/-1-x");
    let e = event("y", -1_000_000_000, "u", "r", "o");
    assert_eq!(audit_entry_path(&e), "sys/audit/1969/12/31/-1-y");
}

fn share(i: u8) -> Share {
    Share { index: i, data: vec![i; 4] }
}

#[test]
fn test_seal_flow() {
    let mut v = Vault::new();
    assert!(!v.is_initialized() && v.is_sealed());
    assert!(v.unseal(share(1)).is_err());
    assert_eq!(v.init(5, 3).unwrap(), InitConfig { shares: 5, threshold: 3 });
    assert!(v.is_initialized() && v.is_sealed());
    assert!(v.init(5, 3).is_err());
    let st = v.get_status();
    assert_eq!((st.sealed, st.t, st.n, st.progress), (true, 3, 5, 0));
    assert_eq!(v.unseal(share(1)).unwrap(), UnsealStep::Pending);
    assert_eq!(v.unseal(share(1)).unwrap(), UnsealStep::Pending);
    assert_eq!(v.get_status().progress, 1);
    assert_eq!(v.unseal(share(2)).unwrap(), UnsealStep::Pending);
    assert_eq!(v.unseal(share(3)).unwrap(), UnsealStep::ThresholdReached);
    v.unsealed();
    assert!(!v.is_sealed());
    assert_eq!(v.get_status().progress, 0);
    assert_eq!(v.unseal(share(4)).unwrap(), UnsealStep::AlreadyUnsealed);
    v.seal();
    assert!(v.is_sealed());
    let st = v.get_status();
    assert_eq!((st.sealed, st.progress, st.t), (true, 0, 3));
}

#[test]
fn vault_init_refusals_leave_it_uninitialized() {
    let mut v = Vault::new();
    assert_eq!(v.init(3, 4).unwrap_err().message, "Threshold cannot be greater than shares");
    assert_eq!(v.init(3, 1).unwrap_err().message, "Threshold must be at least 2");
    assert!(!v.is_initialized());
}

#[test]
fn test_audit_log_persistence() {
    let now_secs: i64 = 1_709_596_810;
    let mut logger = AuditLogger::new(2555, true);
    logger.log_event(
        SecurityEventType::AuthenticationFailure {
            user: "bad-user".to_string(),
            method: "password".to_string(),
            reason: "wrong password".to_string(),
        },
        "e-1".to_string(),
        now_secs * 1_000_000_000,
    );
    let written = logger.flush();
    assert_eq!(written.len(), 1, "exactly one audit record for the failure event");
    let rec = logger.storage_record(&written[0]);
    assert!(rec.path.starts_with("sys/audit/"));
    let days = (rec.expires_at - now_secs) / 86_400;
    assert!(days >= 2550 && days <= 2560, "expiration should be approx 7 years");
    assert_eq!(written[0].user, "bad-user");
    assert_eq!(written[0].status, AuditStatus::Failure);
    logger.log_event(
        SecurityEventType::AuthenticationSuccess { user: "good-user".to_string(), method: "password".to_string() },
        "e-2".to_string(),
        (now_secs + 1) * 1_000_000_000,
    );
    let written = logger.flush();
    assert_eq!(written.len(), 1);
    assert_eq!(written[0].user, "good-user");
    assert!(logger.buffer.is_empty());
}
