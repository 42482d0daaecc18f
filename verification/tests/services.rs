use secreton_api::admin::{backup_data_source, AdminError, BackupSource};
use secreton_api::audit::SecurityEventType;
use secreton_api::crypto::{
    cached_key_usable, decrypt_full, derive_root_key, sign_data, system_key_id, system_key_path,
    verify_signature,
};
use secreton_api::integrations::{integration_not_found, integration_path, save_plan, EntryWrite};
use secreton_api::lifecycle::{
    history_cleanup_prefix, hook_path, is_reserved_path, lifecycle_steps, should_spawn_worker,
    sweep_candidate, sweep_candidates, sweep_deletion_event,
};
use secreton_api::mfa_config::{email_settings, sms_provider_of, sms_settings, EmailOptions, SmsOptions, SmsProvider};
use secreton_api::server::{Config, Server};
use base64::Engine;
use sha2::Digest;

#[test]
fn root_key_derivation() {
    let generated = vec![7u8; 32];
    assert_eq!(derive_root_key(None, generated.clone()), generated);
    let raw32 = [1u8; 32];
    let text = base64::engine::general_purpose::STANDARD.encode(raw32);
    assert_eq!(derive_root_key(Some(&text), generated.clone()), raw32.to_vec());
    // Not base64, not 32 bytes: the SHA-256 digest of its bytes.
    let k = derive_root_key(Some("short key!"), generated.clone());
    assert_eq!(k, sha2::Sha256::digest(b"short key!").to_vec());
    // Text of exactly 32 bytes that is not base64 is taken as it is.
    let t = "test_root_key_must_be_32_bytes_!";
    assert_eq!(derive_root_key(Some(t), generated), t.as_bytes().to_vec());
}

#[test]
fn system_keys() {
    assert_eq!(system_key_path("active"), "sys/keys/active");
    assert_eq!(system_key_id("sys/keys/k1"), Some("k1".to_string()));
    assert_eq!(system_key_id("keys/k1"), None);
    assert!(cached_key_usable(299_999_999_999));
    assert!(!cached_key_usable(300_000_000_000));
    assert_eq!(sign_data(b"k", b"d"), vec![0u8; 64]);
    assert!(verify_signature(b"k", b"d", b"anything"));
    assert_eq!(
        decrypt_full(b"k", b"n", b"c").unwrap_err(),
        "Direct low-level decryption via decrypt_full is deprecated. Use decrypt_with_key."
    );
}

#[test]
fn reserved_paths_are_never_swept() {
    for p in ["sys/config", "keys/a", "key_data/a", "sessions/x", "users/u", "db/x", "totp/x",
              "pki/x", "auth/x", "mfa/x", "policies/p", "backups/b", "config/c"] {
        assert!(is_reserved_path(p), "{} is reserved", p);
        assert!(!sweep_candidate(p, true));
    }
    assert!(!is_reserved_path("app/config"));
    assert!(!is_reserved_path("system/config"));
    assert!(sweep_candidate("app/config", true));
    assert!(!sweep_candidate("app/config", false));
    let entries = vec![
        ("app/a".to_string(), true),
        ("sys/x".to_string(), true),
        ("app/b".to_string(), false),
        ("team/c".to_string(), true),
    ];
    assert_eq!(sweep_candidates(&entries), vec!["app/a".to_string(), "team/c".to_string()]);
}

#[test]
fn lifecycle_records_and_steps() {
    match sweep_deletion_event("app/a".to_string()) {
        SecurityEventType::SecretDeletion { secret_path, user } => {
            assert_eq!(secret_path, "app/a");
            assert_eq!(user, "system:lifecycle");
        }
        _ => panic!("a deletion is recorded"),
    }
    assert_eq!(history_cleanup_prefix("app/a"), "sys/history/app/a::v");
    assert_eq!(hook_path("h1"), "sys/lifecycle/hooks/h1");
    assert_eq!(lifecycle_steps(false, true), (false, false));
    assert_eq!(lifecycle_steps(true, false), (false, true));
    assert_eq!(lifecycle_steps(true, true), (true, true));
    assert!(should_spawn_worker(true, false));
    assert!(!should_spawn_worker(true, true));
    assert!(!should_spawn_worker(false, false));
}

#[test]
fn integration_records() {
    assert_eq!(integration_path("aws-1"), "sys/integrations/aws-1");
    assert_eq!(save_plan(Some((42, 3))), EntryWrite::Update { id: 42, version: 4 });
    match (save_plan(None), save_plan(None)) {
        (EntryWrite::Store { id: a }, EntryWrite::Store { id: b }) => assert_ne!(a, b),
        _ => panic!("a new record is stored"),
    }
    assert_eq!(integration_not_found("x"), "Integration x not found");
}

#[test]
fn server_start_up() {
    let cfg = Config {
        database_url: "postgres://localhost/secreton".to_string(),
        host: "127.0.0.1".to_string(),
        port: 8200,
        log_level: "info".to_string(),
        jwt_secret: Some("s3cret".to_string()),
    };
    let server = Server::new(cfg);
    assert!(server.storage_plan().is_ok());
    assert_eq!(server.auth_jwt_secret(), Some("s3cret".to_string()));
    let state = server.into_state();
    assert_eq!(state.config.port, 8200);
    let memory = Server::new(Config {
        database_url: "memory://".to_string(),
        host: "0.0.0.0".to_string(),
        port: 1,
        log_level: "debug".to_string(),
        jwt_secret: None,
    });
    assert_eq!(memory.storage_plan().unwrap_err(), "Storage backend initialization failed");
}

#[test]
fn mfa_channels() {
    assert_eq!(sms_provider_of("Twilio"), SmsProvider::Twilio);
    assert_eq!(sms_provider_of("AWS_SNS"), SmsProvider::AwsSns);
    assert_eq!(sms_provider_of("awssns"), SmsProvider::AwsSns);
    assert_eq!(sms_provider_of("nexmo"), SmsProvider::Nexmo);
    assert_eq!(sms_provider_of("other"), SmsProvider::Custom { url: "http://localhost/sms".to_string() });
    let s = sms_settings(Some(&SmsOptions {
        provider: "twilio".to_string(),
        api_key: "k".to_string(),
        from_number: "+100".to_string(),
    }));
    assert_eq!(s.provider, SmsProvider::Twilio);
    assert_eq!(s.from_number, "+100");
    assert_eq!(s.code_length, 6);
    let d = sms_settings(None);
    assert_eq!(d.api_key, "dummy-key");
    assert_eq!(d.message_template, "Your Secreton code is {code}");
    let e = email_settings(None);
    assert_eq!(e.smtp_port, 1025);
    assert_eq!(e.from_email, "noreply@secreton.io");
    let c = email_settings(Some(&EmailOptions {
        smtp_server: "smtp.example.com".to_string(),
        smtp_port: 587,
        username: "u".to_string(),
        password: "p".to_string(),
        from_address: "a@example.com".to_string(),
    }));
    assert_eq!(c.smtp_server, "smtp.example.com");
    assert_eq!(c.code_expiry_seconds, 300);
}

#[test]
fn backup_restore_sources() {
    assert_eq!(backup_data_source(true, 0, false).unwrap(), BackupSource::Inline);
    assert_eq!(backup_data_source(false, 10, true).unwrap(), BackupSource::Decrypt);
    match backup_data_source(false, 10, false) {
        Err(AdminError::Internal(m)) => assert_eq!(m, "Crypto service unavailable, cannot decrypt backup"),
        _ => panic!("no crypto service"),
    }
    match backup_data_source(false, 0, true) {
        Err(AdminError::Internal(m)) => assert_eq!(m, "Backup data not found"),
        _ => panic!("no data"),
    }
}
