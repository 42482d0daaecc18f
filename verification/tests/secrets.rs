use secreton_api::keys::{create_key_check, key_material, key_material_not_found, KeyAlgorithm};
use secreton_api::keys::{
    collect_key_versions, key_version_infos, legacy_collision_parent, listed_key_info,
    listed_key_name, material_version, version_status, KeyInfo,
};
use secreton_api::secrets::SecretVersionInfo;
use secreton_api::secrets::{is_policy_listed, policy_path, policy_upsert_plan};
use secreton_api::keys::{cache_payload, read_cached, CacheRead, validate_key_name, hash_data};
use secreton_api::secrets::{CacheUpdate, SecretError, SecretStore};

const ALICE: &str = "00000000-0000-0000-0000-0000000000a1";
const BOB: &str = "00000000-0000-0000-0000-0000000000b2";

#[test]
fn secret_versioning() {
    let mut store = SecretStore::new();
    let now = 1_700_000_000;
    let s1 = store.put_secret("app/ver", b"v1".to_vec(), None, ALICE, None, true, now).unwrap();
    assert_eq!(s1.version, 1);
    let s2 = store.put_secret("app/ver", b"v2".to_vec(), None, ALICE, None, true, now + 1).unwrap();
    assert_eq!(s2.version, 2);
    let cur = store.get_secret("app/ver", ALICE, None, true).unwrap();
    assert_eq!(cur.version, 2);
    assert_eq!(cur.payload, b"v2".to_vec());
    let old = store.get_secret("app/ver", ALICE, Some(1), true).unwrap();
    assert_eq!(old.version, 1);
    assert_eq!(old.payload, b"v1".to_vec());
    let versions = store.list_secret_versions("app/ver", ALICE, true).unwrap();
    assert_eq!(versions.len(), 2);
    assert_eq!(versions[0].version, 2);
    assert_eq!(versions[1].version, 1);
}

#[test]
fn foreign_users_and_denied_policies_are_refused() {
    let mut store = SecretStore::new();
    let now = 1_700_000_000;
    store.put_secret("app/user1/secret1", b"x".to_vec(), None, ALICE, None, true, now).unwrap();
    assert!(matches!(
        store.get_secret("app/user1/secret1", BOB, None, true),
        Err(SecretError::PermissionDenied(_))
    ));
    assert!(store.put_secret("app/user1/secret1", b"y".to_vec(), None, BOB, None, true, now).is_err());
    assert!(matches!(
        store.get_secret("app/user1/secret1", ALICE, None, false),
        Err(SecretError::PermissionDenied(_))
    ));
    assert!(matches!(
        store.get_secret("app/missing", ALICE, None, true),
        Err(SecretError::SecretNotFound { .. })
    ));
}

#[test]
fn history_paths_cannot_be_written() {
    let mut store = SecretStore::new();
    let now = 1_700_000_000;
    assert!(store.put_secret("sys/history/app/x::v1", b"x".to_vec(), None, ALICE, None, true, now).is_err());
    assert!(store.put_secret("app/x::v7", b"x".to_vec(), None, ALICE, None, true, now).is_err());
}

#[test]
fn delete_then_read_is_not_found_and_rollback_restores() {
    let mut store = SecretStore::new();
    let now = 1_700_000_000;
    store.put_secret("app/r", b"one".to_vec(), None, ALICE, None, true, now).unwrap();
    store.put_secret("app/r", b"two".to_vec(), None, ALICE, None, true, now + 1).unwrap();
    let back = store.rollback_secret("app/r", 1, ALICE, true, true, now + 2).unwrap();
    assert_eq!(back.payload, b"one".to_vec());
    assert_eq!(back.version, 3);
    assert_eq!(store.get_secret("app/r", ALICE, None, true).unwrap().payload, b"one".to_vec());
    store.delete_secret("app/r", ALICE, true).unwrap();
    assert!(matches!(
        store.get_secret("app/r", ALICE, None, true),
        Err(SecretError::SecretNotFound { .. })
    ));
}

#[test]
fn cache_roundtrip_and_version_mismatch() {
    let p = cache_payload(2, b"payload");
    assert!(matches!(read_cached(&p, 2), CacheRead::Hit(d) if d == b"payload".to_vec()));
    assert!(matches!(read_cached(&p, 3), CacheRead::Stale));
    assert!(matches!(read_cached(&[0, 0, 0, 2], 2), CacheRead::Malformed));
}

#[test]
fn key_names_and_hashes() {
    assert!(validate_key_name("my-key_1").is_ok());
    assert!(validate_key_name("signing_v2x").is_ok());
    match validate_key_name("signing_v2") {
        Err(SecretError::InvalidOperation(m)) => assert_eq!(
            m,
            "Key name 'signing_v2' must not end with '_v' followed by digits (reserved for versioning)"
        ),
        _ => panic!("a versioned name is refused"),
    }
    assert_eq!(
        hash_data(b"abc", "sha256", true).unwrap(),
        "ba7816bf8f01cfea414140de5dae2223b00361a396177a9cb410ff61f20015ad"
    );
    assert!(hash_data(b"abc", "sha256", false).is_err());
}

#[test]
fn key_listing_and_versions() {
    assert_eq!(listed_key_name("keys/u1/signing", "keys/u1/", None), Some("signing".to_string()));
    assert_eq!(listed_key_name("keys/u1/signing", "keys/u1/", Some("sign")), Some("signing".to_string()));
    assert_eq!(listed_key_name("keys/u1/signing", "keys/u1/", Some("enc")), None);
    assert_eq!(listed_key_name("keys/u2/signing", "keys/u1/", None), None);
    let k = listed_key_info("signing".to_string(), None, None, Some((1u64 << 32) + 3), Some("2024-01-01T00:00:00Z"), 5);
    assert_eq!(k.id, "signing");
    assert_eq!(k.key_type, "unknown");
    assert_eq!(k.version, 3);
    assert_eq!(k.status, "active");
    assert_eq!(k.created_at, 1_704_067_200);
    let d = listed_key_info("x".to_string(), Some("id".to_string()), Some("aes256-gcm".to_string()), None, Some("yesterday"), 5);
    assert_eq!((d.id.as_str(), d.version, d.created_at), ("id", 1, 5));
    assert_eq!(material_version("key_data/u1/k_v12", "key_data/u1/k_v"), Some(12));
    assert_eq!(material_version("key_data/u1/k_v+7", "key_data/u1/k_v"), Some(7));
    assert_eq!(material_version("key_data/u1/k_v4294967296", "key_data/u1/k_v"), None);
    assert_eq!(material_version("key_data/u1/k_vx", "key_data/u1/k_v"), None);
    assert_eq!(legacy_collision_parent("mykey_v1"), Some("mykey".to_string()));
    assert_eq!(legacy_collision_parent("a_v2_v3"), Some("a_v2".to_string()));
    assert_eq!(legacy_collision_parent("mykey"), None);
    assert_eq!(legacy_collision_parent("mykey_v"), None);
    let found = vec![
        SecretVersionInfo { version: 2, created_at: 20 },
        SecretVersionInfo { version: 3, created_at: 30 },
    ];
    let all = collect_key_versions(&found, Some(10));
    assert_eq!(all.iter().map(|v| v.version).collect::<Vec<_>>(), vec![3, 2, 1]);
    let with_v1 = vec![SecretVersionInfo { version: 1, created_at: 11 }];
    assert_eq!(collect_key_versions(&with_v1, Some(10)).len(), 1);
    assert_eq!(version_status(3, 3), "active");
    assert_eq!(version_status(2, 3), "historical");
    let cur = KeyInfo {
        id: "kid".to_string(),
        name: "k".to_string(),
        key_type: "aes256-gcm".to_string(),
        version: 3,
        status: "active".to_string(),
        created_at: 0,
    };
    let infos = key_version_infos(&cur, &all);
    assert_eq!(infos.len(), 3);
    assert_eq!(infos[0].status, "active");
    assert_eq!(infos[2].status, "historical");
    assert_eq!(infos[2].created_at, 10);
}

#[test]
fn policies_are_upserted_and_listed() {
    assert_eq!(policy_path("ops"), "sys/policies/ops");
    assert_eq!(policy_upsert_plan(Some((9, 100, 4)), 500), (9, 100, 5));
    let (id_a, created, version) = policy_upsert_plan(None, 500);
    let (id_b, _, _) = policy_upsert_plan(None, 500);
    assert_eq!((created, version), (500, 1));
    assert_ne!(id_a, id_b);
    assert!(is_policy_listed("sys/policies/ops", "ops", None));
    assert!(is_policy_listed("sys/policies/ops", "ops", Some("op")));
    assert!(!is_policy_listed("sys/policies/ops", "ops", Some("dev")));
    assert!(!is_policy_listed("sys/policies/content/ops", "ops", None));
}

#[test]
fn key_material_fallbacks() {
    assert_eq!(key_material(b"packet", Ok(vec![1, 2, 3])).unwrap(), vec![1, 2, 3]);
    assert_eq!(key_material(b"raw-legacy-key", Err("bad".to_string())).unwrap(), b"raw-legacy-key".to_vec());
    match key_material(br#"{"key_id":"k1","data":"x"}"#, Err("no system key".to_string())) {
        Err(SecretError::Internal(m)) => assert_eq!(
            m,
            "Failed to decrypt key material (CryptoPacket detected but decryption failed \u{2014} system key may be unavailable): no system key"
        ),
        _ => panic!("a packet that does not decrypt is an error"),
    }
    match key_material_not_found("signing", 3) {
        SecretError::KeyNotFound { key_id } => assert_eq!(key_id, "signing (v3)"),
        _ => panic!("not found"),
    }
}

const ADMIN: &str = "00000000-0000-0000-0000-0000000000ad";

#[test]
fn test_secret_versioning() {
    let mut store = SecretStore::new();
    let now = 1_700_000_000;
    let s1 = store.put_secret("app/ver", br#"{"key":"v1"}"#.to_vec(), None, ALICE, None, true, now).unwrap();
    assert_eq!(s1.version, 1);
    let s2 = store.put_secret("app/ver", br#"{"key":"v2"}"#.to_vec(), None, ALICE, None, true, now + 1).unwrap();
    assert_eq!(s2.version, 2);
    let latest = store.get_secret("app/ver", ALICE, None, true).unwrap();
    assert_eq!(latest.version, 2);
    assert_eq!(latest.payload, br#"{"key":"v2"}"#.to_vec());
    let v1 = store.get_secret("app/ver", ALICE, Some(1), true).unwrap();
    assert_eq!(v1.version, 1);
    assert_eq!(v1.payload, br#"{"key":"v1"}"#.to_vec());
    let versions = store.list_secret_versions("app/ver", ALICE, true).unwrap();
    assert_eq!(versions.len(), 2);
}

#[test]
fn test_cache_version_mismatch() {
    let mut store = SecretStore::new();
    let now = 1_700_000_000;
    store.put_secret("app/race", br#"{"k":"v1"}"#.to_vec(), None, ALICE, None, true, now).unwrap();
    // The cache holds a payload of a "future" version 2.
    let polluted = cache_payload(2, br#"{"k":"fake_v2"}"#);
    let (r, upd) = store.get_secret_cached("app/race", ALICE, None, true, Some(&polluted));
    let d = r.unwrap();
    assert_eq!(d.version, 1);
    assert_eq!(d.payload, br#"{"k":"v1"}"#.to_vec());
    let fresh = match upd {
        CacheUpdate::Put(p) => p,
        CacheUpdate::Keep => panic!("the stale payload must be replaced"),
    };
    assert_eq!(&fresh[..4], &1u32.to_be_bytes());
    // The refreshed payload now serves the read.
    let (r2, upd2) = store.get_secret_cached("app/race", ALICE, None, true, Some(&fresh));
    assert_eq!(r2.unwrap().payload, br#"{"k":"v1"}"#.to_vec());
    assert!(matches!(upd2, CacheUpdate::Keep));
    // A read of a given version leaves the cache alone.
    let (_, upd3) = store.get_secret_cached("app/race", ALICE, Some(1), true, None);
    assert!(matches!(upd3, CacheUpdate::Keep));
}

#[test]
fn test_list_secrets_permissions() {
    let mut store = SecretStore::new();
    let now = 1_700_000_000;
    store.put_secret("app/user1/secret1", br#"{"key": "value"}"#.to_vec(), None, ALICE, None, true, now).unwrap();
    store.put_secret("app/user2/secret1", br#"{"key": "value"}"#.to_vec(), None, BOB, None, true, now).unwrap();
    let all = vec![true, true];
    let l1 = store.list_secrets(None, ALICE, &all);
    assert_eq!(l1.len(), 1);
    assert_eq!(l1[0].path, "app/user1/secret1");
    let l2 = store.list_secrets(None, BOB, &all);
    assert_eq!(l2.len(), 1);
    assert_eq!(l2[0].path, "app/user2/secret1");
    let la = store.list_secrets(None, ADMIN, &all);
    assert_eq!(la.len(), 0);
}

#[test]
fn listing_honours_prefix_and_policy_verdicts() {
    let mut store = SecretStore::new();
    let now = 1_700_000_000;
    store.put_secret("app/a", b"1".to_vec(), None, ALICE, None, true, now).unwrap();
    store.put_secret("db/b", b"2".to_vec(), None, ALICE, None, true, now).unwrap();
    store.put_secret("app/c", b"3".to_vec(), None, ALICE, None, true, now).unwrap();
    let n = store.entries.len();
    let all = vec![true; n];
    let l = store.list_secrets(Some("app/"), ALICE, &all);
    let paths: Vec<&str> = l.iter().map(|d| d.path.as_str()).collect();
    assert_eq!(paths, vec!["app/a", "app/c"]);
    let mut deny_first = vec![true; n];
    let first = store.entries.iter().position(|e| e.path == "app/a").unwrap();
    deny_first[first] = false;
    let l = store.list_secrets(Some("app/"), ALICE, &deny_first);
    assert_eq!(l.len(), 1);
    assert_eq!(l[0].path, "app/c");
}

#[test]
fn key_creation_checks_in_order() {
    match create_key_check(ALICE, "mykey_v1", "aes256-gcm", false, true) {
        Err(SecretError::InvalidOperation(m)) => assert!(m.contains("must not end with '_v'")),
        _ => panic!("versioned names are refused first"),
    }
    match create_key_check(ALICE, "mykey", "aes256-gcm", false, true) {
        Err(SecretError::PermissionDenied(m)) => {
            assert_eq!(m, format!("Action 'create' denied on 'keys/{}/mykey'", ALICE))
        }
        _ => panic!("the policy is asked before the store"),
    }
    match create_key_check(ALICE, "mykey", "aes256-gcm", true, true) {
        Err(SecretError::InvalidOperation(m)) => {
            assert_eq!(m, "Key 'mykey' already exists. Delete it first or use a different name.")
        }
        _ => panic!("existing keys are never overwritten"),
    }
    assert!(matches!(create_key_check(ALICE, "mykey", "aes256-gcm", true, false), Ok(KeyAlgorithm::Aes256Gcm)));
    assert!(create_key_check(ALICE, "mykey", "x25519", true, false).is_err());
}

#[test]
fn unparsable_cached_data_is_replaced_from_storage() {
    let mut store = SecretStore::new();
    let now = 1_700_000_000;
    store.put_secret("app/c", br#"{"k":"v1"}"#.to_vec(), None, ALICE, None, true, now).unwrap();
    // Right version, but the data is not a JSON map of strings.
    let bad = cache_payload(1, b"not json");
    let (r, upd) = store.get_secret_cached("app/c", ALICE, None, true, Some(&bad));
    assert_eq!(r.unwrap().payload, br#"{"k":"v1"}"#.to_vec());
    match upd {
        CacheUpdate::Put(p) => assert_eq!(p, cache_payload(1, br#"{"k":"v1"}"#)),
        CacheUpdate::Keep => panic!("an unparsable cached payload must be replaced"),
    }
    let nested = cache_payload(1, br#"{"k":{"x":1}}"#);
    let (_, upd) = store.get_secret_cached("app/c", ALICE, None, true, Some(&nested));
    assert!(matches!(upd, CacheUpdate::Put(_)));
}
