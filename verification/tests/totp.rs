use secreton_api::totp::{
    check_totp_code, constant_time_eq, decode_base32_lenient, encode_base32, enrollment_path,
    enrollment_uri, generate_hotp_simple, generate_secret, generate_totp, key_path, totp_config,
    validate_totp_code_at, validate_totp_code_simple, validate_user_id, TotpError,
    TotpServiceError,
};

const RFC_SHA1_SECRET: &str = "GEZDGNBVGY3TQOJQGEZDGNBVGY3TQOJQ";

#[test]
fn constant_time_comparison() {
    assert!(constant_time_eq(b"abc", b"abc"));
    assert!(!constant_time_eq(b"abc", b"abd"));
    assert!(!constant_time_eq(b"abc", b"ab"));
    assert!(constant_time_eq(b"", b""));
}

#[test]
fn base32_rfc4648_vectors() {
    let cases: [(&[u8], &str); 7] = [
        (b"", ""),
        (b"f", "MY"),
        (b"fo", "MZXQ"),
        (b"foo", "MZXW6"),
        (b"foob", "MZXW6YQ"),
        (b"fooba", "MZXW6YTB"),
        (b"foobar", "MZXW6YTBOI"),
    ];
    for (bytes, text) in cases {
        assert_eq!(encode_base32(bytes), text);
        assert_eq!(decode_base32_lenient(text), Some(bytes.to_vec()));
    }
    assert_eq!(decode_base32_lenient("mzxw6ytboi======"), Some(b"foobar".to_vec()));
    assert_eq!(decode_base32_lenient("MZ1"), None);
}

#[test]
fn generated_secrets_are_160_bits() {
    let a = generate_secret();
    let b = generate_secret();
    assert_eq!(a.len(), 32);
    assert_eq!(decode_base32_lenient(&a).map(|v| v.len()), Some(20));
    assert_ne!(a, b);
}

#[test]
fn hotp_sha256_rfc6238_vectors() {
    let key = b"12345678901234567890123456789012";
    assert_eq!(generate_hotp_simple(key, 1), 119246);
    assert_eq!(generate_hotp_simple(key, 37037036), 84774);
}

#[test]
fn simple_code_validation() {
    let secret = "12345678901234567890123456789012";
    assert!(validate_totp_code_at("119246", secret, 59));
    assert!(validate_totp_code_at("119246", secret, 89));
    assert!(!validate_totp_code_at("119246", secret, 200));
    assert!(!validate_totp_code_at("11924", secret, 59));
    assert!(!validate_totp_code_at("abcdef", secret, 59));
    assert!(!validate_totp_code_simple("12a456", secret));
}

#[test]
fn totp_sha1_rfc6238_vectors() {
    assert_eq!(generate_totp(RFC_SHA1_SECRET, 59, 30, 8).unwrap(), "94287082");
    assert_eq!(generate_totp(RFC_SHA1_SECRET, 1111111109, 30, 8).unwrap(), "07081804");
    assert_eq!(generate_totp(RFC_SHA1_SECRET, 1234567890, 30, 8).unwrap(), "89005924");
    assert_eq!(generate_totp(RFC_SHA1_SECRET, 59, 30, 6).unwrap(), "287082");
    match generate_totp("not base32!", 59, 30, 6) {
        Err(TotpError::Configuration(m)) => assert_eq!(m, "Invalid base32 char"),
        _ => panic!("bad secret refused"),
    }
}

#[test]
fn totp_codes_are_checked_once() {
    assert_eq!(check_totp_code(RFC_SHA1_SECRET, "287082", 59, None, 30, 6).unwrap(), true);
    assert_eq!(check_totp_code(RFC_SHA1_SECRET, "287082", 59, Some(59), 30, 6).unwrap(), false);
    assert_eq!(check_totp_code(RFC_SHA1_SECRET, "000000", 59, None, 30, 6).unwrap(), false);
}

#[test]
fn enrollment_records() {
    let c = totp_config("Secreton".to_string());
    assert_eq!(c.period, 30);
    assert_eq!(c.digits, 6);
    assert_eq!(
        enrollment_uri(&c, "alice", "ABC"),
        "otpauth://totp/Secreton:alice?secret=ABC&issuer=Secreton&algorithm=SHA1&digits=6&period=30"
    );
    assert_eq!(enrollment_path(1), "sys/mfa/totp/00000000-0000-0000-0000-000000000001");
    assert_eq!(key_path("u1", "k"), "sys/totp/u1/k");
}

#[test]
fn user_ids_must_be_path_safe() {
    assert!(validate_user_id("alice").is_ok());
    for (id, msg) in [
        ("", "User ID must not be empty"),
        ("a/b", "User ID must not contain '/', '\\', or '..'"),
        ("a..b", "User ID must not contain '/', '\\', or '..'"),
        ("a\u{7}b", "User ID must not contain control characters"),
    ] {
        match validate_user_id(id) {
            Err(TotpServiceError::BadRequest(m)) => assert_eq!(m, msg),
            _ => panic!("{:?} must be refused", id),
        }
    }
}

#[test]
fn base32_round_trips_random_bytes() {
    for n in 0..40usize {
        let bytes: Vec<u8> = (0..n).map(|i| (i * 37 + n * 11) as u8).collect();
        let text = encode_base32(&bytes);
        assert_eq!(text.len(), (8 * n + 4) / 5);
        assert_eq!(decode_base32_lenient(&text), Some(bytes));
    }
}
