use secreton_api::access::{validate_client_certificate, CertificateCache};

// A self-signed Ed25519 certificate for C=DE, CN=www.example.com, valid
// from 2021-07-27 12:37:14 UTC to 2023-06-27 12:37:14 UTC.
const CERT_HEX: &str = "308201083081bb021477e5f4c03488a1226cf5cd45f3cdf04991f81543300506032b65703027310b30090603550406130244453118301606035504030c0f7777772e6578616d706c652e636f6d301e170d3231303732373132333731345a170d3233303632373132333731345a3027310b30090603550406130244453118301606035504030c0f7777772e6578616d706c652e636f6d302a300506032b65700321003ea405d2ef19f5e0abf33e4df54ee51d0544793d98e2672537f4ffcaf860984c300506032b657003410020db7ae6fac288e959f46acab2d72c480d55bc0f27573252683fe801aa9e83d223c3b48c1793706bde0dc4aa3671c88383b1e41a6e528bd6bc02a626ea8dd502";

const IN_PERIOD: i64 = 1_650_000_000;
const AFTER_PERIOD: i64 = 1_700_000_000;

#[test]
fn certificate_fields_and_period() {
    let der = hex::decode(CERT_HEX).unwrap();
    let mut cache = CertificateCache::new(10, 300);
    let v = validate_client_certificate(&mut cache, &der, &vec!["example.com".to_string()], (IN_PERIOD, 0), 1_000);
    assert!(v.valid);
    assert_eq!(v.subject.as_deref(), Some("C=DE, CN=www.example.com"));
    assert_eq!(v.issuer.as_deref(), Some("C=DE, CN=www.example.com"));
    assert_eq!(v.serial_number.as_deref(), Some("77e5f4c03488a1226cf5cd45f3cdf04991f81543"));
    assert_eq!(v.not_before.as_deref(), Some("2021-07-27 12:37:14 UTC"));
    assert_eq!(v.not_after.as_deref(), Some("2023-06-27 12:37:14 UTC"));

    let mut fresh = CertificateCache::new(10, 300);
    let expired = validate_client_certificate(&mut fresh, &der, &vec![], (AFTER_PERIOD, 0), 1_000);
    assert!(!expired.valid);
    let mut other = CertificateCache::new(10, 300);
    let refused = validate_client_certificate(&mut other, &der, &vec!["corp.internal".to_string()], (IN_PERIOD, 0), 1_000);
    assert!(!refused.valid);
}

#[test]
fn cached_outcomes_are_reused_until_they_expire() {
    let der = hex::decode(CERT_HEX).unwrap();
    let mut cache = CertificateCache::new(10, 300);
    let first = validate_client_certificate(&mut cache, &der, &vec![], (IN_PERIOD, 0), 1_000);
    assert!(first.valid);
    // Within five minutes the cached outcome is returned, even though the
    // wall clock given now lies after the validity period.
    let again = validate_client_certificate(&mut cache, &der, &vec![], (AFTER_PERIOD, 0), 1_000 + 300_000_000_000);
    assert!(again.valid);
    // Once the entry has expired the certificate is checked afresh.
    let later = validate_client_certificate(&mut cache, &der, &vec![], (AFTER_PERIOD, 0), 1_000 + 300_000_000_001);
    assert!(!later.valid);
}

#[test]
fn unparsable_certificates_are_invalid() {
    let mut cache = CertificateCache::new(1, 300);
    let v = validate_client_certificate(&mut cache, &[0x30, 0x03, 0x01], &vec![], (IN_PERIOD, 0), 1_000);
    assert!(!v.valid);
    assert!(v.subject.is_none() && v.serial_number.is_none());
}
