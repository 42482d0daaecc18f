use secreton_api::monitoring::record_request_metric;
use secreton_api::monitoring::{
    alerts_due, default_alert_thresholds, prometheus_text, security_checks, SecurityMetrics,
};
use secreton_api::runtime::{
    container_check, crypto_check, filesystem_check, memory_check, network_check, overall_status,
    resources_check, runtime_status, SecurityCheckResult, SecurityStatus, ToolOutcome,
};

#[test]
fn test_security_metrics_collection() {
    let mut metrics = SecurityMetrics::new();

    metrics.record_auth_attempt(true);
    metrics.record_auth_attempt(false);

    assert_eq!(metrics.auth_attempts, 2);
    assert_eq!(metrics.auth_successes, 1);
    assert_eq!(metrics.auth_failures, 1);
}

#[test]
fn every_fifth_failure_counts_as_brute_force() {
    let mut m = SecurityMetrics::new();
    for _ in 0..4 {
        m.record_auth_attempt(false);
    }
    assert_eq!(m.brute_force_attempts, 0);
    m.record_auth_attempt(false);
    assert_eq!(m.brute_force_attempts, 1);
    for _ in 0..5 {
        m.record_auth_attempt(false);
    }
    assert_eq!(m.brute_force_attempts, 2);
    assert_eq!(m.auth_successes + m.auth_failures, m.auth_attempts);
}

#[test]
fn crypto_operations_and_response_times() {
    let mut m = SecurityMetrics::new();
    m.record_crypto_operation("encrypt", true);
    m.record_crypto_operation("decrypt", false);
    m.record_crypto_operation("rewrap", false);
    assert_eq!(m.crypto_encrypts, 1);
    assert_eq!(m.crypto_decrypts, 1);
    assert_eq!(m.crypto_failures, 2);
    m.record_response_time(40);
    m.record_response_time(25);
    assert_eq!(m.avg_response_time_ms, 25);
    assert_eq!(m.p95_response_time_ms, 40);
    assert_eq!(m.p99_response_time_ms, 40);
}

#[test]
fn prometheus_export() {
    let mut m = SecurityMetrics::new();
    m.record_auth_attempt(true);
    m.record_crypto_operation("encrypt", true);
    m.record_crypto_operation("decrypt", true);
    let p = m.to_prometheus();
    assert_eq!(p.len(), 6);
    assert_eq!(p[0], ("secreton_auth_attempts_total".to_string(), 1));
    assert_eq!(p[3], ("secreton_crypto_operations_total".to_string(), 2));
    let text = prometheus_text(&p);
    assert!(text.starts_with("secreton_auth_attempts_total 1\nsecreton_auth_successes_total 1\n"));
    assert!(text.ends_with("secreton_brute_force_attempts_total 0\n"));
}

#[test]
fn test_security_alert_thresholds() {
    let t = default_alert_thresholds();
    assert_eq!(t.brute_force_threshold, 10);
    assert_eq!(t.crypto_failure_threshold, 5);
}

#[test]
fn alerts_over_thresholds() {
    let mut m = SecurityMetrics::new();
    assert!(alerts_due(&m, &default_alert_thresholds()).is_empty());
    m.brute_force_attempts = 11;
    m.crypto_failures = 5;
    m.suspicious_activities = 2;
    let a = alerts_due(&m, &default_alert_thresholds());
    assert_eq!(a.len(), 2);
    assert_eq!(a[0], ("BRUTE_FORCE_DETECTED".to_string(), "Brute force attempts detected: 11".to_string()));
    assert_eq!(a[1], ("SUSPICIOUS_ACTIVITY".to_string(), "Suspicious activities detected: 2".to_string()));
}

#[test]
fn health_checks_flag_high_failure_rate() {
    assert_eq!(security_checks(false).len(), 4);
    let c = security_checks(true);
    assert_eq!(c[4], ("high_failure_rate".to_string(), false));
    assert!(c[..4].iter().all(|(_, ok)| *ok));
}

#[test]
fn test_security_status_creation() {
    let status = SecurityStatus::Healthy;
    assert_eq!(status, SecurityStatus::Healthy);

    let check_result = SecurityCheckResult {
        status: SecurityStatus::Warning,
        message: "Test warning".to_string(),
        last_checked: 1_700_000_000,
        remediation: Some("Fix the issue".to_string()),
    };

    assert_eq!(check_result.status, SecurityStatus::Warning);
    assert!(check_result.remediation.is_some());
}

#[test]
fn probe_outcomes() {
    let m = memory_check(ToolOutcome::Unavailable, 5);
    assert_eq!(m.status, SecurityStatus::Warning);
    assert_eq!(m.message, "Memory check unavailable");
    assert_eq!(m.remediation.as_deref(), Some("Install procps for memory monitoring"));
    assert_eq!(m.last_checked, 5);
    let n = network_check(ToolOutcome::Succeeded, "tcp LISTEN 0 128 0.0.0.0:8080 0.0.0.0:*", 1);
    assert_eq!(n.status, SecurityStatus::Warning);
    let n2 = network_check(ToolOutcome::Succeeded, "tcp LISTEN 0 128 0.0.0.0:8443 0.0.0.0:*", 1);
    assert_eq!(n2.status, SecurityStatus::Healthy);
    let f = filesystem_check([false, true, true], 1);
    assert_eq!(f.message, "Path /var/tmp is read-only");
    let c = crypto_check(Some("bad key"), 1);
    assert_eq!(c.status, SecurityStatus::Critical);
    assert_eq!(c.message, "Cryptographic module failure: bad key");
    let d = container_check(None, 1);
    assert_eq!(d.message, "Container runtime is healthy");
    let r = resources_check(ToolOutcome::Failed, 1);
    assert_eq!(r.remediation.as_deref(), Some("Check system monitoring tools"));
}

#[test]
fn overall_status_takes_the_worst() {
    let healthy = vec![
        ("memory_safety".to_string(), memory_check(ToolOutcome::Succeeded, 1)),
        ("system_resources".to_string(), resources_check(ToolOutcome::Succeeded, 1)),
    ];
    assert_eq!(overall_status(&healthy), SecurityStatus::Healthy);
    let mut mixed = healthy;
    mixed.push(("network_security".to_string(), network_check(ToolOutcome::Failed, "", 1)));
    assert_eq!(overall_status(&mixed), SecurityStatus::Warning);
    mixed.push(("crypto_modules".to_string(), crypto_check(Some("x"), 1)));
    let status = runtime_status(mixed, 9, 120);
    assert_eq!(status.overall_status, SecurityStatus::Critical);
    assert_eq!(status.checks.len(), 4);
    assert_eq!(status.uptime_seconds, 120);
    assert_eq!(status.last_updated, 9);
}

#[test]
fn request_counter_metric() {
    assert_eq!(record_request_metric(10, "requests_total", Some(5)), 15);
    assert_eq!(record_request_metric(10, "requests_total", None), 10);
    assert_eq!(record_request_metric(10, "latency", Some(5)), 10);
}
