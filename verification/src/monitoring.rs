//! Security metrics: counters of authentication and cryptographic
//! activity, brute-force detection, the Prometheus export and the alert
//! rules over whole counts.

use vstd::prelude::*;
use crate::text::{chars_of, decimal, decimal_chars, owned, push_all, push_str, str_is, string_from_chars};

verus! {

/// Counters of security-relevant activity.  Counters wrap around at 2^64.
#[derive(Debug, Clone, Copy, PartialEq, Eq, Structural)]
pub struct SecurityMetrics {
    pub auth_attempts: u64,
    pub auth_successes: u64,
    pub auth_failures: u64,
    pub authz_attempts: u64,
    pub authz_denied: u64,
    pub crypto_encrypts: u64,
    pub crypto_decrypts: u64,
    pub crypto_signs: u64,
    pub crypto_verifies: u64,
    pub crypto_failures: u64,
    pub keys_created: u64,
    pub keys_rotated: u64,
    pub keys_deleted: u64,
    pub suspicious_activities: u64,
    pub brute_force_attempts: u64,
    pub privilege_escalations: u64,
    pub avg_response_time_ms: u64,
    pub p95_response_time_ms: u64,
    pub p99_response_time_ms: u64,
}

/// The counter after one more event.
pub open spec fn bump(c: u64) -> u64 {
    if c == u64::MAX {
        0
    } else {
        (c + 1) as u64
    }
}

fn bumped(c: u64) -> (r: u64)
    ensures
        r == bump(c),
{
    c.wrapping_add(1)
}

/// All counters zero.
pub open spec fn all_zero(m: SecurityMetrics) -> bool {
    &&& m.auth_attempts == 0 && m.auth_successes == 0 && m.auth_failures == 0
    &&& m.authz_attempts == 0 && m.authz_denied == 0
    &&& m.crypto_encrypts == 0 && m.crypto_decrypts == 0 && m.crypto_signs == 0
    &&& m.crypto_verifies == 0 && m.crypto_failures == 0
    &&& m.keys_created == 0 && m.keys_rotated == 0 && m.keys_deleted == 0
    &&& m.suspicious_activities == 0 && m.brute_force_attempts == 0
    &&& m.privilege_escalations == 0
    &&& m.avg_response_time_ms == 0 && m.p95_response_time_ms == 0 && m.p99_response_time_ms == 0
}

/// The metrics after an authentication attempt: attempts and successes or
/// failures grow by one; every fifth failure counts as a brute-force
/// attempt.
pub open spec fn after_auth_attempt(m: SecurityMetrics, success: bool) -> SecurityMetrics {
    if success {
        SecurityMetrics {
            auth_attempts: bump(m.auth_attempts),
            auth_successes: bump(m.auth_successes),
            ..m
        }
    } else {
        let f = bump(m.auth_failures);
        SecurityMetrics {
            auth_attempts: bump(m.auth_attempts),
            auth_failures: f,
            brute_force_attempts: if f % 5 == 0 {
                bump(m.brute_force_attempts)
            } else {
                m.brute_force_attempts
            },
            ..m
        }
    }
}

/// The metrics after a cryptographic operation named `op`.
pub open spec fn after_crypto_operation(m: SecurityMetrics, op: Seq<char>, success: bool) -> SecurityMetrics {
    let m1 = if op == "encrypt"@ {
        SecurityMetrics { crypto_encrypts: bump(m.crypto_encrypts), ..m }
    } else if op == "decrypt"@ {
        SecurityMetrics { crypto_decrypts: bump(m.crypto_decrypts), ..m }
    } else if op == "sign"@ {
        SecurityMetrics { crypto_signs: bump(m.crypto_signs), ..m }
    } else if op == "verify"@ {
        SecurityMetrics { crypto_verifies: bump(m.crypto_verifies), ..m }
    } else {
        m
    };
    if success {
        m1
    } else {
        SecurityMetrics { crypto_failures: bump(m1.crypto_failures), ..m1 }
    }
}

/// The metrics after a response of `d` milliseconds: the latest time, and
/// the largest seen for the percentiles.
pub open spec fn after_response_time(m: SecurityMetrics, d: u64) -> SecurityMetrics {
    SecurityMetrics {
        avg_response_time_ms: d,
        p95_response_time_ms: if d > m.p95_response_time_ms {
            d
        } else {
            m.p95_response_time_ms
        },
        p99_response_time_ms: if d > m.p99_response_time_ms {
            d
        } else {
            m.p99_response_time_ms
        },
        ..m
    }
}

impl SecurityMetrics {
    /// Metrics with every counter at zero.
    pub fn new() -> (m: Self)
        ensures
            all_zero(m),
    {
        SecurityMetrics {
            auth_attempts: 0,
            auth_successes: 0,
            auth_failures: 0,
            authz_attempts: 0,
            authz_denied: 0,
            crypto_encrypts: 0,
            crypto_decrypts: 0,
            crypto_signs: 0,
            crypto_verifies: 0,
            crypto_failures: 0,
            keys_created: 0,
            keys_rotated: 0,
            keys_deleted: 0,
            suspicious_activities: 0,
            brute_force_attempts: 0,
            privilege_escalations: 0,
            avg_response_time_ms: 0,
            p95_response_time_ms: 0,
            p99_response_time_ms: 0,
        }
    }

    /// Records an authentication attempt.
    pub fn record_auth_attempt(&mut self, success: bool)
        ensures
            *final(self) == after_auth_attempt(*old(self), success),
    {
        self.auth_attempts = bumped(self.auth_attempts);
        if success {
            self.auth_successes = bumped(self.auth_successes);
        } else {
            self.auth_failures = bumped(self.auth_failures);
            if self.auth_failures % 5 == 0 {
                self.brute_force_attempts = bumped(self.brute_force_attempts);
            }
        }
    }

    /// Records a cryptographic operation ("encrypt", "decrypt", "sign",
    /// "verify"; other names only count failures).
    pub fn record_crypto_operation(&mut self, operation: &str, success: bool)
        ensures
            *final(self) == after_crypto_operation(*old(self), operation@, success),
    {
        if str_is(operation, "encrypt") {
            self.crypto_encrypts = bumped(self.crypto_encrypts);
        } else if str_is(operation, "decrypt") {
            self.crypto_decrypts = bumped(self.crypto_decrypts);
        } else if str_is(operation, "sign") {
            self.crypto_signs = bumped(self.crypto_signs);
        } else if str_is(operation, "verify") {
            self.crypto_verifies = bumped(self.crypto_verifies);
        }
        if !success {
            self.crypto_failures = bumped(self.crypto_failures);
        }
    }

    /// Records the duration of a response.
    pub fn record_response_time(&mut self, duration_ms: u64)
        ensures
            *final(self) == after_response_time(*old(self), duration_ms),
    {
        self.avg_response_time_ms = duration_ms;
        if duration_ms > self.p95_response_time_ms {
            self.p95_response_time_ms = duration_ms;
        }
        if duration_ms > self.p99_response_time_ms {
            self.p99_response_time_ms = duration_ms;
        }
    }

    /// The exported metrics, by Prometheus name.
    pub fn to_prometheus(&self) -> (r: Vec<(String, u64)>)
        requires
            self.crypto_encrypts + self.crypto_decrypts <= u64::MAX,
        ensures
            r@.len() == 6,
            r@[0].0@ == "secreton_auth_attempts_total"@ && r@[0].1 == self.auth_attempts,
            r@[1].0@ == "secreton_auth_successes_total"@ && r@[1].1 == self.auth_successes,
            r@[2].0@ == "secreton_auth_failures_total"@ && r@[2].1 == self.auth_failures,
            r@[3].0@ == "secreton_crypto_operations_total"@ && r@[3].1 == self.crypto_encrypts
                + self.crypto_decrypts,
            r@[4].0@ == "secreton_crypto_failures_total"@ && r@[4].1 == self.crypto_failures,
            r@[5].0@ == "secreton_brute_force_attempts_total"@ && r@[5].1
                == self.brute_force_attempts,
    {
        let mut r: Vec<(String, u64)> = Vec::new();
        r.push((owned("secreton_auth_attempts_total"), self.auth_attempts));
        r.push((owned("secreton_auth_successes_total"), self.auth_successes));
        r.push((owned("secreton_auth_failures_total"), self.auth_failures));
        r.push(
            (
                owned("secreton_crypto_operations_total"),
                self.crypto_encrypts + self.crypto_decrypts,
            ),
        );
        r.push((owned("secreton_crypto_failures_total"), self.crypto_failures));
        r.push((owned("secreton_brute_force_attempts_total"), self.brute_force_attempts));
        r
    }
}

/// The Prometheus text of metrics: one "name value" line each.
pub open spec fn prometheus_lines(m: Seq<(String, u64)>) -> Seq<char>
    decreases m.len(),
{
    if m.len() == 0 {
        Seq::empty()
    } else {
        prometheus_lines(m.drop_last()) + m.last().0@ + " "@ + decimal(m.last().1 as nat) + "\n"@
    }
}

/// Renders metrics in the Prometheus text format.
pub fn prometheus_text(metrics: &Vec<(String, u64)>) -> (s: String)
    ensures
        s@ == prometheus_lines(metrics@),
{
    let n = metrics.len();
    let mut v: Vec<char> = Vec::new();
    assert(metrics@.take(0) =~= Seq::<(String, u64)>::empty());
    for i in 0..n
        invariant
            n == metrics@.len(),
            v@ == prometheus_lines(metrics@.take(i as int)),
    {
        let ghost before = v@;
        push_str(&mut v, metrics[i].0.as_str());
        push_str(&mut v, " ");
        let d = decimal_chars(metrics[i].1);
        push_all(&mut v, d.as_slice());
        push_str(&mut v, "\n");
        assert(metrics@.take(i + 1).drop_last() =~= metrics@.take(i as int));
        assert(metrics@.take(i + 1).last() == metrics@[i as int]);
        assert(v@ =~= before + metrics@[i as int].0@ + " "@ + decimal(metrics@[i as int].1 as nat)
            + "\n"@);
    }
    assert(metrics@.take(n as int) =~= metrics@);
    string_from_chars(v.as_slice())
}

/// Alert thresholds over whole counts.
#[derive(Debug, Clone, Copy, PartialEq, Eq, Structural)]
pub struct AlertThresholds {
    pub brute_force_threshold: u64,
    pub crypto_failure_threshold: u64,
}

/// The default thresholds: 10 brute-force attempts, 5 crypto failures.
pub fn default_alert_thresholds() -> (t: AlertThresholds)
    ensures
        t.brute_force_threshold == 10,
        t.crypto_failure_threshold == 5,
{
    AlertThresholds { brute_force_threshold: 10, crypto_failure_threshold: 5 }
}

/// An alert over whole counts: its kind and message.
pub open spec fn count_alerts(m: SecurityMetrics, t: AlertThresholds) -> Seq<(Seq<char>, Seq<char>)> {
    (if m.brute_force_attempts > t.brute_force_threshold {
        seq![
            (
                "BRUTE_FORCE_DETECTED"@,
                "Brute force attempts detected: "@ + decimal(m.brute_force_attempts as nat),
            ),
        ]
    } else {
        seq![]
    }) + (if m.crypto_failures > t.crypto_failure_threshold {
        seq![
            (
                "CRYPTO_FAILURES"@,
                "Cryptographic operation failures: "@ + decimal(m.crypto_failures as nat),
            ),
        ]
    } else {
        seq![]
    }) + if m.suspicious_activities > 0 {
        seq![
            (
                "SUSPICIOUS_ACTIVITY"@,
                "Suspicious activities detected: "@ + decimal(m.suspicious_activities as nat),
            ),
        ]
    } else {
        seq![]
    }
}

fn alert(kind: &str, text: &str, n: u64) -> (a: (String, String))
    ensures
        a.0@ == kind@,
        a.1@ == text@ + decimal(n as nat),
{
    let mut v = chars_of(text);
    let d = decimal_chars(n);
    push_all(&mut v, d.as_slice());
    (owned(kind), string_from_chars(v.as_slice()))
}

/// The alerts due over whole counts, in the order the monitor checks them
/// (the failure-rate alert is decided on floating point by the caller).
pub fn alerts_due(m: &SecurityMetrics, t: &AlertThresholds) -> (r: Vec<(String, String)>)
    ensures
        crate::admin::pair_texts(r@) == count_alerts(*m, *t),
{
    let mut r: Vec<(String, String)> = Vec::new();
    if m.brute_force_attempts > t.brute_force_threshold {
        r.push(alert("BRUTE_FORCE_DETECTED", "Brute force attempts detected: ", m.brute_force_attempts));
    }
    if m.crypto_failures > t.crypto_failure_threshold {
        r.push(alert("CRYPTO_FAILURES", "Cryptographic operation failures: ", m.crypto_failures));
    }
    if m.suspicious_activities > 0 {
        r.push(alert("SUSPICIOUS_ACTIVITY", "Suspicious activities detected: ", m.suspicious_activities));
    }
    assert(crate::admin::pair_texts(r@) =~= count_alerts(*m, *t));
    r
}

/// The security health report.
#[derive(Debug)]
pub struct SecurityHealthResponse {
    pub status: String,
    pub timestamp: String,
    pub version: String,
    pub security_checks: Vec<(String, bool)>,
    pub metrics_summary: Vec<(String, u64)>,
}

/// The component checks of the health report, all passing, plus a failed
/// "high_failure_rate" check when the caller found the authentication
/// failure rate above 10%.
pub fn security_checks(high_failure_rate: bool) -> (r: Vec<(String, bool)>)
    ensures
        r@.len() == if high_failure_rate {
            5nat
        } else {
            4nat
        },
        r@[0].0@ == "crypto_modules_healthy"@ && r@[0].1,
        r@[1].0@ == "auth_system_healthy"@ && r@[1].1,
        r@[2].0@ == "storage_backends_healthy"@ && r@[2].1,
        r@[3].0@ == "memory_safety_ok"@ && r@[3].1,
        high_failure_rate ==> r@[4].0@ == "high_failure_rate"@ && !r@[4].1,
{
    let mut r: Vec<(String, bool)> = Vec::new();
    r.push((owned("crypto_modules_healthy"), true));
    r.push((owned("auth_system_healthy"), true));
    r.push((owned("storage_backends_healthy"), true));
    r.push((owned("memory_safety_ok"), true));
    if high_failure_rate {
        r.push((owned("high_failure_rate"), false));
    }
    r
}

/// The request total after recording a metric: a counter named
/// "requests_total" adds its value; any other metric leaves it as it is.
pub fn record_request_metric(total_requests: u64, name: &str, counter: Option<u64>) -> (t: u64)
    requires
        name@ == "requests_total"@ && counter is Some ==> total_requests
            + counter.unwrap() <= u64::MAX,
    ensures
        t == if name@ == "requests_total"@ && counter is Some {
            (total_requests + counter.unwrap()) as u64
        } else {
            total_requests
        },
{
    if str_is(name, "requests_total") {
        match counter {
            Some(v) => total_requests + v,
            None => total_requests,
        }
    } else {
        total_requests
    }
}

} // verus!
