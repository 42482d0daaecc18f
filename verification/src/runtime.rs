//! Runtime security validation: what each probe of the host makes of what
//! it observed, and the overall status of a validation round.
//!
//! The probes themselves (running system tools, reading file metadata,
//! pinging the container runtime, a trial encryption) are performed by the
//! caller, which hands their outcomes in.

use vstd::prelude::*;
use crate::text::{chars_of, contains, owned, push_str, seq_contains, string_from_chars};

verus! {

/// Security status levels.
#[derive(Debug, Clone, Copy, PartialEq, Eq, Structural)]
pub enum SecurityStatus {
    Healthy,
    Warning,
    Critical,
    Unknown,
}

/// The result of one check.
#[derive(Debug)]
pub struct SecurityCheckResult {
    pub status: SecurityStatus,
    pub message: String,
    /// When the check ran, in seconds since the Unix epoch.
    pub last_checked: i64,
    pub remediation: Option<String>,
}

/// The result of a validation round: the overall status and each check by
/// name.
#[derive(Debug)]
pub struct RuntimeSecurityStatus {
    pub overall_status: SecurityStatus,
    pub checks: Vec<(String, SecurityCheckResult)>,
    /// When the round ended, in seconds since the Unix epoch.
    pub last_updated: i64,
    pub uptime_seconds: u64,
}

/// How running a system tool went.
#[derive(Debug, Clone, Copy, PartialEq, Eq, Structural)]
pub enum ToolOutcome {
    /// It ran and exited successfully.
    Succeeded,
    /// It ran and exited with a failure.
    Failed,
    /// It could not be run.
    Unavailable,
}

/// The check result has this status, message and remediation.
pub open spec fn check_is(
    r: SecurityCheckResult,
    status: SecurityStatus,
    message: Seq<char>,
    remediation: Option<Seq<char>>,
) -> bool {
    &&& r.status == status
    &&& r.message@ == message
    &&& match remediation {
        Some(m) => r.remediation matches Some(x) && x@ == m,
        None => r.remediation is None,
    }
}

fn result(status: SecurityStatus, message: String, now: i64, remediation: Option<&str>) -> (r:
    SecurityCheckResult)
    ensures
        check_is(
            r,
            status,
            message@,
            match remediation {
                Some(m) => Some(m@),
                None => None,
            },
        ),
        r.last_checked == now,
{
    let remediation = match remediation {
        Some(m) => Some(owned(m)),
        None => None,
    };
    SecurityCheckResult { status, message, last_checked: now, remediation }
}

/// The memory check, from running the memory report.
pub fn memory_check(outcome: ToolOutcome, now: i64) -> (r: SecurityCheckResult)
    ensures
        r.last_checked == now,
        outcome == ToolOutcome::Succeeded ==> check_is(
            r,
            SecurityStatus::Healthy,
            "Memory usage within normal parameters"@,
            None,
        ),
        outcome == ToolOutcome::Failed ==> check_is(
            r,
            SecurityStatus::Warning,
            "Unable to check memory information"@,
            Some("Verify system memory monitoring is available"@),
        ),
        outcome == ToolOutcome::Unavailable ==> check_is(
            r,
            SecurityStatus::Warning,
            "Memory check unavailable"@,
            Some("Install procps for memory monitoring"@),
        ),
{
    match outcome {
        ToolOutcome::Succeeded => result(
            SecurityStatus::Healthy,
            owned("Memory usage within normal parameters"),
            now,
            None,
        ),
        ToolOutcome::Failed => result(
            SecurityStatus::Warning,
            owned("Unable to check memory information"),
            now,
            Some("Verify system memory monitoring is available"),
        ),
        ToolOutcome::Unavailable => result(
            SecurityStatus::Warning,
            owned("Memory check unavailable"),
            now,
            Some("Install procps for memory monitoring"),
        ),
    }
}

/// The system resources check, from running the uptime report.
pub fn resources_check(outcome: ToolOutcome, now: i64) -> (r: SecurityCheckResult)
    ensures
        r.last_checked == now,
        outcome == ToolOutcome::Succeeded ==> check_is(
            r,
            SecurityStatus::Healthy,
            "System resources within normal parameters"@,
            None,
        ),
        outcome == ToolOutcome::Failed ==> check_is(
            r,
            SecurityStatus::Warning,
            "Unable to check system resources"@,
            Some("Check system monitoring tools"@),
        ),
        outcome == ToolOutcome::Unavailable ==> check_is(
            r,
            SecurityStatus::Warning,
            "System resource check unavailable"@,
            Some("Install procps for system monitoring"@),
        ),
{
    match outcome {
        ToolOutcome::Succeeded => result(
            SecurityStatus::Healthy,
            owned("System resources within normal parameters"),
            now,
            None,
        ),
        ToolOutcome::Failed => result(
            SecurityStatus::Warning,
            owned("Unable to check system resources"),
            now,
            Some("Check system monitoring tools"),
        ),
        ToolOutcome::Unavailable => result(
            SecurityStatus::Warning,
            owned("System resource check unavailable"),
            now,
            Some("Install procps for system monitoring"),
        ),
    }
}

/// The listening sockets show a plain-text port (80 or 8080).
pub open spec fn insecure_listing(listing: Seq<char>) -> bool {
    seq_contains(listing, ":80 "@) || seq_contains(listing, ":8080 "@)
}

/// The network check, from running the socket listing tool and, when it
/// succeeded, the listing it printed.
pub fn network_check(outcome: ToolOutcome, listing: &str, now: i64) -> (r: SecurityCheckResult)
    ensures
        r.last_checked == now,
        outcome == ToolOutcome::Succeeded && insecure_listing(listing@) ==> check_is(
            r,
            SecurityStatus::Warning,
            "Detected potentially insecure network ports"@,
            Some("Use TLS for all network communications"@),
        ),
        outcome == ToolOutcome::Succeeded && !insecure_listing(listing@) ==> check_is(
            r,
            SecurityStatus::Healthy,
            "Network security configuration is secure"@,
            None,
        ),
        outcome == ToolOutcome::Failed ==> check_is(
            r,
            SecurityStatus::Warning,
            "Unable to check network configuration"@,
            Some("Install iproute2/ss for network monitoring"@),
        ),
        outcome == ToolOutcome::Unavailable ==> check_is(
            r,
            SecurityStatus::Warning,
            "Network check unavailable"@,
            Some("Install ss for network monitoring"@),
        ),
{
    match outcome {
        ToolOutcome::Succeeded => {
            let l = chars_of(listing);
            let p80 = chars_of(":80 ");
            let p8080 = chars_of(":8080 ");
            if contains(l.as_slice(), p80.as_slice()) || contains(l.as_slice(), p8080.as_slice()) {
                result(
                    SecurityStatus::Warning,
                    owned("Detected potentially insecure network ports"),
                    now,
                    Some("Use TLS for all network communications"),
                )
            } else {
                result(
                    SecurityStatus::Healthy,
                    owned("Network security configuration is secure"),
                    now,
                    None,
                )
            }
        },
        ToolOutcome::Failed => result(
            SecurityStatus::Warning,
            owned("Unable to check network configuration"),
            now,
            Some("Install iproute2/ss for network monitoring"),
        ),
        ToolOutcome::Unavailable => result(
            SecurityStatus::Warning,
            owned("Network check unavailable"),
            now,
            Some("Install ss for network monitoring"),
        ),
    }
}

/// The filesystem check, from whether each watched path ("/tmp",
/// "/var/tmp", "/dev/shm", in that order) was found read-only: the first
/// read-only one is reported.
pub fn filesystem_check(read_only: [bool; 3], now: i64) -> (r: SecurityCheckResult)
    ensures
        r.last_checked == now,
        read_only[0] ==> check_is(
            r,
            SecurityStatus::Warning,
            "Path /tmp is read-only"@,
            Some("Check filesystem permissions and mounting"@),
        ),
        !read_only[0] && read_only[1] ==> check_is(
            r,
            SecurityStatus::Warning,
            "Path /var/tmp is read-only"@,
            Some("Check filesystem permissions and mounting"@),
        ),
        !read_only[0] && !read_only[1] && read_only[2] ==> check_is(
            r,
            SecurityStatus::Warning,
            "Path /dev/shm is read-only"@,
            Some("Check filesystem permissions and mounting"@),
        ),
        !read_only[0] && !read_only[1] && !read_only[2] ==> check_is(
            r,
            SecurityStatus::Healthy,
            "Filesystem security checks passed"@,
            None,
        ),
{
    if read_only[0] {
        result(
            SecurityStatus::Warning,
            owned("Path /tmp is read-only"),
            now,
            Some("Check filesystem permissions and mounting"),
        )
    } else if read_only[1] {
        result(
            SecurityStatus::Warning,
            owned("Path /var/tmp is read-only"),
            now,
            Some("Check filesystem permissions and mounting"),
        )
    } else if read_only[2] {
        result(
            SecurityStatus::Warning,
            owned("Path /dev/shm is read-only"),
            now,
            Some("Check filesystem permissions and mounting"),
        )
    } else {
        result(SecurityStatus::Healthy, owned("Filesystem security checks passed"), now, None)
    }
}

fn failure_text(prefix: &str, detail: &str) -> (s: String)
    ensures
        s@ == prefix@ + detail@,
{
    let mut v = chars_of(prefix);
    push_str(&mut v, detail);
    string_from_chars(v.as_slice())
}

/// The cryptographic module check, from a trial encryption: `None` when it
/// worked, else the engine's message.
pub fn crypto_check(failure: Option<&str>, now: i64) -> (r: SecurityCheckResult)
    ensures
        r.last_checked == now,
        failure is None ==> check_is(
            r,
            SecurityStatus::Healthy,
            "Cryptographic modules functioning correctly"@,
            None,
        ),
        failure matches Some(e) ==> check_is(
            r,
            SecurityStatus::Critical,
            "Cryptographic module failure: "@ + e@,
            Some("Restart cryptographic services and check key material"@),
        ),
{
    match failure {
        None => result(
            SecurityStatus::Healthy,
            owned("Cryptographic modules functioning correctly"),
            now,
            None,
        ),
        Some(e) => result(
            SecurityStatus::Critical,
            failure_text("Cryptographic module failure: ", e),
            now,
            Some("Restart cryptographic services and check key material"),
        ),
    }
}

/// The container runtime check, from a ping: `None` when it answered, else
/// the client's message.
pub fn container_check(failure: Option<&str>, now: i64) -> (r: SecurityCheckResult)
    ensures
        r.last_checked == now,
        failure is None ==> check_is(r, SecurityStatus::Healthy, "Container runtime is healthy"@, None),
        failure matches Some(e) ==> check_is(
            r,
            SecurityStatus::Critical,
            "Container runtime issue: "@ + e@,
            Some("Check Docker daemon and container networking"@),
        ),
{
    match failure {
        None => result(SecurityStatus::Healthy, owned("Container runtime is healthy"), now, None),
        Some(e) => result(
            SecurityStatus::Critical,
            failure_text("Container runtime issue: ", e),
            now,
            Some("Check Docker daemon and container networking"),
        ),
    }
}

/// Some check has this status.
pub open spec fn some_check_is(checks: Seq<(String, SecurityCheckResult)>, s: SecurityStatus) -> bool {
    exists|i: int| 0 <= i < checks.len() && (#[trigger] checks[i]).1.status == s
}

/// The overall status of a round: critical if any check is critical, else
/// warning if any check warns, else healthy.
pub open spec fn overall_of(checks: Seq<(String, SecurityCheckResult)>) -> SecurityStatus {
    if some_check_is(checks, SecurityStatus::Critical) {
        SecurityStatus::Critical
    } else if some_check_is(checks, SecurityStatus::Warning) {
        SecurityStatus::Warning
    } else {
        SecurityStatus::Healthy
    }
}

/// The overall status of the checks of a round.
pub fn overall_status(checks: &Vec<(String, SecurityCheckResult)>) -> (s: SecurityStatus)
    ensures
        s == overall_of(checks@),
{
    let mut critical = false;
    let mut warning = false;
    let n = checks.len();
    for i in 0..n
        invariant
            n == checks@.len(),
            critical == exists|j: int| 0 <= j < i && (#[trigger] checks@[j]).1.status
                == SecurityStatus::Critical,
            warning == exists|j: int| 0 <= j < i && (#[trigger] checks@[j]).1.status
                == SecurityStatus::Warning,
    {
        let st = checks[i].1.status;
        if st == SecurityStatus::Critical {
            critical = true;
        } else if st == SecurityStatus::Warning {
            warning = true;
        }
        assert(checks@[i as int].1.status == st);
    }
    if critical {
        SecurityStatus::Critical
    } else if warning {
        SecurityStatus::Warning
    } else {
        SecurityStatus::Healthy
    }
}

/// The result of a validation round, from its checks in the order they
/// ran.
pub fn runtime_status(checks: Vec<(String, SecurityCheckResult)>, now: i64, uptime_seconds: u64) -> (r:
    RuntimeSecurityStatus)
    ensures
        r.overall_status == overall_of(checks@),
        r.checks@ == checks@,
        r.last_updated == now,
        r.uptime_seconds == uptime_seconds,
{
    let overall_status = overall_status(&checks);
    RuntimeSecurityStatus { overall_status, checks, last_updated: now, uptime_seconds }
}

} // verus!
