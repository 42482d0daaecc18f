//! Request admission rules of the HTTP layer: rate limiting, client
//! addresses, public and seal-exempt paths, the MFA enrollment allowlist,
//! request size limits and audit lines.
//!
//! Times are nanoseconds of a monotonic clock.

use vstd::prelude::*;
use x509_parser::prelude::FromDer;
use crate::admin::meta_lookup;
use crate::auth::UserAccount;
use crate::audit::{second_text, utc_display};
use crate::digest::{hex_decode, hex_decoded, hex_encode, hex_of};
use crate::models::HttpStatus;
use crate::text::{
    chars_of, chars_of_string, decimal, owned, push_str, seq_contains, seq_starts_with,
    str_is, string_from_chars, trim, trimmed, views,
};

verus! {

/// Length of the rate-limit window, in nanoseconds (one minute).
pub const RATE_WINDOW_NANOS: u64 = 60_000_000_000;

/// Largest accepted request body, in bytes (1 MiB).
pub const MAX_REQUEST_SIZE: usize = 1048576;

/// Request times of one client within the window, oldest first.
pub open spec fn recent(times: Seq<u64>, now: u64) -> Seq<u64>
    decreases times.len(),
{
    if times.len() == 0 {
        Seq::empty()
    } else if times.last() > now - RATE_WINDOW_NANOS {
        recent(times.drop_last(), now).push(times.last())
    } else {
        recent(times.drop_last(), now)
    }
}

/// Per-client request histories of the rate limiter.
pub struct RateLimitState {
    pub requests: Vec<(String, Vec<u64>)>,
    pub max_requests_per_minute: u32,
}

/// The history recorded for a client, if any.
pub open spec fn history_of(s: Seq<(String, Vec<u64>)>, id: Seq<char>) -> Option<Seq<u64>>
    decreases s.len(),
{
    if s.len() == 0 {
        None
    } else if s.last().0@ == id {
        Some(s.last().1@)
    } else {
        history_of(s.drop_last(), id)
    }
}

/// No client is listed twice.
pub open spec fn distinct_clients(s: Seq<(String, Vec<u64>)>) -> bool {
    forall|i: int, j: int| 0 <= i < j < s.len() ==> (#[trigger] s[i]).0@ != (#[trigger] s[j]).0@
}

proof fn lemma_history_at(s: Seq<(String, Vec<u64>)>, i: int)
    requires
        distinct_clients(s),
        0 <= i < s.len(),
    ensures
        history_of(s, s[i].0@) == Some(s[i].1@),
    decreases s.len(),
{
    if i < s.len() - 1 {
        let d = s.drop_last();
        assert(d[i] == s[i]);
        assert(s[i].0@ != s[s.len() - 1].0@);
        lemma_history_at(d, i);
    }
}

proof fn lemma_history_update(s: Seq<(String, Vec<u64>)>, i: int, x: (String, Vec<u64>), q: Seq<char>)
    requires
        distinct_clients(s),
        0 <= i < s.len(),
        x.0@ == s[i].0@,
        q != x.0@,
    ensures
        history_of(s.update(i, x), q) == history_of(s, q),
    decreases s.len(),
{
    let t = s.update(i, x);
    if i < s.len() - 1 {
        assert(t.drop_last() =~= s.drop_last().update(i, x));
        assert(t.last() == s.last());
        let d = s.drop_last();
        assert forall|a: int, b: int| 0 <= a < b < d.len() implies (#[trigger] d[a]).0@ != (
        #[trigger] d[b]).0@ by {
            assert(d[a] == s[a] && d[b] == s[b]);
        }
        lemma_history_update(d, i, x, q);
    } else {
        assert(t.drop_last() =~= s.drop_last());
    }
}

proof fn lemma_history_absent(s: Seq<(String, Vec<u64>)>, q: Seq<char>)
    requires
        forall|k: int| 0 <= k < s.len() ==> (#[trigger] s[k]).0@ != q,
    ensures
        history_of(s, q) is None,
    decreases s.len(),
{
    if s.len() > 0 {
        let d = s.drop_last();
        assert forall|k: int| 0 <= k < d.len() implies (#[trigger] d[k]).0@ != q by {
            assert(d[k] == s[k]);
        }
        lemma_history_absent(d, q);
    }
}

impl RateLimitState {
    /// No client is listed twice.
    pub open spec fn wf(&self) -> bool {
        distinct_clients(self.requests@)
    }

    /// The request history of a client (empty when it never called).
    pub open spec fn history(&self, id: Seq<char>) -> Seq<u64> {
        match history_of(self.requests@, id) {
            Some(h) => h,
            None => Seq::empty(),
        }
    }

    /// A limiter admitting `max_requests_per_minute` requests per client per
    /// minute.
    pub fn new(max_requests_per_minute: u32) -> (s: Self)
        ensures
            s.wf(),
            s.max_requests_per_minute == max_requests_per_minute,
            forall|id: Seq<char>| s.history(id).len() == 0,
    {
        RateLimitState { requests: Vec::new(), max_requests_per_minute }
    }

    fn find(&self, id: &str) -> (r: Option<usize>)
        requires
            self.wf(),
        ensures
            match r {
                Some(i) => i < self.requests@.len() && self.requests@[i as int].0@ == id@,
                None => forall|k: int|
                    0 <= k < self.requests@.len() ==> (#[trigger] self.requests@[k]).0@ != id@,
            },
    {
        let n = self.requests.len();
        for i in 0..n
            invariant
                n == self.requests@.len(),
                forall|k: int| 0 <= k < i ==> (#[trigger] self.requests@[k]).0@ != id@,
        {
            if str_is(self.requests[i].0.as_str(), id) {
                return Some(i);
            }
        }
        None
    }

    /// Admits or refuses a request of `identifier` at time `now`: requests
    /// older than a minute are forgotten, and the request is admitted (and
    /// recorded) when fewer than the limit remain.
    pub fn check_rate_limit(&mut self, identifier: &str, now: u64) -> (allowed: bool)
        requires
            old(self).wf(),
            now >= RATE_WINDOW_NANOS,
        ensures
            final(self).wf(),
            final(self).max_requests_per_minute == old(self).max_requests_per_minute,
            allowed == (recent(old(self).history(identifier@), now).len()
                < old(self).max_requests_per_minute),
            final(self).history(identifier@) == if allowed {
                recent(old(self).history(identifier@), now).push(now)
            } else {
                recent(old(self).history(identifier@), now)
            },
            forall|q: Seq<char>| q != identifier@ ==> #[trigger] final(self).history(q) == old(
                self,
            ).history(q),
    {
        let cutoff = now - RATE_WINDOW_NANOS;
        let ghost s0 = self.requests@;
        let i = match self.find(identifier) {
            Some(i) => i,
            None => {
                proof {
                    lemma_history_absent(s0, identifier@);
                }
                let ghost before = self.requests@;
                self.requests.push((owned(identifier), Vec::new()));
                proof {
                    let s = self.requests@;
                    assert forall|a: int, b: int| 0 <= a < b < s.len() implies (#[trigger] s[a]).0@
                        != (#[trigger] s[b]).0@ by {
                        if b == s.len() - 1 {
                            assert(s[a] == before[a]);
                        } else {
                            assert(s[a] == before[a] && s[b] == before[b]);
                        }
                    }
                    assert(s.drop_last() =~= before);
                    assert forall|q: Seq<char>| q != identifier@ implies #[trigger] history_of(s, q)
                        == history_of(before, q) by {}
                    assert(history_of(s, identifier@) == Some(Seq::<u64>::empty()));
                }
                self.requests.len() - 1
            },
        };
        let ghost s1 = self.requests@;
        proof {
            lemma_history_at(s1, i as int);
        }
        let old_times = &self.requests[i].1;
        let n = old_times.len();
        let mut kept: Vec<u64> = Vec::new();
        for j in 0..n
            invariant
                n == old_times@.len(),
                kept@ == recent(old_times@.take(j as int), now),
                cutoff == now - RATE_WINDOW_NANOS,
        {
            assert(old_times@.take(j + 1).drop_last() =~= old_times@.take(j as int));
            if old_times[j] > cutoff {
                kept.push(old_times[j]);
            }
        }
        assert(old_times@.take(n as int) =~= old_times@);
        let allowed = kept.len() < self.max_requests_per_minute as usize;
        if allowed {
            kept.push(now);
        }
        let key = self.requests[i].0.clone();
        let ghost x = (key, kept);
        self.requests.set(i, (key, kept));
        proof {
            let s = self.requests@;
            assert(s == s1.update(i as int, x));
            assert forall|a: int, b: int| 0 <= a < b < s.len() implies (#[trigger] s[a]).0@
                != (#[trigger] s[b]).0@ by {
                if a != i && b != i {
                    assert(s[a] == s1[a] && s[b] == s1[b]);
                } else if a == i {
                    assert(s1[a].0@ != s1[b].0@);
                } else {
                    assert(s1[a].0@ != s1[b].0@);
                }
            }
            lemma_history_at(s, i as int);
            assert forall|q: Seq<char>| q != identifier@ implies #[trigger] history_of(s, q)
                == history_of(s0, q) by {
                lemma_history_update(s1, i as int, x, q);
            }
        }
        allowed
    }
}

/// The address a client is identified by: X-Real-IP when readable, else
/// the last entry of X-Forwarded-For, each trimmed of white space; else
/// "unknown".
pub open spec fn client_ip_of(real_ip: Option<Seq<char>>, forwarded_for: Option<Seq<char>>) -> Seq<
    char,
> {
    match real_ip {
        Some(r) => trimmed(r),
        None => match forwarded_for {
            Some(f) => trimmed(after_last_comma(f)),
            None => "unknown"@,
        },
    }
}

/// The text after the last comma, or all of it without one.
pub open spec fn after_last_comma(s: Seq<char>) -> Seq<char>
    decreases s.len(),
{
    if s.len() == 0 {
        s
    } else if s.last() == ',' {
        Seq::empty()
    } else {
        after_last_comma(s.drop_last()).push(s.last())
    }
}

fn after_last_comma_exec(s: &[char]) -> (r: Vec<char>)
    ensures
        r@ == after_last_comma(s@),
{
    let n = s.len();
    let mut i = n;
    assert(s@.take(n as int) =~= s@);
    assert(s@.subrange(n as int, n as int) =~= Seq::<char>::empty());
    while i > 0 && s[i - 1] != ','
        invariant
            i <= n == s@.len(),
            after_last_comma(s@) == after_last_comma(s@.take(i as int)) + s@.subrange(
                i as int,
                n as int,
            ),
        decreases i,
    {
        assert(s@.take(i as int).drop_last() =~= s@.take(i - 1));
        assert(s@.subrange(i - 1, n as int) =~= seq![s@[i - 1]] + s@.subrange(i as int, n as int));
        assert(after_last_comma(s@.take(i as int)) =~= after_last_comma(s@.take(i - 1)).push(
            s@[i - 1],
        ));
        i = i - 1;
    }
    proof {
        if i > 0 {
            assert(s@.take(i as int).last() == ',');
        } else {
            assert(s@.take(0) =~= Seq::<char>::empty());
        }
    }
    crate::text::slice_chars(s, i, n)
}

/// The client address of a request from its X-Real-IP and X-Forwarded-For
/// headers (each `None` when absent or not visible ASCII).
pub fn extract_client_ip(real_ip: Option<&str>, forwarded_for: Option<&str>) -> (ip: String)
    ensures
        ip@ == client_ip_of(
            match real_ip {
                Some(r) => Some(r@),
                None => None,
            },
            match forwarded_for {
                Some(f) => Some(f@),
                None => None,
            },
        ),
{
    match real_ip {
        Some(r) => {
            let c = chars_of(r);
            let t = trim(c.as_slice());
            string_from_chars(t.as_slice())
        },
        None => match forwarded_for {
            Some(f) => {
                let c = chars_of(f);
                let last = after_last_comma_exec(c.as_slice());
                let t = trim(last.as_slice());
                string_from_chars(t.as_slice())
            },
            None => {
                proof {
                    reveal_strlit("unknown");
                }
                owned("unknown")
            },
        },
    }
}

/// Paths open to users whose MFA enrollment is pending (trust on first
/// use): enrollment and logout, matched exactly.
pub const MFA_PENDING_ALLOWED_PATHS: [&'static str; 4] = [
    "/api/v1/auth/mfa/setup",
    "/api/v1/auth/mfa/setup/complete",
    "/api/v1/auth/mfa/verify",
    "/api/v1/auth/logout",
];

/// The path is one of the MFA enrollment paths.
pub open spec fn mfa_pending_path(p: Seq<char>) -> bool {
    ||| p == "/api/v1/auth/mfa/setup"@
    ||| p == "/api/v1/auth/mfa/setup/complete"@
    ||| p == "/api/v1/auth/mfa/verify"@
    ||| p == "/api/v1/auth/logout"@
}

/// The account's MFA enrollment is pending: its metadata maps "mfa_pending"
/// to "true".
pub open spec fn mfa_pending(u: UserAccount) -> bool {
    meta_lookup(u.metadata@, "mfa_pending"@) == Some("true"@)
}

/// Refuses (403) every path but enrollment and logout to a user whose MFA
/// enrollment is pending; others pass.
pub fn enforce_mfa_pending(user: &UserAccount, path: &str) -> (r: Result<(), HttpStatus>)
    ensures
        (mfa_pending(*user) && !mfa_pending_path(path@)) ==> r == Err::<(), HttpStatus>(
            HttpStatus::Forbidden,
        ),
        !(mfa_pending(*user) && !mfa_pending_path(path@)) ==> r is Ok,
{
    let pending = match crate::admin::meta_get(&user.metadata, "mfa_pending") {
        Some(v) => str_is(v.as_str(), "true"),
        None => false,
    };
    if pending {
        let allowed = str_is(path, MFA_PENDING_ALLOWED_PATHS[0]) || str_is(
            path,
            MFA_PENDING_ALLOWED_PATHS[1],
        ) || str_is(path, MFA_PENDING_ALLOWED_PATHS[2]) || str_is(
            path,
            MFA_PENDING_ALLOWED_PATHS[3],
        );
        if !allowed {
            return Err(HttpStatus::Forbidden);
        }
    }
    Ok(())
}

/// Paths that need no token: root, health and version, login, refresh,
/// verification, OAuth, and the seal endpoints.
pub open spec fn auth_exempt_path(p: Seq<char>) -> bool {
    ||| p == "/"@
    ||| p == "/health"@
    ||| p == "/version"@
    ||| p == "/login"@
    ||| p == "/api/v1/health"@
    ||| p == "/api/v1/version"@
    ||| p == "/api/v1/sys/health"@
    ||| p == "/api/v1/auth/login"@
    ||| p == "/api/v1/auth/refresh"@
    ||| p == "/api/v1/auth/verify"@
    ||| seq_starts_with(p, "/api/v1/auth/oauth/"@)
    ||| p == "/api/v1/auth/oauth"@
    ||| p == "/api/v1/sys/init"@
    ||| p == "/api/v1/sys/unseal"@
    ||| p == "/api/v1/sys/seal-status"@
}

/// Whether a path needs no token.
pub fn is_auth_exempt(path: &str) -> (b: bool)
    ensures
        b == auth_exempt_path(path@),
{
    let c = chars_of(path);
    let oauth = chars_of("/api/v1/auth/oauth/");
    str_is(path, "/") || str_is(path, "/health") || str_is(path, "/version") || str_is(
        path,
        "/login",
    ) || str_is(path, "/api/v1/health") || str_is(path, "/api/v1/version") || str_is(
        path,
        "/api/v1/sys/health",
    ) || str_is(path, "/api/v1/auth/login") || str_is(path, "/api/v1/auth/refresh") || str_is(
        path,
        "/api/v1/auth/verify",
    ) || crate::text::starts_with(c.as_slice(), oauth.as_slice()) || str_is(
        path,
        "/api/v1/auth/oauth",
    ) || str_is(path, "/api/v1/sys/init") || str_is(path, "/api/v1/sys/unseal") || str_is(
        path,
        "/api/v1/sys/seal-status",
    )
}

/// Paths served while the vault is sealed.
pub open spec fn sealed_open_path(p: Seq<char>) -> bool {
    ||| p == "/api/v1/sys/init"@
    ||| p == "/api/v1/sys/unseal"@
    ||| p == "/api/v1/sys/seal-status"@
    ||| p == "/api/v1/sys/health"@
    ||| p == "/health"@
    ||| p == "/api/v1/health"@
}

/// Whether a path is served while the vault is sealed.
pub fn is_open_while_sealed(path: &str) -> (b: bool)
    ensures
        b == sealed_open_path(path@),
{
    str_is(path, "/api/v1/sys/init") || str_is(path, "/api/v1/sys/unseal") || str_is(
        path,
        "/api/v1/sys/seal-status",
    ) || str_is(path, "/api/v1/sys/health") || str_is(path, "/health") || str_is(
        path,
        "/api/v1/health",
    )
}

/// The answer owed to a request while the vault is sealed: open paths
/// pass, others get 503.
pub fn seal_gate(path: &str, sealed: bool) -> (r: Result<(), HttpStatus>)
    ensures
        (sealed && !sealed_open_path(path@)) ==> r == Err::<(), HttpStatus>(
            HttpStatus::ServiceUnavailable,
        ),
        !(sealed && !sealed_open_path(path@)) ==> r is Ok,
{
    if !is_open_while_sealed(path) && sealed {
        return Err(HttpStatus::ServiceUnavailable);
    }
    Ok(())
}

/// Health and version paths, which skip token and certificate checks.
pub open spec fn health_path(p: Seq<char>) -> bool {
    p == "/health"@ || p == "/version"@ || seq_starts_with(p, "/health"@)
}

/// Whether a path is a health or version path.
pub fn is_health_path(path: &str) -> (b: bool)
    ensures
        b == health_path(path@),
{
    let c = chars_of(path);
    let h = chars_of("/health");
    str_is(path, "/health") || str_is(path, "/version") || crate::text::starts_with(
        c.as_slice(),
        h.as_slice(),
    )
}

/// The value of a decimal text as `str::parse::<usize>` reads it: an
/// optional '+', then at least one digit, within `usize`.
pub open spec fn parsed_usize(s: Seq<char>) -> Option<usize> {
    let d = if s.len() > 0 && s[0] == '+' {
        s.subrange(1, s.len() as int)
    } else {
        s
    };
    if d.len() > 0 && crate::text::all_digits(d) && crate::totp::digits_value(d) <= usize::MAX {
        Some(crate::totp::digits_value(d) as usize)
    } else {
        None
    }
}

/// Parses a decimal size as `str::parse::<usize>` does.
pub fn parse_usize(s: &str) -> (r: Option<usize>)
    ensures
        r == parsed_usize(s@),
{
    let c = chars_of(s);
    let start: usize = if c.len() > 0 && c[0] == '+' {
        1
    } else {
        0
    };
    let n = c.len();
    let ghost d = c@.subrange(start as int, n as int);
    proof {
        if c@.len() > 0 && c@[0] == '+' {
            assert(d =~= c@.subrange(1, c@.len() as int));
        } else {
            assert(d =~= c@);
        }
    }
    if start == n {
        return None;
    }
    let mut v: usize = 0;
    let mut i = start;
    while i < n
        invariant
            start <= i <= n == c@.len(),
            start < n,
            c@ == s@,
            d == c@.subrange(start as int, n as int),
            d == (if s@.len() > 0 && s@[0] == '+' {
                s@.subrange(1, s@.len() as int)
            } else {
                s@
            }),
            crate::text::all_digits(c@.subrange(start as int, i as int)),
            v == crate::totp::digits_value(c@.subrange(start as int, i as int)),
        decreases n - i,
    {
        let ch = c[i];
        assert(c@.subrange(start as int, i + 1).drop_last() =~= c@.subrange(start as int, i as int));
        if !('0' <= ch && ch <= '9') {
            assert(!crate::text::all_digits(d)) by {
                assert(d[i - start] == ch);
            }
            return None;
        }
        let dig = (ch as u32 - 48) as usize;
        if v > (usize::MAX - dig) / 10 {
            proof {
                if crate::text::all_digits(d) {
                    lemma_digits_value_grows(d, (i - start) as int);
                    assert(d.take((i - start) + 1) =~= c@.subrange(start as int, i + 1));
                    assert(crate::totp::digits_value(c@.subrange(start as int, i + 1)) == v * 10
                        + dig);
                    assert(v * 10 + dig > usize::MAX) by (nonlinear_arith)
                        requires
                            v > (usize::MAX - dig) / 10,
                            dig <= 9,
                    ;
                }
            }
            return None;
        }
        assert(v * 10 + dig <= usize::MAX) by (nonlinear_arith)
            requires
                v <= (usize::MAX - dig) / 10,
                dig <= 9,
        ;
        v = v * 10 + dig;
        assert(crate::text::all_digits(c@.subrange(start as int, i + 1)));
        i = i + 1;
    }
    Some(v)
}

proof fn lemma_digits_value_grows(d: Seq<char>, k: int)
    requires
        0 <= k < d.len(),
        crate::text::all_digits(d),
    ensures
        crate::totp::digits_value(d) >= crate::totp::digits_value(d.take(k + 1)),
    decreases d.len(),
{
    if k + 1 < d.len() {
        lemma_digits_value_grows(d.drop_last(), k);
        assert(d.drop_last().take(k + 1) =~= d.take(k + 1));
        assert(crate::totp::digits_value(d) >= crate::totp::digits_value(d.drop_last())) by {
            assert(crate::text::is_digit(d.last()));
        }
    } else {
        assert(d.take(k + 1) =~= d);
    }
}

/// The refusal owed to a request by its Content-Length header: a readable
/// length over 1 MiB is refused with status 413, the limit and the length.
pub fn check_request_size(content_length: Option<&str>) -> (r: Result<(), (u16, usize, usize)>)
    ensures
        match content_length {
            Some(t) => match parsed_usize(t@) {
                Some(n) => if n > MAX_REQUEST_SIZE {
                    r == Err::<(), (u16, usize, usize)>(
                        (413u16, MAX_REQUEST_SIZE, n),
                    )
                } else {
                    r is Ok
                },
                None => r is Ok,
            },
            None => r is Ok,
        },
{
    match content_length {
        Some(t) => match parse_usize(t) {
            Some(n) => if n > MAX_REQUEST_SIZE {
                Err((413u16, MAX_REQUEST_SIZE, n))
            } else {
                Ok(())
            },
            None => Ok(()),
        },
        None => Ok(()),
    }
}

/// Paths whose requests the audit trail records: key and encryption
/// operations.
pub open spec fn audited_path(p: Seq<char>) -> bool {
    seq_contains(p, "/keys"@) || seq_contains(p, "/encrypt"@) || seq_contains(p, "/decrypt"@)
}

/// Whether requests to a path are recorded in the audit trail.
pub fn is_audited_path(path: &str) -> (b: bool)
    ensures
        b == audited_path(path@),
{
    let c = chars_of(path);
    let k = chars_of("/keys");
    let e = chars_of("/encrypt");
    let d = chars_of("/decrypt");
    crate::text::contains(c.as_slice(), k.as_slice()) || crate::text::contains(
        c.as_slice(),
        e.as_slice(),
    ) || crate::text::contains(c.as_slice(), d.as_slice())
}

/// The user part of an audit line: "user:{id} email:{email}" with
/// "anonymous" and "unknown" for missing values, or "user:anonymous"
/// without a request context.
pub open spec fn audit_user_text(context: Option<(Option<Seq<char>>, Option<Seq<char>>)>) -> Seq<
    char,
> {
    match context {
        Some((id, email)) => "user:"@ + match id {
            Some(i) => i,
            None => "anonymous"@,
        } + " email:"@ + match email {
            Some(e) => e,
            None => "unknown"@,
        },
        None => "user:anonymous"@,
    }
}

/// The user part of an audit line from the request context's user id and
/// e-mail (`None` without a context).
pub fn audit_user_info(context: Option<(Option<&str>, Option<&str>)>) -> (s: String)
    ensures
        s@ == audit_user_text(
            match context {
                Some((i, e)) => Some(
                    (
                        match i {
                            Some(x) => Some(x@),
                            None => None,
                        },
                        match e {
                            Some(x) => Some(x@),
                            None => None,
                        },
                    ),
                ),
                None => None,
            },
        ),
{
    match context {
        Some((id, email)) => {
            let mut v = chars_of("user:");
            match id {
                Some(i) => push_str(&mut v, i),
                None => push_str(&mut v, "anonymous"),
            }
            push_str(&mut v, " email:");
            match email {
                Some(e) => push_str(&mut v, e),
                None => push_str(&mut v, "unknown"),
            }
            string_from_chars(v.as_slice())
        },
        None => owned("user:anonymous"),
    }
}

/// The security headers added to every response.
pub open spec fn security_header_pairs() -> Seq<(Seq<char>, Seq<char>)> {
    seq![
        ("X-Content-Type-Options"@, "nosniff"@),
        ("X-Frame-Options"@, "DENY"@),
        ("X-XSS-Protection"@, "1; mode=block"@),
        ("Strict-Transport-Security"@, "max-age=31536000; includeSubDomains"@),
        ("Referrer-Policy"@, "strict-origin-when-cross-origin"@),
        (
            "Content-Security-Policy"@,
            "default-src 'self'; script-src 'self'; style-src 'self' 'unsafe-inline'"@,
        ),
    ]
}

/// The security headers added to every response, in order.
pub fn security_headers() -> (h: Vec<(String, String)>)
    ensures
        crate::admin::pair_texts(h@) == security_header_pairs(),
{
    let mut h: Vec<(String, String)> = Vec::new();
    h.push((owned("X-Content-Type-Options"), owned("nosniff")));
    h.push((owned("X-Frame-Options"), owned("DENY")));
    h.push((owned("X-XSS-Protection"), owned("1; mode=block")));
    h.push((owned("Strict-Transport-Security"), owned("max-age=31536000; includeSubDomains")));
    h.push((owned("Referrer-Policy"), owned("strict-origin-when-cross-origin")));
    h.push(
        (
            owned("Content-Security-Policy"),
            owned("default-src 'self'; script-src 'self'; style-src 'self' 'unsafe-inline'"),
        ),
    );
    assert(crate::admin::pair_texts(h@) =~= security_header_pairs());
    h
}


/// The outcome of a client certificate check.
#[derive(Debug, Clone)]
pub struct CertificateValidation {
    pub valid: bool,
    pub subject: Option<String>,
    pub issuer: Option<String>,
    pub serial_number: Option<String>,
    pub not_before: Option<String>,
    pub not_after: Option<String>,
}

fn copy_opt(o: &Option<String>) -> (r: Option<String>)
    ensures
        r == *o,
{
    match o {
        Some(s) => Some(s.clone()),
        None => None,
    }
}

impl CertificateValidation {
    /// A copy of the outcome.
    pub fn duplicate(&self) -> (r: Self)
        ensures
            r == *self,
    {
        CertificateValidation {
            valid: self.valid,
            subject: copy_opt(&self.subject),
            issuer: copy_opt(&self.issuer),
            serial_number: copy_opt(&self.serial_number),
            not_before: copy_opt(&self.not_before),
            not_after: copy_opt(&self.not_after),
        }
    }
}

/// What the check reads of a certificate: subject and issuer as
/// x509-parser renders them, the raw serial number, and the validity
/// period in Unix seconds.
pub struct CertificateFields {
    pub subject: String,
    pub issuer: String,
    pub serial: Vec<u8>,
    pub not_before: i64,
    pub not_after: i64,
}

/// The fields x509-parser reads from a DER certificate, if it parses.
pub uninterp spec fn x509_fields(der: Seq<u8>) -> Option<
    (Seq<char>, Seq<char>, Seq<u8>, i64, i64),
>;

/// The view of certificate fields.
pub open spec fn fields_view(f: CertificateFields) -> (Seq<char>, Seq<char>, Seq<u8>, i64, i64) {
    (f.subject@, f.issuer@, f.serial@, f.not_before, f.not_after)
}

/// Parses a DER certificate.
///
/// Trusted: calls `X509Certificate::from_der` of x509-parser and reads
/// `subject().to_string()`, `issuer().to_string()`, `raw_serial()` and the
/// Unix times of `validity().not_before` and `not_after`; the result is
/// named by `x509_fields`.  Those times come from the `time` crate without
/// its large-dates feature, so they lie in the years -9999 to 9999.
#[verifier::external_body]
fn parse_certificate(der: &[u8]) -> (r: Option<CertificateFields>)
    ensures
        match r {
            Some(f) => x509_fields(der@) == Some(fields_view(f)) && -377_705_116_800 <= f.not_before
                <= 253_402_300_799 && -377_705_116_800 <= f.not_after <= 253_402_300_799,
            None => x509_fields(der@) is None,
        },
{
    match x509_parser::certificate::X509Certificate::from_der(der) {
        Ok((_, cert)) => Some(
            CertificateFields {
                subject: cert.subject().to_string(),
                issuer: cert.issuer().to_string(),
                serial: cert.raw_serial().to_vec(),
                not_before: cert.validity().not_before.to_datetime().unix_timestamp(),
                not_after: cert.validity().not_after.to_datetime().unix_timestamp(),
            },
        ),
        Err(_) => None,
    }
}

/// The subject is admitted: no list, or it contains a listed text.
pub open spec fn subject_admitted(subject: Seq<char>, allowed: Seq<Seq<char>>) -> bool {
    allowed.len() == 0 || exists|i: int| 0 <= i < allowed.len() && seq_contains(subject, #[trigger] allowed[i])
}

/// The certificate is valid at `now` (seconds, nanoseconds): its period has
/// begun, not ended, is not empty, and its subject is admitted.
pub open spec fn certificate_valid(
    f: (Seq<char>, Seq<char>, Seq<u8>, i64, i64),
    allowed: Seq<Seq<char>>,
    now: (i64, u32),
) -> bool {
    &&& !(now.0 < f.3)
    &&& !(now.0 > f.4 || (now.0 == f.4 && now.1 > 0))
    &&& f.3 < f.4
    &&& subject_admitted(f.0, allowed)
}

/// The check's outcome for parsed fields `f`.
pub open spec fn validation_for(
    v: CertificateValidation,
    f: (Seq<char>, Seq<char>, Seq<u8>, i64, i64),
    allowed: Seq<Seq<char>>,
    now: (i64, u32),
) -> bool {
    &&& v.valid == certificate_valid(f, allowed, now)
    &&& v.subject matches Some(s) && s@ == f.0
    &&& v.issuer matches Some(s) && s@ == f.1
    &&& v.serial_number matches Some(s) && s@ == hex_of(f.2)
    &&& v.not_before matches Some(s) && s@ == utc_display(f.3, 0)
    &&& v.not_after matches Some(s) && s@ == utc_display(f.4, 0)
}

/// The check's outcome for a DER certificate: the parsed fields' outcome,
/// or an invalid outcome without details when it does not parse.
pub open spec fn validation_of_der(
    v: CertificateValidation,
    der: Seq<u8>,
    allowed: Seq<Seq<char>>,
    now: (i64, u32),
) -> bool {
    match x509_fields(der) {
        Some(f) => validation_for(v, f, allowed, now),
        None => !v.valid && v.subject is None && v.issuer is None && v.serial_number is None
            && v.not_before is None && v.not_after is None,
    }
}

fn admitted(subject: &String, allowed: &Vec<String>) -> (b: bool)
    ensures
        b == subject_admitted(subject@, views(allowed@)),
{
    let n = allowed.len();
    if n == 0 {
        return true;
    }
    let sc = chars_of_string(subject);
    for i in 0..n
        invariant
            n == allowed@.len(),
            sc@ == subject@,
            forall|k: int| 0 <= k < i ==> !seq_contains(subject@, #[trigger] views(allowed@)[k]),
    {
        let a = chars_of_string(&allowed[i]);
        if crate::text::contains(sc.as_slice(), a.as_slice()) {
            assert(seq_contains(subject@, views(allowed@)[i as int]));
            return true;
        }
    }
    false
}

/// Checks parsed certificate fields at time `now` (seconds and nanoseconds)
/// against the admitted subjects.
pub fn validate_certificate_fields(
    f: &CertificateFields,
    allowed: &Vec<String>,
    now: (i64, u32),
) -> (v: CertificateValidation)
    requires
        -377_705_116_800 <= f.not_before <= 253_402_300_799,
        -377_705_116_800 <= f.not_after <= 253_402_300_799,
    ensures
        validation_for(v, fields_view(*f), views(allowed@), now),
{
    let valid = if now.0 < f.not_before {
        false
    } else if now.0 > f.not_after || (now.0 == f.not_after && now.1 > 0) {
        false
    } else if f.not_after <= f.not_before {
        false
    } else {
        admitted(&f.subject, allowed)
    };
    CertificateValidation {
        valid,
        subject: Some(f.subject.clone()),
        issuer: Some(f.issuer.clone()),
        serial_number: Some(hex_encode(f.serial.as_slice())),
        not_before: Some(second_text(f.not_before)),
        not_after: Some(second_text(f.not_after)),
    }
}

/// A cached outcome and the (monotonic) time it expires.
#[derive(Debug, Clone)]
pub struct CachedValidation {
    pub validation: CertificateValidation,
    pub expires_at: u64,
}

#[verifier::external_type_specification]
#[verifier::external_body]
#[verifier::reject_recursive_types(K)]
#[verifier::reject_recursive_types(V)]
#[verifier::reject_recursive_types(S)]
pub struct ExLruCache<K, V, S>(lru::LruCache<K, V, S>);

#[verifier::external_type_specification]
#[verifier::external_body]
pub struct ExLruHasher(lru::DefaultHasher);

/// The entries of an LRU cache of validations, by key.
pub uninterp spec fn lru_entries(c: lru::LruCache<String, CachedValidation>) -> Map<
    Seq<char>,
    CachedValidation,
>;

/// The capacity an LRU cache of validations was made with.
pub uninterp spec fn lru_capacity(c: lru::LruCache<String, CachedValidation>) -> nat;

/// A new LRU cache.
///
/// Trusted: calls `lru::LruCache::new` with the capacity (non-zero); the
/// cache starts empty.
#[verifier::external_body]
fn lru_new(capacity: usize) -> (fresh: lru::LruCache<String, CachedValidation>)
    requires
        capacity > 0,
    ensures
        lru_entries(fresh).dom() == Set::<Seq<char>>::empty(),
        lru_capacity(fresh) == capacity,
{
    lru::LruCache::new(std::num::NonZeroUsize::new(capacity).unwrap())
}

/// Looks a key up in an LRU cache.
///
/// Trusted: calls `lru::LruCache::get`, which returns the stored value (here
/// cloned field by field) and only reorders the entries by recency.
#[verifier::external_body]
fn lru_get(c: &mut lru::LruCache<String, CachedValidation>, key: &str) -> (r: Option<
    CachedValidation,
>)
    ensures
        lru_entries(*final(c)) == lru_entries(*old(c)),
        lru_capacity(*final(c)) == lru_capacity(*old(c)),
        r == (if lru_entries(*old(c)).dom().contains(key@) {
            Some(lru_entries(*old(c))[key@])
        } else {
            None
        }),
{
    c.get(key).cloned()
}

/// Removes a key from an LRU cache.
///
/// Trusted: calls `lru::LruCache::pop`, which removes the key's entry if
/// present.
#[verifier::external_body]
fn lru_pop(c: &mut lru::LruCache<String, CachedValidation>, key: &str)
    ensures
        lru_entries(*final(c)) == lru_entries(*old(c)).remove(key@),
        lru_capacity(*final(c)) == lru_capacity(*old(c)),
{
    c.pop(key);
}

/// Stores a value in an LRU cache.
///
/// Trusted: calls `lru::LruCache::put`, which replaces the key's value, or
/// else adds it, first evicting the least recently used entry when the
/// cache is full; no other entry changes.
#[verifier::external_body]
fn lru_put(c: &mut lru::LruCache<String, CachedValidation>, key: String, v: CachedValidation)
    ensures
        lru_capacity(*final(c)) == lru_capacity(*old(c)),
        lru_entries(*final(c)).dom().contains(key@),
        lru_entries(*final(c))[key@] == v,
        forall|k: Seq<char>|
            k != key@ && #[trigger] lru_entries(*final(c)).dom().contains(k) ==> lru_entries(
                *old(c),
            ).dom().contains(k) && lru_entries(*final(c))[k] == lru_entries(*old(c))[k],
        lru_entries(*old(c)).dom().contains(key@) || lru_entries(*old(c)).dom().len()
            < lru_capacity(*old(c)) ==> forall|k: Seq<char>|
            #[trigger] lru_entries(*old(c)).dom().contains(k) ==> lru_entries(
                *final(c),
            ).dom().contains(k),
{
    c.put(key, v);
}

/// A cache of certificate check outcomes, least recently used first out,
/// each kept for a fixed time.
pub struct CertificateCache {
    pub cache: lru::LruCache<String, CachedValidation>,
    pub ttl_nanos: u64,
}

impl CertificateCache {
    /// The cached entries by key.
    pub open spec fn entries(&self) -> Map<Seq<char>, CachedValidation> {
        lru_entries(self.cache)
    }

    /// A cache of `capacity` outcomes, each kept for `ttl_seconds`.
    pub fn new(capacity: usize, ttl_seconds: u64) -> (c: Self)
        requires
            capacity > 0,
            ttl_seconds <= u64::MAX / 1_000_000_000,
        ensures
            c.entries().dom() == Set::<Seq<char>>::empty(),
            c.ttl_nanos == ttl_seconds * 1_000_000_000,
    {
        CertificateCache { cache: lru_new(capacity), ttl_nanos: ttl_seconds * 1_000_000_000 }
    }

    /// The cached outcome for a key at time `now`; an expired entry is
    /// dropped and not returned.
    pub fn get(&mut self, key: &str, now: u64) -> (r: Option<CertificateValidation>)
        ensures
            final(self).ttl_nanos == old(self).ttl_nanos,
            r == (if old(self).entries().dom().contains(key@) && now <= old(
                self,
            ).entries()[key@].expires_at {
                Some(old(self).entries()[key@].validation)
            } else {
                None
            }),
            final(self).entries() == if old(self).entries().dom().contains(key@) && now > old(
                self,
            ).entries()[key@].expires_at {
                old(self).entries().remove(key@)
            } else {
                old(self).entries()
            },
    {
        match lru_get(&mut self.cache, key) {
            Some(entry) => {
                if now > entry.expires_at {
                    lru_pop(&mut self.cache, key);
                    None
                } else {
                    Some(entry.validation)
                }
            },
            None => None,
        }
    }

    /// Caches an outcome at time `now`, kept for the cache's time to live.
    pub fn insert(&mut self, key: String, validation: CertificateValidation, now: u64)
        requires
            now <= u64::MAX - old(self).ttl_nanos,
        ensures
            final(self).ttl_nanos == old(self).ttl_nanos,
            final(self).entries().dom().contains(key@),
            final(self).entries()[key@] == (CachedValidation {
                validation,
                expires_at: (now + old(self).ttl_nanos) as u64,
            }),
    {
        let entry = CachedValidation { validation, expires_at: now + self.ttl_nanos };
        lru_put(&mut self.cache, key, entry);
    }
}

/// The cache holds an unexpired outcome for the key at time `mono`.
pub open spec fn cache_hit(c: CertificateCache, key: Seq<char>, mono: u64) -> bool {
    c.entries().dom().contains(key) && mono <= c.entries()[key].expires_at
}

/// The cache holds outcome `v` for the key, expiring at `expires_at`.
pub open spec fn cached_as(c: CertificateCache, key: Seq<char>, v: CertificateValidation, expires_at: u64) -> bool {
    c.entries().dom().contains(key) && c.entries()[key] == (CachedValidation { validation: v, expires_at })
}

/// Checks a client certificate at time `now` (seconds and nanoseconds of
/// the wall clock), consulting and filling the cache at monotonic time
/// `mono`: an unexpired cached outcome for the same DER bytes is returned
/// as it is.
pub fn validate_client_certificate(
    cache: &mut CertificateCache,
    der: &[u8],
    allowed: &Vec<String>,
    now: (i64, u32),
    mono: u64,
) -> (v: CertificateValidation)
    requires
        mono <= u64::MAX - old(cache).ttl_nanos,
    ensures
        final(cache).ttl_nanos == old(cache).ttl_nanos,
        cache_hit(*old(cache), hex_of(der@), mono) ==> v == old(cache).entries()[hex_of(
            der@,
        )].validation && final(cache).entries() == old(cache).entries(),
        !cache_hit(*old(cache), hex_of(der@), mono) ==> validation_of_der(v, der@, views(allowed@), now)
            && cached_as(*final(cache), hex_of(der@), v, (mono + old(cache).ttl_nanos) as u64),
{
    let key = hex_encode(der);
    match cache.get(key.as_str(), mono) {
        Some(v) => {
            return v;
        },
        None => {},
    }
    let v = match parse_certificate(der) {
        Some(f) => validate_certificate_fields(&f, allowed, now),
        None => CertificateValidation {
            valid: false,
            subject: None,
            issuer: None,
            serial_number: None,
            not_before: None,
            not_after: None,
        },
    };
    let result = v.duplicate();
    cache.insert(key, v, mono);
    result
}

/// The bearer token of an Authorization header: the text after "Bearer ";
/// a missing header or another scheme is answered 401.
pub fn bearer_token(authorization: Option<&str>) -> (r: Result<String, HttpStatus>)
    ensures
        match authorization {
            None => r == Err::<String, HttpStatus>(HttpStatus::Unauthorized),
            Some(h) => if seq_starts_with(h@, "Bearer "@) {
                r matches Ok(t) && t@ == h@.skip(7)
            } else {
                r == Err::<String, HttpStatus>(HttpStatus::Unauthorized)
            },
        },
{
    match authorization {
        None => Err(HttpStatus::Unauthorized),
        Some(h) => {
            proof {
                reveal_strlit("Bearer ");
            }
            match crate::text::strip_prefix(h, "Bearer ") {
                Some(t) => Ok(t),
                None => Err(HttpStatus::Unauthorized),
            }
        },
    }
}

/// The client certificate of a request: the DER bytes the TLS layer put on
/// the request, else the hexadecimal X-Client-Cert header decoded.
pub fn client_certificate(from_tls: Option<Vec<u8>>, header: Option<&str>) -> (r: Option<Vec<u8>>)
    ensures
        match from_tls {
            Some(d) => r == Some(d),
            None => match header {
                Some(h) => match hex_decoded(h@) {
                    Some(b) => r matches Some(v) && v@ == b,
                    None => r is None,
                },
                None => r is None,
            },
        },
{
    match from_tls {
        Some(d) => Some(d),
        None => match header {
            Some(h) => hex_decode(h),
            None => None,
        },
    }
}

/// Whether mutual TLS lets a request through: health paths and servers that
/// do not require client certificates always pass; otherwise the request
/// needs a certificate (its check outcome given here) that was found valid.
pub fn mtls_admits(path: &str, required: bool, certificate_valid: Option<bool>) -> (b: bool)
    ensures
        b == (health_path(path@) || !required || certificate_valid == Some(true)),
{
    if is_health_path(path) || !required {
        return true;
    }
    match certificate_valid {
        Some(v) => v,
        None => false,
    }
}

/// The headers of the answer to a CORS preflight (an OPTIONS request).
pub open spec fn preflight_header_pairs() -> Seq<(Seq<char>, Seq<char>)> {
    seq![
        ("Access-Control-Allow-Origin"@, "*"@),
        ("Access-Control-Allow-Methods"@, "GET, POST, PUT, DELETE, OPTIONS"@),
        ("Access-Control-Allow-Headers"@, "Content-Type, Authorization, X-Request-ID"@),
        ("Access-Control-Max-Age"@, "86400"@),
    ]
}

/// The headers of the answer to a CORS preflight, in order; the answer's
/// status is 200 and its body empty.
pub fn preflight_headers() -> (h: Vec<(String, String)>)
    ensures
        crate::admin::pair_texts(h@) == preflight_header_pairs(),
{
    let mut h: Vec<(String, String)> = Vec::new();
    h.push((owned("Access-Control-Allow-Origin"), owned("*")));
    h.push((owned("Access-Control-Allow-Methods"), owned("GET, POST, PUT, DELETE, OPTIONS")));
    h.push(
        (owned("Access-Control-Allow-Headers"), owned("Content-Type, Authorization, X-Request-ID")),
    );
    h.push((owned("Access-Control-Max-Age"), owned("86400")));
    assert(crate::admin::pair_texts(h@) =~= preflight_header_pairs());
    h
}

/// The token read from an Authorization header by the security API's own
/// routes, which are lenient: the text after "Bearer " when it has that
/// prefix, else the whole header.
pub open spec fn lenient_token(header: Seq<char>) -> Seq<char> {
    if seq_starts_with(header, "Bearer "@) {
        header.skip(7)
    } else {
        header
    }
}

/// The token of an Authorization header, read leniently.
pub fn route_token(header: &str) -> (t: String)
    ensures
        t@ == lenient_token(header@),
{
    proof {
        reveal_strlit("Bearer ");
    }
    match crate::text::strip_prefix(header, "Bearer ") {
        Some(t) => t,
        None => owned(header),
    }
}

/// The token of a configuration request: from the Authorization header
/// (read leniently) when present, else the X-Admin-Token header.
pub fn config_token(authorization: Option<&str>, admin_token: Option<&str>) -> (r: Option<String>)
    ensures
        match authorization {
            Some(h) => r matches Some(t) && t@ == lenient_token(h@),
            None => match admin_token {
                Some(a) => r matches Some(t) && t@ == a@,
                None => r is None,
            },
        },
{
    match authorization {
        Some(h) => Some(route_token(h)),
        None => match admin_token {
            Some(a) => Some(owned(a)),
            None => None,
        },
    }
}

} // verus!
