//! Secret lifecycle: which expired entries the periodic sweep may delete,
//! what it records when it does, and when the worker runs.
//!
//! Paths under reserved prefixes (system state, keys, sessions, users and
//! the like) are never swept, whatever their expiry.

use vstd::prelude::*;
use crate::audit::SecurityEventType;
use crate::secrets::{history_prefix, make_history_prefix};
use crate::text::{chars_of, concat_str, owned, seq_starts_with, starts_with, string_from_chars};

verus! {

/// The actor recorded in the audit trail for deletions by the sweep.
pub const LIFECYCLE_AUDIT_ACTOR: &'static str = "system:lifecycle";

/// Most entries read by one sweep.
pub const SWEEP_MAX_ENTRIES: u32 = 10000;

/// How often the worker processes lifecycle events, in seconds.
pub const LIFECYCLE_PERIOD_SECONDS: u64 = 3600;

/// Storage prefix of lifecycle hooks.
pub const HOOK_PREFIX: &'static str = "sys/lifecycle/hooks/";

/// The number of reserved path prefixes.
pub const RESERVED_PREFIX_COUNT: usize = 13;

/// The reserved path prefixes, by position.
pub open spec fn reserved_prefix(i: int) -> Seq<char> {
    if i == 0 {
        "sys/"@
    } else if i == 1 {
        "keys/"@
    } else if i == 2 {
        "key_data/"@
    } else if i == 3 {
        "sessions/"@
    } else if i == 4 {
        "users/"@
    } else if i == 5 {
        "db/"@
    } else if i == 6 {
        "totp/"@
    } else if i == 7 {
        "pki/"@
    } else if i == 8 {
        "auth/"@
    } else if i == 9 {
        "mfa/"@
    } else if i == 10 {
        "policies/"@
    } else if i == 11 {
        "backups/"@
    } else {
        "config/"@
    }
}

/// The path lies under a reserved prefix.
pub open spec fn is_reserved(p: Seq<char>) -> bool {
    exists|i: int| 0 <= i < RESERVED_PREFIX_COUNT && seq_starts_with(p, #[trigger] reserved_prefix(i))
}

fn reserved_prefix_at(i: usize) -> (p: &'static str)
    requires
        i < RESERVED_PREFIX_COUNT,
    ensures
        p@ == reserved_prefix(i as int),
{
    if i == 0 {
        "sys/"
    } else if i == 1 {
        "keys/"
    } else if i == 2 {
        "key_data/"
    } else if i == 3 {
        "sessions/"
    } else if i == 4 {
        "users/"
    } else if i == 5 {
        "db/"
    } else if i == 6 {
        "totp/"
    } else if i == 7 {
        "pki/"
    } else if i == 8 {
        "auth/"
    } else if i == 9 {
        "mfa/"
    } else if i == 10 {
        "policies/"
    } else if i == 11 {
        "backups/"
    } else {
        "config/"
    }
}

/// Whether a path lies under a reserved prefix.
pub fn is_reserved_path(path: &str) -> (b: bool)
    ensures
        b == is_reserved(path@),
{
    let p = chars_of(path);
    let mut i: usize = 0;
    while i < RESERVED_PREFIX_COUNT
        invariant
            p@ == path@,
            i <= RESERVED_PREFIX_COUNT,
            forall|j: int| 0 <= j < i ==> !seq_starts_with(path@, #[trigger] reserved_prefix(j)),
        decreases RESERVED_PREFIX_COUNT - i,
    {
        let pre = chars_of(reserved_prefix_at(i));
        if starts_with(p.as_slice(), pre.as_slice()) {
            return true;
        }
        i = i + 1;
    }
    false
}

/// The sweep deletes an entry only when it is expired and not reserved.
pub open spec fn sweepable(path: Seq<char>, expired: bool) -> bool {
    expired && !is_reserved(path)
}

/// Whether the sweep goes on to re-read (and then delete) an entry it
/// listed.
pub fn sweep_candidate(path: &str, expired: bool) -> (b: bool)
    ensures
        b == sweepable(path@, expired),
{
    expired && !is_reserved_path(path)
}

/// The paths the sweep goes on with, in listing order: those of the listed
/// entries (path, expired) that are sweepable.
pub open spec fn swept_paths(entries: Seq<(Seq<char>, bool)>) -> Seq<Seq<char>>
    decreases entries.len(),
{
    if entries.len() == 0 {
        Seq::empty()
    } else {
        let rest = swept_paths(entries.drop_last());
        if sweepable(entries.last().0, entries.last().1) {
            rest.push(entries.last().0)
        } else {
            rest
        }
    }
}

/// The listing as the sweep sees it: each entry's path and expiry.
pub open spec fn listing_view(entries: Seq<(String, bool)>) -> Seq<(Seq<char>, bool)> {
    entries.map_values(|e: (String, bool)| (e.0@, e.1))
}

/// Every path that the sweep goes on with was listed expired and lies
/// under no reserved prefix.
pub proof fn lemma_swept_paths(entries: Seq<(Seq<char>, bool)>)
    ensures
        forall|i: int|
            0 <= i < swept_paths(entries).len() ==> !is_reserved(#[trigger] swept_paths(entries)[i])
                && exists|j: int| 0 <= j < entries.len() && entries[j] == (swept_paths(entries)[i], true),
    decreases entries.len(),
{
    if entries.len() > 0 {
        lemma_swept_paths(entries.drop_last());
        let rest = swept_paths(entries.drop_last());
        assert forall|i: int| 0 <= i < swept_paths(entries).len() implies !is_reserved(
            #[trigger] swept_paths(entries)[i],
        ) && exists|j: int| 0 <= j < entries.len() && entries[j] == (swept_paths(entries)[i], true)
        by {
            if i < rest.len() {
                let j = choose|j: int|
                    0 <= j < entries.drop_last().len() && entries.drop_last()[j] == (rest[i], true);
                assert(entries[j] == entries.drop_last()[j]);
            } else {
                assert(entries[entries.len() - 1] == entries.last());
            }
        }
    }
}

/// The paths of the listed entries that the sweep goes on with, in order.
pub fn sweep_candidates(entries: &Vec<(String, bool)>) -> (r: Vec<String>)
    ensures
        r@.map_values(|s: String| s@) == swept_paths(listing_view(entries@)),
{
    let mut r: Vec<String> = Vec::new();
    let n = entries.len();
    for i in 0..n
        invariant
            n == entries@.len(),
            r@.map_values(|s: String| s@) == swept_paths(listing_view(entries@).take(i as int)),
    {
        let ghost lv = listing_view(entries@);
        assert(lv.take(i + 1).drop_last() =~= lv.take(i as int));
        assert(lv.take(i + 1).last() == (entries@[i as int].0@, entries@[i as int].1));
        let (p, expired) = (&entries[i].0, entries[i].1);
        if sweep_candidate(p.as_str(), expired) {
            let ghost before = r@;
            r.push(p.clone());
            assert(r@.map_values(|s: String| s@) =~= before.map_values(|s: String| s@).push(p@));
        }
    }
    assert(listing_view(entries@).take(n as int) =~= listing_view(entries@));
    r
}

/// The audit event of a deletion by the sweep.
pub fn sweep_deletion_event(path: String) -> (e: SecurityEventType)
    ensures
        e matches SecurityEventType::SecretDeletion { secret_path, user } && secret_path@ == path@
            && user@ == "system:lifecycle"@,
{
    SecurityEventType::SecretDeletion { secret_path: path, user: owned(LIFECYCLE_AUDIT_ACTOR) }
}

/// The prefix of the archived versions of a deleted path, which the sweep
/// deletes after it.
pub fn history_cleanup_prefix(path: &str) -> (p: String)
    ensures
        p@ == history_prefix(path@),
{
    let c = chars_of(path);
    let v = make_history_prefix(c.as_slice());
    string_from_chars(v.as_slice())
}

/// Storage path of a lifecycle hook.
pub fn hook_path(hook_id: &str) -> (p: String)
    ensures
        p@ == "sys/lifecycle/hooks/"@ + hook_id@,
{
    let v = concat_str("sys/lifecycle/hooks/", hook_id);
    string_from_chars(v.as_slice())
}

/// What one round of lifecycle processing does, as (sweep expired secrets,
/// clean up the manager's expirations): nothing when the service is
/// disabled; the sweep only when cleanup is enabled too.
pub fn lifecycle_steps(enabled: bool, cleanup_enabled: bool) -> (r: (bool, bool))
    ensures
        r.0 == (enabled && cleanup_enabled),
        r.1 == enabled,
{
    (enabled && cleanup_enabled, enabled)
}

/// Whether a worker is started: only for an enabled service that has none
/// running yet.
pub fn should_spawn_worker(enabled: bool, worker_running: bool) -> (b: bool)
    ensures
        b == (enabled && !worker_running),
{
    enabled && !worker_running
}

/// The failure of updating a hook that is not stored.
pub fn hook_not_found() -> (m: String)
    ensures
        m@ == "Hook not found"@,
{
    owned("Hook not found")
}

} // verus!
