//! Registered integrations with outside secret providers: their records,
//! where they are stored and how a save writes them.

use vstd::prelude::*;
use crate::ids::random_uuid;
use crate::text::{concat_str, push_str, string_from_chars};

verus! {

/// Storage prefix of integration records.
pub const INTEGRATION_PREFIX: &'static str = "sys/integrations/";

/// The outside provider of an integration.
#[derive(Debug, Clone, Copy, PartialEq, Eq, Structural)]
pub enum IntegrationType {
    AwsSecretsManager,
    AzureKeyVault,
}

/// An integration's configuration record.
#[derive(Debug)]
pub struct IntegrationConfig {
    pub id: String,
    pub name: String,
    pub integration_type: IntegrationType,
    /// The provider's settings, as JSON text.
    pub config: String,
    pub enabled: bool,
    /// When it was created, in seconds since the Unix epoch.
    pub created_at: i64,
}

/// Storage path of an integration record.
pub fn integration_path(id: &str) -> (p: String)
    ensures
        p@ == "sys/integrations/"@ + id@,
{
    let v = concat_str("sys/integrations/", id);
    string_from_chars(v.as_slice())
}

/// How a save writes an integration record.
#[derive(Debug, Clone, Copy, PartialEq, Eq, Structural)]
pub enum EntryWrite {
    /// Replace the stored entry, keeping its id, at the next version.
    Update { id: u128, version: u64 },
    /// Store a new entry under a fresh id.
    Store { id: u128 },
}

/// How a save writes given the stored entry's id and version, if there is
/// one: an update at the next version, else a new entry under a fresh
/// random id.
pub fn save_plan(existing: Option<(u128, u64)>) -> (w: EntryWrite)
    requires
        existing matches Some((_, v)) ==> v < u64::MAX,
    ensures
        match existing {
            Some((id, v)) => w == EntryWrite::Update { id, version: (v + 1) as u64 },
            None => w is Store,
        },
{
    match existing {
        Some((id, v)) => EntryWrite::Update { id, version: v + 1 },
        None => EntryWrite::Store { id: random_uuid() },
    }
}

/// The failure of building a provider client for an integration that is not
/// registered.
pub fn integration_not_found(id: &str) -> (m: String)
    ensures
        m@ == "Integration "@ + id@ + " not found"@,
{
    let mut v = concat_str("Integration ", id);
    push_str(&mut v, " not found");
    string_from_chars(v.as_slice())
}

} // verus!
