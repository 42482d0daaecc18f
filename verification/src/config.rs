//! The stored API configuration: where it lives and what a load yields.

use vstd::prelude::*;
use crate::text::owned;

verus! {

/// Storage path of the API configuration.
pub const CONFIG_PATH: &'static str = "sys/config/main";

/// Saves and loads the API configuration in storage.
#[derive(Debug)]
pub struct ConfigService;

impl ConfigService {
    /// The configuration a load yields from what storage holds: the stored
    /// configuration when it was found and read, the defaults when none is
    /// stored, and a serialization error when the stored one cannot be read.
    pub fn load_outcome<C>(stored: Option<Result<C, String>>, defaults: C) -> (r: Result<C, String>)
        ensures
            match stored {
                None => r == Ok::<C, String>(defaults),
                Some(Ok(c)) => r == Ok::<C, String>(c),
                Some(Err(_)) => r matches Err(m) && m@
                    == "Failed to deserialize stored configuration"@,
            },
    {
        match stored {
            None => Ok(defaults),
            Some(Ok(c)) => Ok(c),
            Some(Err(_)) => Err(owned("Failed to deserialize stored configuration")),
        }
    }
}

} // verus!
