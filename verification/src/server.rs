//! The standalone server: its configuration and the decisions it makes
//! while starting (which storage it needs, which token secret the
//! authentication service gets).
//!
//! Connecting to the database, building the services and serving HTTP are
//! done by the application around this library.

use vstd::prelude::*;
use crate::text::{chars_of, owned, seq_starts_with, starts_with};

verus! {

/// The server configuration that the start-up reads.
#[derive(Debug)]
pub struct Config {
    pub database_url: String,
    pub host: String,
    pub port: u16,
    pub log_level: String,
    /// The token secret configured for authentication, if any.
    pub jwt_secret: Option<String>,
}

/// State shared across the routes.  The authentication service and the
/// telemetry collector that the routes also use are built from it by the
/// application.
#[derive(Debug)]
pub struct AppState {
    pub config: Config,
}

/// The server.
#[derive(Debug)]
pub struct Server {
    pub config: Config,
}

/// The storage start-up needs: a PostgreSQL URL.  Without one the server
/// cannot start, since authentication needs persistent storage.
pub open spec fn uses_postgres(database_url: Seq<char>) -> bool {
    seq_starts_with(database_url, "postgres"@)
}

/// The message with which start-up fails without storage.
pub open spec fn no_storage_text() -> Seq<char> {
    "Storage backend initialization failed"@
}

impl Server {
    /// A server with this configuration.
    pub fn new(config: Config) -> (s: Self)
        ensures
            s.config == config,
    {
        Server { config }
    }

    /// Whether start-up may go on to connect to PostgreSQL: only for a
    /// PostgreSQL URL; any other URL stops it with an error.
    pub fn storage_plan(&self) -> (r: Result<(), String>)
        ensures
            uses_postgres(self.config.database_url@) <==> r is Ok,
            r matches Err(m) ==> m@ == no_storage_text(),
    {
        let u = chars_of(self.config.database_url.as_str());
        let p = chars_of("postgres");
        if starts_with(u.as_slice(), p.as_slice()) {
            Ok(())
        } else {
            Err(owned("Storage backend initialization failed"))
        }
    }

    /// The token secret that overrides the default authentication
    /// configuration: the configured one, if any.
    pub fn auth_jwt_secret(&self) -> (s: Option<String>)
        ensures
            s == self.config.jwt_secret,
    {
        self.config.jwt_secret.clone()
    }

    /// The shared state of the routes.
    pub fn into_state(self) -> (st: AppState)
        ensures
            st.config == self.config,
    {
        AppState { config: self.config }
    }
}

} // verus!
