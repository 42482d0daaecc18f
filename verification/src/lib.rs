//! Verified core of the Secreton API layer.

pub mod text;
pub mod models;
pub mod auth;
pub mod ids;
pub mod secrets;
pub mod digest;
pub mod keys;
pub mod laws;
pub mod audit;
pub mod admin;
pub mod seal;
pub mod totp;
pub mod access;
pub mod api;
pub mod monitoring;
pub mod pki;
pub mod database;
pub mod crypto;
pub mod lifecycle;
pub mod runtime;
pub mod server;
pub mod integrations;
pub mod mfa_config;
pub mod config;
