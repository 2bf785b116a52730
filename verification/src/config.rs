//! The configuration that the proxy is started with.

use vstd::prelude::*;
use crate::log_level::LogLevel;

verus! {

/// One backend: a display name and the base URL that requests are sent to.
#[derive(Debug, Clone, PartialEq, Eq)]
pub struct Server {
    pub name: String,
    pub url: String,
}

/// The proxy's settings. `algorithm` is carried but never consulted:
/// selection is always round-robin.
#[derive(Debug, Clone, PartialEq, Eq)]
pub struct Config {
    pub port: u16,
    pub log_level: LogLevel,
    pub algorithm: String,
    pub servers: Vec<Server>,
}

} // verus!
