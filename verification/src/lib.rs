//! Round-robin reverse proxy core: backend rotation, header translation,
//! message framing and failure mapping, with machine-checked contracts.

pub mod balancer;
pub mod bytes;
pub mod config;
pub mod endpoint;
pub mod forward;
pub mod headers;
pub mod log_level;
pub mod response;
pub mod rotation;
pub mod wire;

pub use crate::balancer::Balancer;
pub use crate::config::Config;
pub use crate::log_level::LogLevel;
