//! Verified core of a peer-to-peer MCP tool tunnel: configuration model and
//! validation, identity paths, tool-name routing and peer admission.

pub mod text;
pub mod names;
pub mod errors;
pub mod paths;
pub mod keys;
pub mod config;
pub mod validation;
pub mod protocol;
pub mod messages;
pub mod laws;
