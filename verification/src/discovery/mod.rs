//! How workers announce themselves and are found on the local network.

pub mod endpoint;
pub mod host;
pub mod register;
pub mod browse;
pub mod laws;
