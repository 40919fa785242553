//! Host status monitoring: an authentication guard in front of a status
//! aggregator that turns per-source readings into one complete snapshot.

pub mod errors;
pub mod text;
pub mod credentials;
pub mod auth;
pub mod status;
pub mod hardware;
pub mod services;
pub mod settings;
pub mod logging;
