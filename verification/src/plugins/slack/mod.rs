//! Slack: a socket for what comes in, a web interface for what goes out.
pub mod api;
pub mod plugin;
pub mod socket;
pub mod types;
