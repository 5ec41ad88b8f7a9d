//! Discord: a gateway for what comes in, a web interface for what goes out.
pub mod api;
pub mod gateway;
pub mod op;
pub mod plugin;
pub mod types;
