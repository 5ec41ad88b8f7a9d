//! Lark: a long connection of binary frames for what comes in, cards for what
//! goes out.
pub mod api;
pub mod frame;
pub mod plugin;
pub mod types;
pub mod wire;
pub mod ws_session;
