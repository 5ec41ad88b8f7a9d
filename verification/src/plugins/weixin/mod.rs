//! WeChat: long polling for what comes in, plain messages for what goes out, and
//! a login by QR code.
pub mod api;
pub mod contexts;
pub mod login;
pub mod plugin;
pub mod types;
