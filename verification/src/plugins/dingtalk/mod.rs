//! DingTalk: a stream for what comes in, cards and robot messages for what goes
//! out.
pub mod api;
pub mod plugin;
pub mod types;
