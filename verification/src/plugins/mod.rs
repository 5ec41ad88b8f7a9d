//! The platforms, and what they share.
pub mod callback;
pub mod dedup;
pub mod dingtalk;
pub mod discord;
pub mod http;
pub mod lark;
pub mod lifecycle;
pub mod reconnect;
pub mod slack;
pub mod time;
pub mod token;
pub mod weixin;
