//! Verified core of a multi-platform chat channel bridge.
pub mod action;
pub mod channel_settings;
pub mod error;
pub mod format_laws;
pub mod formatter;
pub mod json;
pub mod manager;
pub mod message_service;
pub mod orchestrator;
pub mod pairing;
pub mod plugins;
pub mod random;
pub mod text;
pub mod text_map;
pub mod types;
