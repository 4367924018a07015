//! Rebinding of chat-bot webhooks to the public addresses of their tunnels.

pub mod binder;
pub mod config;
pub mod credentials;
pub mod discovery;
pub mod json;
pub mod orchestrator;
pub mod ports;
pub mod services;
pub mod text;
