//! Channels and subscriptions.

pub mod manager;
pub mod types;
