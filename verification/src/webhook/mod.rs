//! Webhooks: what is told to whom, and how it is delivered.

pub mod headers;
pub mod integration;
pub mod queue;
pub mod retry;
pub mod sender;
pub mod types;
