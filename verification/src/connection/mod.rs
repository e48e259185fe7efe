//! Connections of clients, and the handling of what they send.

pub mod departure;
pub mod handler;
pub mod laws;
pub mod manager;
pub mod messages;
pub mod redis_manager;
pub mod session;
