//! How the servers of a cluster share their channels.

pub mod horizontal_adapter;
pub mod local_adapter;
pub mod redis_adapter;
