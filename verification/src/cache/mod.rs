//! Caches of texts that expire.

pub mod factory;
pub mod manager;
pub mod memory_cache_manager;
