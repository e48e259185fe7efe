//! Applications.

pub mod auth;
pub mod config;
pub mod manager;
pub mod memory_app_manager;
