//! A verified core for a Pusher-compatible WebSocket server.

pub mod adapter;
pub mod app;
pub mod cache;
pub mod channel;
pub mod connection;
pub mod error;
pub mod http_handler;
pub mod ids;
pub mod json;
pub mod model;
pub mod namespace;
pub mod options;
pub mod protocol;
pub mod queue;
pub mod server;
pub mod store;
pub mod table;
pub mod text;
pub mod token;
pub mod utils;
pub mod webhook;
pub mod websocket;
