//! Jobs as a queue in Redis holds them.

pub mod queue;
