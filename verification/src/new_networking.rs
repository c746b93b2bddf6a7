//! The message queues and framing that the connection manager uses.
pub mod broadcast;
pub mod connection_events;
pub mod network_plugin;
pub mod serialization;
