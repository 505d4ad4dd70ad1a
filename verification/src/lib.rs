//! Verified core of the Modality ROS 2 tracing hook.
pub mod attr;
pub mod config;
pub mod events;
pub mod hooks;
pub mod interpret;
pub mod laws;
pub mod introspection;
pub mod processor;
pub mod registry;
pub mod scalar;
pub mod schema;
pub mod text;
