//! Batching, timed flushing and store-and-forward delivery of device telemetry.

pub mod bridge;
pub mod codec;
pub mod config;
pub mod delay;
pub mod error;
pub mod handler;
pub mod json;
pub mod metrics;
pub mod mqtt;
pub mod serializer;
pub mod stream;
