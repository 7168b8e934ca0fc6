//! A real-time fan-out server core.
//!
//! Clients hold a persistent connection, subscribe to named channels, and
//! receive periodic channel-specific frames. One channel carries the most
//! recently ingested feed value, the other a locally produced timestamp.
//! This crate holds the verified state: the snapshot register, the channel
//! catalog, the connection registry and the per-connection actor step logic.
//! Transport and timers live outside, in the surrounding binary.

pub mod channel;
pub mod feed;
pub mod frame;
pub mod actor;
pub mod registry;
pub mod snapshot;
pub mod text;
