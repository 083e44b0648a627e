//! Core of a DDS/RTPS coordination engine: time and GUID primitives, the QoS
//! model with its compatibility relation, the per-topic sample cache, the
//! per-read sample metadata model, the discovery database, and the decision
//! logic of the discovery loop.
//!
//! Socket I/O, byte-level serialization and the selector loop live outside
//! this crate; every function here is pure state-and-value logic with a
//! verified contract.

pub mod cache_change;
pub mod datasample;
pub mod dds_cache;
pub mod discovery;
pub mod discovery_db;
pub mod error;
pub mod guid;
pub mod network;
pub mod qos;
pub mod time;
pub mod typedesc;
pub mod writer;

pub use guid::{EntityId, GuidPrefix, GUID};
pub use time::{Duration, Timestamp};
