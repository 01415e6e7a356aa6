//! Session lifecycle and telemetry logic for a fleet of embedded Linux
//! devices managed over SSH.
//!
//! The crate holds the decisions: which sessions are registered, how
//! transport failures are classified, how counters read from a device become
//! a telemetry sample, and when a background stream runs. The embedding
//! program performs the network and storage work and hands the outcomes in
//! as plain values.

mod clock;
pub mod error;
pub mod executor;
pub mod idmap;
pub mod registry;
pub mod storage;
pub mod stream;
pub mod system;
pub mod telemetry;
pub mod text;
pub mod transport;
pub mod types;
