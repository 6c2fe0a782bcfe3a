//! Core of a power and utilisation monitor for Apple Silicon machines.
//!
//! The crate holds the parts that decide and compute: the assembler that cuts
//! the sampler's text stream into documents, the conversion of a decoded
//! document into a sample, the merge with the second per-core source, and the
//! bounded history of every charted quantity. All quantities are integers in a
//! fixed unit (Hz, parts per billion, milliwatts, bytes), so that every
//! function carries a contract and is verified against it.

pub mod buffer;
pub mod config;
pub mod decoded;
pub mod error;
pub mod history;
pub mod metric_key;
pub mod metrics;
pub mod monitor;
pub mod signal;
pub mod snapshot;
pub mod soc;
pub mod state;
pub mod text;
pub mod units;
pub mod vm_stat;
