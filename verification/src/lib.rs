//! Virtual-memory subsystem of a bare-metal AArch64 kernel.
//!
//! The crate builds and maintains a two-level translation table with 64 KiB
//! granule, converts between physical and virtual addresses, hands out
//! virtual windows for memory-mapped device registers, and keeps a ledger of
//! every installed mapping for diagnostics and deduplication.

pub mod bsp;
pub mod common;
pub mod exception;
pub mod memory;
