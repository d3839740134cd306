//! An address-space bus for a 16-bit machine: address mirroring, a table of
//! memory-mapped devices, and byte accesses that run a device's hook in a
//! fixed order around the raw transfer.

pub mod bus;
pub mod device;
pub mod error;
pub mod joypad;
pub mod memory;
pub mod mirror;
pub mod table;
