//! The ways in which a request to the bus is turned down.

use vstd::prelude::*;

verus! {

/// Why the bus or the address space rejected a request. A rejected request
/// leaves all state as it was.
#[derive(Debug, Clone, Copy, PartialEq, Eq, Structural)]
pub enum BusError {
    /// A bulk load would run past the end of the address space.
    LoadOutOfRange,
    /// Devices were registered before: the mapping table is fixed.
    AlreadyMapped,
    /// A device declared a range that ends before it starts or that reaches
    /// past the end of the address space.
    InvalidRange,
    /// Two devices declared ranges that share an address.
    OverlappingRanges,
}

} // verus!
