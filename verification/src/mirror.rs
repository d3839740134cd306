//! Address mirroring: several address windows alias a smaller physical
//! resource.

use vstd::prelude::*;

verus! {

/// Keeps the address lines that reach the 2 KiB of physical RAM.
pub const RAM_MIRRORING_MASK: u16 = 0x07FF;

/// Keeps the address lines that select one of the eight registers, and the
/// line that places the register block at `0x2000`.
pub const PPU_REGISTERS_MIRRORING_MASK: u16 = 0x2007;

/// Last address of the window over which the RAM repeats.
pub const RAM_WINDOW_LAST: u16 = 0x1FFF;

/// Last address of the window over which the register block repeats.
pub const REGISTERS_WINDOW_LAST: u16 = 0x3FFF;

/// The physical address that `addr` stands for: below `0x2000` the offset
/// into the 2 KiB of RAM, below `0x4000` one of the eight registers at
/// `0x2000`, and otherwise `addr` itself.
pub open spec fn mirror(addr: u16) -> u16 {
    if addr <= 0x1FFF {
        (addr % 0x0800) as u16
    } else if addr <= 0x3FFF {
        (0x2000 + addr % 8) as u16
    } else {
        addr
    }
}

/// Maps an address to the physical address it aliases, by masking the
/// address lines that the hardware ignores: RAM repeats every 2 KiB below
/// `0x2000`, the eight registers at `0x2000` repeat every 8 bytes below
/// `0x4000`, and every other address stands for itself.
pub fn mirror_address(addr: u16) -> (r: u16)
    ensures
        r == mirror(addr),
        addr <= 0x1FFF ==> r == addr & 0x07FF,
        0x2000 <= addr <= 0x3FFF ==> r == addr & 0x2007,
{
    proof {
        lemma_mirror_masks(addr);
    }
    if addr <= RAM_WINDOW_LAST {
        addr & RAM_MIRRORING_MASK
    } else if addr <= REGISTERS_WINDOW_LAST {
        addr & PPU_REGISTERS_MIRRORING_MASK
    } else {
        addr
    }
}

/// Mirroring written with the two masks.
pub proof fn lemma_mirror_masks(addr: u16)
    ensures
        addr <= 0x1FFF ==> mirror(addr) == addr & 0x07FF,
        0x2000 <= addr <= 0x3FFF ==> mirror(addr) == addr & 0x2007,
        addr > 0x3FFF ==> mirror(addr) == addr,
{
    assert(addr <= 0x1FFF ==> addr & 0x07FF == addr % 0x0800) by (bit_vector);
    assert(0x2000 <= addr <= 0x3FFF ==> addr & 0x2007 == 0x2000 + addr % 8) by (bit_vector);
}

/// Mirroring is idempotent: a mirrored address stands for itself.
pub proof fn lemma_mirror_idempotent(addr: u16)
    ensures
        mirror(mirror(addr)) == mirror(addr),
{
}

/// Every address of the RAM window stands for the same physical byte as its
/// low eleven bits do.
pub proof fn lemma_ram_mirror(addr: u16)
    requires
        addr <= 0x1FFF,
    ensures
        mirror(addr) == mirror(addr & 0x07FF),
        mirror(addr) == addr & 0x07FF,
        mirror(addr) <= 0x07FF,
{
    assert(addr <= 0x1FFF ==> addr & 0x07FF == addr % 0x0800) by (bit_vector);
}

/// Every address of the register window stands for the same physical byte as
/// the register of the first block that it selects.
pub proof fn lemma_registers_mirror(addr: u16)
    requires
        0x2000 <= addr <= 0x3FFF,
    ensures
        mirror(addr) == mirror(0x2000 | (addr & 0x2007)),
        mirror(addr) == 0x2000 | (addr & 0x2007),
        0x2000 <= mirror(addr) <= 0x2007,
{
    assert(0x2000 <= addr <= 0x3FFF ==> 0x2000 | (addr & 0x2007) == 0x2000 + addr % 8)
        by (bit_vector);
}

} // verus!
