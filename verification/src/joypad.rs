//! An input device that is read one bit at a time.

use vstd::prelude::*;
use crate::device::Device;
use crate::memory::Window;

verus! {

/// Number of bits that a latched byte gives out before it is exhausted.
pub const LATCH_BITS: u8 = 8;

/// What an exhausted joypad answers to every further read.
pub const EXHAUSTED_BIT: u8 = 1;

/// An input latch that owns the single address `addr`. A write to the
/// address latches the byte written and rewinds the read cursor. Each read
/// gives out the next bit of the latched byte, lowest first, and a read
/// after the eighth gives 1.
#[derive(Debug, Clone, Copy, PartialEq, Eq, Structural)]
pub struct Joypad {
    pub addr: u16,
    pub latch: u8,
    pub cursor: u8,
}

/// The bit that a joypad with `latch` latched gives out when its cursor
/// stands at `cursor`.
pub open spec fn latched_bit(latch: u8, cursor: u8) -> u8 {
    if cursor < 8 {
        (latch >> cursor) & 1
    } else {
        1
    }
}

/// Where a cursor at `cursor` stands after one read.
pub open spec fn advanced(cursor: u8) -> u8 {
    if cursor < 8 {
        (cursor + 1) as u8
    } else {
        cursor
    }
}

/// What a joypad gives out is a single bit.
pub proof fn lemma_latched_bit_is_a_bit(latch: u8, cursor: u8)
    ensures
        latched_bit(latch, cursor) <= 1,
{
    assert(cursor < 8 ==> (latch >> cursor) & 1 <= 1) by (bit_vector);
}

impl Joypad {
    /// A joypad at `addr` with nothing latched and the cursor rewound.
    pub fn new(addr: u16) -> (pad: Joypad)
        ensures
            pad == (Joypad { addr, latch: 0, cursor: 0 }),
    {
        Joypad { addr, latch: 0, cursor: 0 }
    }
}

impl Device for Joypad {
    open spec fn range(&self) -> (usize, usize) {
        (self.addr as usize, (self.addr + 1) as usize)
    }

    /// Registration leaves the joypad and its mapped byte as they are.
    open spec fn on_map(&self, before: Seq<u8>, next: Self, after: Seq<u8>) -> bool {
        &&& after == before
        &&& next == *self
    }

    /// A read puts the next bit into the mapped byte and moves the cursor on.
    open spec fn on_pre_read(&self, before: Seq<u8>, next: Self, after: Seq<u8>) -> bool {
        &&& after == before.update(0, latched_bit(self.latch, self.cursor))
        &&& next == (Joypad { addr: self.addr, latch: self.latch, cursor: advanced(self.cursor) })
    }

    /// A write latches the mapped byte and rewinds the cursor.
    open spec fn on_post_write(&self, before: Seq<u8>, next: Self, after: Seq<u8>) -> bool {
        &&& after == before
        &&& next == (Joypad { addr: self.addr, latch: before[0], cursor: 0 })
    }

    fn mapping_def(&self) -> (r: (usize, usize)) {
        let start: usize = self.addr as usize;
        (start, start + 1)
    }

    fn map(&mut self, window: &mut Window) {
    }

    fn pre_read_hook(&mut self, window: &mut Window) {
        let bit: u8 = if self.cursor < LATCH_BITS {
            (self.latch >> self.cursor) & 1
        } else {
            EXHAUSTED_BIT
        };
        window.set(0, bit);
        if self.cursor < LATCH_BITS {
            self.cursor = self.cursor + 1;
        }
    }

    fn post_write_hook(&mut self, window: &mut Window) {
        self.latch = window.get(0);
        self.cursor = 0;
    }
}

} // verus!
