//! The address space, and the window through which a device reaches the
//! bytes of its own range.

use vstd::prelude::*;
use crate::error::BusError;

verus! {

/// Number of bytes that a 16-bit address can reach.
pub const ADDRESS_SPACE_SIZE: usize = 65536;

/// `mem` with `data` copied over it from address `dest` on.
pub open spec fn loaded(mem: Seq<u8>, data: Seq<u8>, dest: int) -> Seq<u8> {
    Seq::new(
        mem.len(),
        |a: int|
            if dest <= a < dest + data.len() {
                data[a - dest]
            } else {
                mem[a]
            },
    )
}

/// The bytes that `memory` holds in the half-open range `r`.
pub open spec fn range_bytes(memory: Seq<u8>, r: (usize, usize)) -> Seq<u8> {
    memory.subrange(r.0 as int, r.1 as int)
}

/// The full range of a 16-bit address, one byte per address.
pub struct AddressSpace {
    bytes: Vec<u8>,
}

impl View for AddressSpace {
    type V = Seq<u8>;

    closed spec fn view(&self) -> Seq<u8> {
        self.bytes@
    }
}

impl AddressSpace {
    #[verifier::type_invariant]
    spec fn inv(&self) -> bool {
        self.bytes@.len() == 65536
    }

    /// An address space of zeroes.
    pub fn new() -> (space: AddressSpace)
        ensures
            space@.len() == 65536,
            forall|a: int| 0 <= a < 65536 ==> space@[a] == 0,
    {
        let mut bytes: Vec<u8> = Vec::with_capacity(ADDRESS_SPACE_SIZE);
        let mut n: usize = 0;
        while n < ADDRESS_SPACE_SIZE
            invariant
                n <= 65536,
                bytes@.len() == n,
                forall|a: int| 0 <= a < n ==> bytes@[a] == 0,
            decreases 65536 - n,
        {
            bytes.push(0);
            n += 1;
        }
        AddressSpace { bytes }
    }

    /// The byte at `addr`, with no mirroring and no device involved.
    pub fn get(&self, addr: u16) -> (byte: u8)
        ensures
            self@.len() == 65536,
            byte == self@[addr as int],
    {
        proof {
            use_type_invariant(self);
        }
        self.bytes[addr as usize]
    }

    /// Copies `data` into the address space from `dest` on, with no mirroring
    /// and no device involved. A load that would run past the last address is
    /// rejected and changes nothing.
    pub fn load(&mut self, data: &[u8], dest: u16) -> (res: Result<(), BusError>)
        ensures
            final(self)@.len() == 65536,
            dest + data@.len() <= 65536 ==> res == Ok::<(), BusError>(()) && final(self)@ == loaded(
                old(self)@,
                data@,
                dest as int,
            ),
            dest + data@.len() > 65536 ==> res == Err::<(), BusError>(BusError::LoadOutOfRange)
                && final(self)@ == old(self)@,
    {
        proof {
            use_type_invariant(&*self);
        }
        let start: usize = dest as usize;
        if data.len() > ADDRESS_SPACE_SIZE - start {
            return Err(BusError::LoadOutOfRange);
        }
        let mut n: usize = 0;
        while n < data.len()
            invariant
                n <= data@.len(),
                start == dest,
                start + data@.len() <= 65536,
                self.bytes@.len() == 65536,
                forall|a: int|
                    0 <= a < 65536 ==> self.bytes@[a] == if start <= a < start + n {
                        data@[a - start]
                    } else {
                        old(self)@[a]
                    },
            decreases data@.len() - n,
        {
            self.bytes[start + n] = data[n];
            n += 1;
        }
        assert(self.bytes@ =~= loaded(old(self)@, data@, dest as int));
        Ok(())
    }
}

/// A device's view of the address space: the bytes of the range that the bus
/// granted, addressed by their offset from the start of that range. It is the
/// one object through which memory is reached, so a device can touch no byte
/// outside its range.
pub struct Window {
    space: AddressSpace,
    start: usize,
    end: usize,
}

impl View for Window {
    type V = Seq<u8>;

    /// The bytes of the granted range.
    open spec fn view(&self) -> Seq<u8> {
        self.space().subrange(self.start(), self.end())
    }
}

impl Window {
    /// The whole address space behind the window.
    pub closed spec fn space(&self) -> Seq<u8> {
        self.space@
    }

    /// First address of the granted range.
    pub closed spec fn start(&self) -> int {
        self.start as int
    }

    /// The address after the last one of the granted range.
    pub closed spec fn end(&self) -> int {
        self.end as int
    }

    /// Whether `other` grants the same range as `self` and agrees with it on
    /// every byte outside that range.
    pub open spec fn same_frame(&self, other: Window) -> bool {
        &&& other.start() == self.start()
        &&& other.end() == self.end()
        &&& other.space().len() == self.space().len()
        &&& forall|a: int|
            0 <= a < 65536 && !(self.start() <= a < self.end()) ==> other.space()[a]
                == self.space()[a]
    }

    /// Whether the granted range lies inside an address space of full size.
    pub open spec fn in_bounds(&self) -> bool {
        &&& 0 <= self.start() <= self.end() <= 65536
        &&& self.space().len() == 65536
    }

    /// Number of bytes in the granted range.
    pub fn len(&self) -> (n: usize)
        requires
            self.in_bounds(),
        ensures
            n == self@.len(),
    {
        self.end - self.start
    }

    /// The byte at `offset` from the start of the granted range.
    pub fn get(&self, offset: usize) -> (byte: u8)
        requires
            self.in_bounds(),
            offset < self@.len(),
        ensures
            byte == self@[offset as int],
    {
        self.space.bytes[self.start + offset]
    }

    /// Stores `byte` at `offset` from the start of the granted range. No
    /// byte outside the range changes.
    pub fn set(&mut self, offset: usize, byte: u8)
        requires
            old(self).in_bounds(),
            offset < old(self)@.len(),
        ensures
            final(self)@ == old(self)@.update(offset as int, byte),
            old(self).same_frame(*final(self)),
            final(self).in_bounds(),
    {
        self.space.bytes[self.start + offset] = byte;
        assert(self@ =~= old(self)@.update(offset as int, byte));
    }

    /// A window over `space` that grants nothing yet.
    pub(crate) fn new(space: AddressSpace) -> (window: Window)
        ensures
            window.space() == space@,
            window.start() == 0,
            window.end() == 0,
            window.in_bounds(),
    {
        proof {
            use_type_invariant(&space);
        }
        Window { space, start: 0, end: 0 }
    }

    /// Grants the range `[start, end)`.
    pub(crate) fn grant(&mut self, start: usize, end: usize)
        requires
            old(self).in_bounds(),
            start <= end <= 65536,
        ensures
            final(self).space() == old(self).space(),
            final(self).start() == start,
            final(self).end() == end,
            final(self).in_bounds(),
    {
        self.start = start;
        self.end = end;
    }

    /// The byte at the address `addr`, granted or not.
    pub(crate) fn read(&self, addr: usize) -> (byte: u8)
        requires
            self.in_bounds(),
            addr < 65536,
        ensures
            byte == self.space()[addr as int],
    {
        self.space.bytes[addr]
    }

    /// Stores `byte` at the address `addr`, granted or not.
    pub(crate) fn write(&mut self, addr: usize, byte: u8)
        requires
            old(self).in_bounds(),
            addr < 65536,
        ensures
            final(self).space() == old(self).space().update(addr as int, byte),
            final(self).start() == old(self).start(),
            final(self).end() == old(self).end(),
            final(self).in_bounds(),
    {
        self.space.bytes[addr] = byte;
    }

    /// The address space behind the window.
    pub(crate) fn address_space(&self) -> (space: &AddressSpace)
        ensures
            space@ == self.space(),
    {
        &self.space
    }

    /// Bulk copy into the address space behind the window.
    pub(crate) fn load(&mut self, data: &[u8], dest: u16) -> (res: Result<(), BusError>)
        requires
            old(self).in_bounds(),
        ensures
            final(self).in_bounds(),
            final(self).start() == old(self).start(),
            final(self).end() == old(self).end(),
            dest + data@.len() <= 65536 ==> res == Ok::<(), BusError>(()) && final(self).space()
                == loaded(old(self).space(), data@, dest as int),
            dest + data@.len() > 65536 ==> res == Err::<(), BusError>(BusError::LoadOutOfRange)
                && final(self).space() == old(self).space(),
    {
        self.space.load(data, dest)
    }
}

} // verus!
