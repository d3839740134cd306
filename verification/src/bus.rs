//! The bus: every byte access of the processor goes through it.

use vstd::prelude::*;
use crate::device::Device;
use crate::error::BusError;
use crate::memory::{AddressSpace, Window};
use crate::mirror::mirror_address;
use crate::table::{find_first, range_is_valid, table_is_disjoint};

verus! {

/// The ranges that the devices `devices` declare, in their order.
pub open spec fn ranges_of<D: Device>(devices: Seq<D>) -> Seq<(usize, usize)> {
    Seq::new(devices.len(), |k: int| devices[k].range())
}

/// What a read of `addr` returns from the memory `memory` when no device is
/// involved.
pub open spec fn fetched(memory: Seq<u8>, addr: u16) -> u8 {
    memory[crate::mirror::mirror(addr) as int]
}

/// The memory `memory` after `data` was stored at `addr`, before any device
/// reacts.
pub open spec fn stored(memory: Seq<u8>, addr: u16, data: u8) -> Seq<u8> {
    memory.update(crate::mirror::mirror(addr) as int, data)
}

/// The address space, the devices mapped into it, and the table that says
/// which range of addresses belongs to which device.
pub struct Bus<D: Device> {
    window: Window,
    devices: Vec<D>,
    ranges: Vec<(usize, usize)>,
    mapped: bool,
}

impl<D: Device> Bus<D> {
    /// The bytes of the address space, by address.
    pub closed spec fn memory(&self) -> Seq<u8> {
        self.window.space()
    }

    /// The registered devices, in the order of their registration.
    pub closed spec fn devices(&self) -> Seq<D> {
        self.devices@
    }

    /// The mapping table: entry `k` is the range of device `k`.
    pub closed spec fn table(&self) -> Seq<(usize, usize)> {
        self.ranges@
    }

    /// Whether devices were registered.
    pub closed spec fn is_mapped(&self) -> bool {
        self.mapped
    }

    /// Whether the window that the bus hands to the devices lies inside the
    /// address space.
    pub closed spec fn window_in_bounds(&self) -> bool {
        self.window.in_bounds()
    }

    /// The invariant of the bus: the address space has its full size, the
    /// table holds for each device the range that the device declares, every
    /// range is valid, no two ranges share an address, and a bus that was
    /// never mapped has no device.
    pub open spec fn wf(&self) -> bool {
        &&& self.window_in_bounds()
        &&& self.memory().len() == 65536
        &&& self.table() == ranges_of(self.devices())
        &&& crate::table::all_valid(self.table())
        &&& crate::table::pairwise_disjoint(self.table())
        &&& !self.is_mapped() ==> self.devices().len() == 0
    }

    /// How a registration of devices with the ranges `ranges` ends on a bus
    /// that was or was not mapped before.
    pub open spec fn map_verdict(mapped: bool, ranges: Seq<(usize, usize)>) -> Result<
        (),
        BusError,
    > {
        if mapped {
            Err(BusError::AlreadyMapped)
        } else if !crate::table::all_valid(ranges) {
            Err(BusError::InvalidRange)
        } else if !crate::table::pairwise_disjoint(ranges) {
            Err(BusError::OverlappingRanges)
        } else {
            Ok(())
        }
    }

    /// Whether `next` is what a registration of `devices` makes of the
    /// unmapped bus `self`: the table holds their ranges, each device has
    /// been handed the bytes of its range and may have rewritten them, and
    /// no byte outside all ranges has changed.
    pub open spec fn registers(&self, devices: Seq<D>, next: Self) -> bool {
        &&& next.is_mapped()
        &&& next.table() == ranges_of(devices)
        &&& next.devices().len() == devices.len()
        &&& forall|k: int|
            0 <= k < devices.len() ==> (#[trigger] devices[k]).on_map(
                crate::memory::range_bytes(self.memory(), devices[k].range()),
                next.devices()[k],
                crate::memory::range_bytes(next.memory(), devices[k].range()),
            )
        &&& forall|a: int|
            0 <= a < 65536 && crate::table::no_hit(ranges_of(devices), a)
                ==> #[trigger] next.memory()[a] == self.memory()[a]
    }

    /// Whether `next` is what a read that hits device `k` makes of `self`:
    /// the device's hook has run on the bytes of its range, and nothing else
    /// has changed.
    pub open spec fn read_through(&self, k: int, next: Self) -> bool {
        let r = self.table()[k];
        &&& next.devices().len() == self.devices().len()
        &&& self.devices()[k].on_pre_read(
            crate::memory::range_bytes(self.memory(), r),
            next.devices()[k],
            crate::memory::range_bytes(next.memory(), r),
        )
        &&& forall|a: int|
            0 <= a < 65536 && !crate::table::contains(r, a) ==> #[trigger] next.memory()[a]
                == self.memory()[a]
        &&& forall|j: int|
            0 <= j < self.devices().len() && j != k ==> #[trigger] next.devices()[j]
                == self.devices()[j]
    }

    /// Whether `next` is what a write of `data` to `addr` that hits device
    /// `k` makes of `self`: the byte was stored, then the device's hook has
    /// run on the bytes of its range, which held the stored byte, and nothing
    /// else has changed.
    pub open spec fn written_through(&self, k: int, addr: u16, data: u8, next: Self) -> bool {
        let r = self.table()[k];
        let committed = stored(self.memory(), addr, data);
        &&& next.devices().len() == self.devices().len()
        &&& self.devices()[k].on_post_write(
            crate::memory::range_bytes(committed, r),
            next.devices()[k],
            crate::memory::range_bytes(next.memory(), r),
        )
        &&& forall|a: int|
            0 <= a < 65536 && !crate::table::contains(r, a) ==> #[trigger] next.memory()[a]
                == committed[a]
        &&& forall|j: int|
            0 <= j < self.devices().len() && j != k ==> #[trigger] next.devices()[j]
                == self.devices()[j]
    }

    /// Whether a read of `addr` on the bus `self` may return `byte` and leave
    /// the bus `next`. The table stays. The byte is the one that the mirrored
    /// address holds afterwards. With no device at the mirrored address
    /// nothing changes; with device `k` there, its pre-read hook has run
    /// before the fetch.
    pub open spec fn reads(&self, addr: u16, byte: u8, next: Self) -> bool {
        let a = crate::mirror::mirror(addr) as int;
        &&& next.table() == self.table()
        &&& next.is_mapped() == self.is_mapped()
        &&& byte == fetched(next.memory(), addr)
        &&& crate::table::no_hit(self.table(), a) ==> {
            &&& next.memory() == self.memory()
            &&& next.devices() == self.devices()
        }
        &&& forall|k: int| #[trigger]
            crate::table::first_hit(self.table(), a, k) ==> self.read_through(k, next)
    }

    /// Whether a write of `data` to `addr` on the bus `self` may leave the
    /// bus `next`. The table stays. With no device at the mirrored address
    /// the byte is stored and nothing else changes; with device `k` there,
    /// its post-write hook has run after the store.
    pub open spec fn writes(&self, addr: u16, data: u8, next: Self) -> bool {
        let a = crate::mirror::mirror(addr) as int;
        &&& next.table() == self.table()
        &&& next.is_mapped() == self.is_mapped()
        &&& crate::table::no_hit(self.table(), a) ==> {
            &&& next.memory() == stored(self.memory(), addr, data)
            &&& next.devices() == self.devices()
        }
        &&& forall|k: int| #[trigger]
            crate::table::first_hit(self.table(), a, k) ==> self.written_through(
                k,
                addr,
                data,
                next,
            )
    }

    /// A bus over `memory` with no device mapped.
    pub fn new(memory: AddressSpace) -> (bus: Self)
        ensures
            bus.wf(),
            bus.memory() == memory@,
            bus.devices().len() == 0,
            bus.table().len() == 0,
            !bus.is_mapped(),
    {
        let bus = Bus {
            window: Window::new(memory),
            devices: Vec::new(),
            ranges: Vec::new(),
            mapped: false,
        };
        assert(bus.ranges@ =~= ranges_of(bus.devices@));
        bus
    }

    /// Registers `devices`, once: asks each for its range, validates the
    /// ranges, hands each device the window over its range, and records the
    /// table. A second registration, a range that is not valid and two
    /// ranges that share an address are rejected, in this order of
    /// precedence. A rejected registration runs no hook and changes nothing.
    pub fn map(&mut self, devices: Vec<D>) -> (res: Result<(), BusError>)
        requires
            old(self).wf(),
        ensures
            final(self).wf(),
            res == Self::map_verdict(old(self).is_mapped(), ranges_of(devices@)),
            res.is_err() ==> {
                &&& final(self).memory() == old(self).memory()
                &&& final(self).devices() == old(self).devices()
                &&& final(self).table() == old(self).table()
                &&& final(self).is_mapped() == old(self).is_mapped()
            },
            res.is_ok() ==> old(self).registers(devices@, *final(self)),
    {
        if self.mapped {
            return Err(BusError::AlreadyMapped);
        }
        let n: usize = devices.len();
        let mut ranges: Vec<(usize, usize)> = Vec::new();
        let mut valid: bool = true;
        let mut k: usize = 0;
        while k < n
            invariant
                k <= n,
                n == devices@.len(),
                ranges@.len() == k,
                forall|j: int| 0 <= j < k ==> #[trigger] ranges@[j] == devices@[j].range(),
                valid == crate::table::all_valid(ranges@),
            decreases n - k,
        {
            let r: (usize, usize) = devices[k].mapping_def();
            let ghost collected = ranges@;
            if !range_is_valid(r) {
                valid = false;
            }
            ranges.push(r);
            proof {
                assert(ranges@ == collected.push(r));
                if !crate::table::valid_range(r) {
                    assert(!crate::table::valid_range(ranges@[k as int]));
                } else if !crate::table::all_valid(collected) {
                    let j = choose|j: int|
                        0 <= j < collected.len() && !crate::table::valid_range(#[trigger] collected[j]);
                    assert(!crate::table::valid_range(ranges@[j]));
                } else {
                    assert forall|j: int| 0 <= j < ranges@.len() implies crate::table::valid_range(
                        #[trigger] ranges@[j],
                    ) by {
                        if j < k {
                            assert(crate::table::valid_range(collected[j]));
                        }
                    }
                }
            }
            k += 1;
        }
        assert(ranges@ =~= ranges_of(devices@));
        if !valid {
            return Err(BusError::InvalidRange);
        }
        if !table_is_disjoint(&ranges) {
            return Err(BusError::OverlappingRanges);
        }
        let ghost declared = devices@;
        let ghost before = self.window.space();
        let mut devices = devices;
        let mut k: usize = 0;
        while k < n
            invariant
                k <= n,
                n == declared.len(),
                devices@.len() == n,
                ranges@ == ranges_of(declared),
                crate::table::all_valid(ranges@),
                crate::table::pairwise_disjoint(ranges@),
                before.len() == 65536,
                self.window.in_bounds(),
                self.mapped == old(self).mapped,
                self.devices == old(self).devices,
                self.ranges == old(self).ranges,
                forall|j: int| 0 <= j < n ==> (#[trigger] devices@[j]).range() == declared[j].range(),
                forall|j: int| k <= j < n ==> #[trigger] devices@[j] == declared[j],
                forall|j: int|
                    0 <= j < k ==> (#[trigger] declared[j]).on_map(
                        crate::memory::range_bytes(before, ranges@[j]),
                        devices@[j],
                        crate::memory::range_bytes(self.window.space(), ranges@[j]),
                    ),
                forall|a: int|
                    0 <= a < 65536 && (forall|j: int|
                        0 <= j < k ==> !crate::table::contains(#[trigger] ranges@[j], a))
                        ==> #[trigger] self.window.space()[a] == before[a],
            decreases n - k,
        {
            let r: (usize, usize) = ranges[k];
            let ghost reached = self.window.space();
            assert(crate::table::valid_range(ranges@[k as int]));
            proof {
                assert forall|a: int| r.0 <= a < r.1 implies reached[a] == before[a] by {
                    assert forall|j: int| 0 <= j < k implies !crate::table::contains(
                        #[trigger] ranges@[j],
                        a,
                    ) by {
                        if crate::table::contains(ranges@[j], a) {
                            crate::table::lemma_shared_address_overlaps(ranges@[j], r, a);
                        }
                    }
                }
                assert(crate::memory::range_bytes(reached, r) =~= crate::memory::range_bytes(
                    before,
                    r,
                ));
            }
            self.window.grant(r.0, r.1);
            devices[k].map(&mut self.window);
            proof {
                let now = self.window.space();
                assert forall|j: int| 0 <= j < k implies crate::memory::range_bytes(
                    now,
                    #[trigger] ranges@[j],
                ) == crate::memory::range_bytes(reached, ranges@[j]) by {
                    let s = ranges@[j];
                    assert(crate::table::valid_range(s));
                    assert forall|a: int| s.0 <= a < s.1 implies now[a] == reached[a] by {
                        if crate::table::contains(r, a) {
                            crate::table::lemma_shared_address_overlaps(s, r, a);
                        }
                    }
                    assert(crate::memory::range_bytes(now, s) =~= crate::memory::range_bytes(
                        reached,
                        s,
                    ));
                }
                assert forall|a: int|
                    0 <= a < 65536 && (forall|j: int|
                        0 <= j < k + 1 ==> !crate::table::contains(#[trigger] ranges@[j], a))
                        implies #[trigger] now[a] == before[a] by {
                    assert(!crate::table::contains(ranges@[k as int], a));
                    assert(now[a] == reached[a]);
                }
            }
            k += 1;
        }
        assert(ranges@ =~= ranges_of(devices@));
        self.devices = devices;
        self.ranges = ranges;
        self.mapped = true;
        Ok(())
    }

    /// The address space behind the bus.
    pub fn address_space(&self) -> (space: &AddressSpace)
        ensures
            space@ == self.memory(),
    {
        self.window.address_space()
    }

    /// Device `k`, as it stands now.
    pub fn device(&self, k: usize) -> (dev: &D)
        requires
            k < self.devices().len(),
        ensures
            *dev == self.devices()[k as int],
    {
        &self.devices[k]
    }

    /// Number of registered devices.
    pub fn device_count(&self) -> (n: usize)
        ensures
            n == self.devices().len(),
    {
        self.devices.len()
    }

    /// Copies `data` into the address space from `dest` on. No address is
    /// mirrored and no device hook runs. A load that would run past the last
    /// address is rejected and changes nothing.
    pub fn load(&mut self, data: &[u8], dest: u16) -> (res: Result<(), BusError>)
        requires
            old(self).wf(),
        ensures
            final(self).wf(),
            final(self).devices() == old(self).devices(),
            final(self).table() == old(self).table(),
            final(self).is_mapped() == old(self).is_mapped(),
            dest + data@.len() <= 65536 ==> res == Ok::<(), BusError>(()) && final(self).memory()
                == crate::memory::loaded(old(self).memory(), data@, dest as int),
            dest + data@.len() > 65536 ==> res == Err::<(), BusError>(BusError::LoadOutOfRange)
                && final(self).memory() == old(self).memory(),
    {
        self.window.load(data, dest)
    }

    /// The device whose range contains the physical address that `addr`
    /// stands for: the index of the first such entry of the table.
    pub fn lookup(&self, addr: u16) -> (found: Option<usize>)
        ensures
            match found {
                Some(k) => crate::table::first_hit(
                    self.table(),
                    crate::mirror::mirror(addr) as int,
                    k as int,
                ),
                None => crate::table::no_hit(self.table(), crate::mirror::mirror(addr) as int),
            },
    {
        find_first(&self.ranges, mirror_address(addr) as usize)
    }

    /// Reads the byte at `addr`. The address is mirrored first. If a device
    /// owns the mirrored address, its pre-read hook runs, and the byte
    /// returned is the one that the address holds after the hook. If none
    /// does, the byte is the one that the address space holds there.
    pub fn mem_read_u8(&mut self, addr: u16) -> (byte: u8)
        requires
            old(self).wf(),
        ensures
            final(self).wf(),
            old(self).reads(addr, byte, *final(self)),
    {
        let a: usize = mirror_address(addr) as usize;
        match find_first(&self.ranges, a) {
            Some(k) => {
                let r: (usize, usize) = self.ranges[k];
                self.window.grant(r.0, r.1);
                self.devices[k].pre_read_hook(&mut self.window);
                proof {
                    assert(self.ranges@ =~= ranges_of(self.devices@));
                }
            },
            None => {},
        }
        self.window.read(a)
    }

    /// Writes `data` to `addr`. The address is mirrored first and the byte
    /// is stored. If a device owns the mirrored address, its post-write hook
    /// runs then, and sees the stored byte.
    pub fn mem_write_u8(&mut self, addr: u16, data: u8)
        requires
            old(self).wf(),
        ensures
            final(self).wf(),
            old(self).writes(addr, data, *final(self)),
    {
        let a: usize = mirror_address(addr) as usize;
        self.window.write(a, data);
        match find_first(&self.ranges, a) {
            Some(k) => {
                let r: (usize, usize) = self.ranges[k];
                self.window.grant(r.0, r.1);
                self.devices[k].post_write_hook(&mut self.window);
                proof {
                    assert(self.ranges@ =~= ranges_of(self.devices@));
                }
            },
            None => {},
        }
    }

    /// A read through an address of the RAM window cannot be told from a
    /// read through its low eleven bits: whatever one may return and leave
    /// behind, the other may too.
    pub proof fn lemma_ram_alias_reads_alike(&self, addr: u16, byte: u8, next: Self)
        requires
            addr <= 0x1FFF,
        ensures
            self.reads(addr, byte, next) == self.reads(addr & 0x07FF, byte, next),
    {
        crate::mirror::lemma_ram_mirror(addr);
    }

    /// A read through an address of the register window cannot be told from
    /// a read through the register of the first block that it selects.
    pub proof fn lemma_register_alias_reads_alike(&self, addr: u16, byte: u8, next: Self)
        requires
            0x2000 <= addr <= 0x3FFF,
        ensures
            self.reads(addr, byte, next) == self.reads(0x2000 | (addr & 0x2007), byte, next),
    {
        crate::mirror::lemma_registers_mirror(addr);
    }

    /// With no device at its physical byte, a read through an address of the
    /// RAM window and a following read through its low eleven bits return
    /// the same byte.
    pub proof fn lemma_ram_mirror_reads_agree(
        &self,
        addr: u16,
        direct: u8,
        between: Self,
        aliased: u8,
        after: Self,
    )
        requires
            addr <= 0x1FFF,
            crate::table::no_hit(self.table(), crate::mirror::mirror(addr) as int),
            self.reads(addr, direct, between),
            between.reads(addr & 0x07FF, aliased, after),
        ensures
            direct == aliased,
            after.memory() == self.memory(),
    {
        crate::mirror::lemma_ram_mirror(addr);
    }

    /// With no device at its physical byte, a read through an address of the
    /// register window and a following read through the register of the
    /// first block that it selects return the same byte.
    pub proof fn lemma_register_mirror_reads_agree(
        &self,
        addr: u16,
        direct: u8,
        between: Self,
        aliased: u8,
        after: Self,
    )
        requires
            0x2000 <= addr <= 0x3FFF,
            crate::table::no_hit(self.table(), crate::mirror::mirror(addr) as int),
            self.reads(addr, direct, between),
            between.reads(0x2000 | (addr & 0x2007), aliased, after),
        ensures
            direct == aliased,
            after.memory() == self.memory(),
    {
        crate::mirror::lemma_registers_mirror(addr);
    }

    /// A byte written to an address that no device owns is the byte that the
    /// next read of that address returns.
    pub proof fn lemma_write_then_read(
        &self,
        addr: u16,
        data: u8,
        between: Self,
        byte: u8,
        after: Self,
    )
        requires
            self.wf(),
            crate::table::no_hit(self.table(), crate::mirror::mirror(addr) as int),
            self.writes(addr, data, between),
            between.reads(addr, byte, after),
        ensures
            byte == data,
    {
    }

    /// Store, then hook: when a write hits device `k`, the bytes that its
    /// post-write hook starts from hold the written byte at the written
    /// address.
    pub proof fn lemma_post_write_sees_stored_byte(&self, k: int, addr: u16, data: u8, next: Self)
        requires
            self.wf(),
            crate::table::first_hit(self.table(), crate::mirror::mirror(addr) as int, k),
            self.writes(addr, data, next),
        ensures
            ({
                let r = self.table()[k];
                let seen = crate::memory::range_bytes(stored(self.memory(), addr, data), r);
                &&& seen[crate::mirror::mirror(addr) - r.0] == data
                &&& self.devices()[k].on_post_write(
                    seen,
                    next.devices()[k],
                    crate::memory::range_bytes(next.memory(), r),
                )
            }),
    {
    }

    /// Hook, then fetch: when a read hits device `k`, the byte returned is
    /// the one that its pre-read hook left at the read address.
    pub proof fn lemma_read_returns_hook_result(&self, k: int, addr: u16, byte: u8, next: Self)
        requires
            self.wf(),
            next.wf(),
            crate::table::first_hit(self.table(), crate::mirror::mirror(addr) as int, k),
            self.reads(addr, byte, next),
        ensures
            ({
                let r = self.table()[k];
                let left = crate::memory::range_bytes(next.memory(), r);
                &&& byte == left[crate::mirror::mirror(addr) - r.0]
                &&& self.devices()[k].on_pre_read(
                    crate::memory::range_bytes(self.memory(), r),
                    next.devices()[k],
                    left,
                )
            }),
    {
    }
}

} // verus!
