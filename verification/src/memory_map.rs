//! The memory map that the firmware reports, and the frames that it offers
//! to the boot-time allocator.

use vstd::prelude::*;
use crate::addr::{align_down_spec, frame_containing};

verus! {

/// Memory type of regions that the firmware reserves.
pub const RESERVED: u32 = 0;

/// Memory type of the code of boot services, free once boot services are left.
pub const BOOT_SERVICES_CODE: u32 = 3;

/// Memory type of the data of boot services, free once boot services are left.
pub const BOOT_SERVICES_DATA: u32 = 4;

/// Memory type of free memory.
pub const CONVENTIONAL: u32 = 7;

/// Memory type of memory-mapped I/O.
pub const MMIO: u32 = 11;

/// Memory type of memory-mapped port space.
pub const MMIO_PORT_SPACE: u32 = 12;

/// Memory type of memory that has not been accepted yet.
pub const UNACCEPTED: u32 = 15;

/// The first memory type that the firmware interface does not define.
pub const MEMORY_TYPE_MAX: u32 = 16;

/// The floor of `max_phys_addr`: 4 GiB.
pub const FOUR_GIB: u64 = 0x1_0000_0000;

/// One entry of the firmware's memory map: `page_count` pages of 4 KiB that
/// start at the physical address `phys_start` and have the memory type `ty`.
#[derive(Debug, Clone, Copy, PartialEq, Eq, Structural)]
pub struct MemoryRegion {
    pub ty: u32,
    pub phys_start: u64,
    pub page_count: u64,
}

/// Frames may be taken from free memory and from the memory of boot services.
pub open spec fn is_usable(ty: u32) -> bool {
    ty == CONVENTIONAL || ty == BOOT_SERVICES_CODE || ty == BOOT_SERVICES_DATA
}

impl MemoryRegion {
    /// The first address past the region.
    pub open spec fn end(self) -> int {
        self.phys_start + self.page_count * 4096
    }

    /// The region lies within the physical address space.
    pub open spec fn in_bounds(self) -> bool {
        self.end() <= 0x0010_0000_0000_0000
    }

    /// Whether the first page of the region starts in the frame at address
    /// 0, which is never offered.
    pub open spec fn starts_in_zero_frame(self) -> bool {
        self.phys_start < 4096
    }

    /// How many frames the region offers: one for each of its pages, but
    /// none for a page that starts in the frame at address 0, and none if
    /// its type is not usable.
    pub open spec fn frame_count(self) -> int {
        if !is_usable(self.ty) {
            0
        } else if self.starts_in_zero_frame() && self.page_count > 0 {
            self.page_count - 1
        } else {
            self.page_count as int
        }
    }

    /// The start of the `k`-th frame that the region offers: the frame that
    /// holds the start of its `k`-th page, a page that starts in the frame at
    /// address 0 not counted.
    pub open spec fn frame_at(self, k: int) -> int {
        if self.starts_in_zero_frame() {
            align_down_spec(self.phys_start + 4096 * (k + 1), 4096)
        } else {
            align_down_spec(self.phys_start + 4096 * k, 4096)
        }
    }

    /// The frames that the region offers, in ascending order.
    pub open spec fn frames(self) -> Seq<u64> {
        Seq::new(self.frame_count() as nat, |k: int| self.frame_at(k) as u64)
    }

    /// Whether frames may be taken from the region.
    pub fn usable(&self) -> (b: bool)
        ensures
            b == is_usable(self.ty),
    {
        self.ty == CONVENTIONAL || self.ty == BOOT_SERVICES_CODE || self.ty == BOOT_SERVICES_DATA
    }
}

/// Every usable region of `m` lies within the physical address space.
pub open spec fn usable_in_bounds(m: Seq<MemoryRegion>) -> bool {
    forall|i: int| 0 <= i < m.len() && is_usable(#[trigger] m[i].ty) ==> m[i].in_bounds()
}

/// The frames that the map offers: those of its first region, then those of
/// the second, and so on.
pub open spec fn usable_frames_spec(m: Seq<MemoryRegion>) -> Seq<u64>
    decreases m.len(),
{
    if m.len() == 0 {
        Seq::empty()
    } else {
        usable_frames_spec(m.drop_last()) + m.last().frames()
    }
}

/// The frames that the first `i` regions offer come first among those of the map.
pub proof fn lemma_usable_frames_prefix(m: Seq<MemoryRegion>, i: int)
    requires
        0 <= i <= m.len(),
    ensures
        usable_frames_spec(m.subrange(0, i)).len() <= usable_frames_spec(m).len(),
        usable_frames_spec(m.subrange(0, i)) == usable_frames_spec(m).subrange(
            0,
            usable_frames_spec(m.subrange(0, i)).len() as int,
        ),
    decreases m.len(),
{
    if i == m.len() {
        assert(m.subrange(0, i) =~= m);
    } else {
        lemma_usable_frames_prefix(m.drop_last(), i);
        assert(m.drop_last().subrange(0, i) =~= m.subrange(0, i));
    }
}

/// The frames of the first `i + 1` regions are those of the first `i`, then those of region `i`.
pub proof fn lemma_usable_frames_step(m: Seq<MemoryRegion>, i: int)
    requires
        0 <= i < m.len(),
    ensures
        usable_frames_spec(m.subrange(0, i + 1)) == usable_frames_spec(m.subrange(0, i))
            + m[i].frames(),
{
    assert(m.subrange(0, i + 1).drop_last() =~= m.subrange(0, i));
}

/// The `n`-th of the frames that the map offers, counted from 0, if there are so many.
pub fn usable_frame_at(mmap: &[MemoryRegion], n: usize) -> (frame: Option<u64>)
    requires
        usable_in_bounds(mmap@),
    ensures
        frame == if n < usable_frames_spec(mmap@).len() {
            Some(usable_frames_spec(mmap@)[n as int])
        } else {
            None
        },
{
    let mut rest: u64 = n as u64;
    let mut i: usize = 0;
    while i < mmap.len()
        invariant
            i <= mmap.len(),
            usable_in_bounds(mmap@),
            rest + usable_frames_spec(mmap@.subrange(0, i as int)).len() == n,
        decreases mmap.len() - i,
    {
        let region = mmap[i];
        proof {
            lemma_usable_frames_step(mmap@, i as int);
            lemma_usable_frames_prefix(mmap@, i as int + 1);
        }
        if region.usable() {
            let skip_zero: bool = region.phys_start < 4096 && region.page_count > 0;
            let count: u64 = if skip_zero { region.page_count - 1 } else { region.page_count };
            if rest < count {
                let index: u64 = if skip_zero { rest + 1 } else { rest };
                let addr: u64 = region.phys_start + index * 4096;
                let frame = frame_containing(addr);
                proof {
                    let upto = usable_frames_spec(mmap@.subrange(0, i as int + 1));
                    assert(upto[n as int] == region.frames()[rest as int]);
                }
                return Some(frame);
            }
            rest = rest - count;
        }
        i = i + 1;
    }
    proof {
        assert(mmap@.subrange(0, i as int) =~= mmap@);
    }
    None
}

/// The highest end of a region of `m`, and 0 if `m` has no region.
pub open spec fn highest_end(m: Seq<MemoryRegion>) -> int
    decreases m.len(),
{
    if m.len() == 0 {
        0
    } else if m.last().end() > highest_end(m.drop_last()) {
        m.last().end()
    } else {
        highest_end(m.drop_last())
    }
}

/// The address up to which physical memory is mapped: the highest address
/// that the map reports, but 4 GiB at least.
pub open spec fn max_phys_addr_spec(m: Seq<MemoryRegion>) -> int {
    if highest_end(m) > 0x1_0000_0000 {
        highest_end(m)
    } else {
        0x1_0000_0000
    }
}

/// The end of every region of `m` fits in 64 bits.
pub open spec fn ends_fit(m: Seq<MemoryRegion>) -> bool {
    forall|i: int| 0 <= i < m.len() ==> (#[trigger] m[i]).end() <= u64::MAX
}

/// `highest_end` is the maximum that its name says.
pub proof fn lemma_highest_end(m: Seq<MemoryRegion>)
    ensures
        forall|i: int| 0 <= i < m.len() ==> (#[trigger] m[i]).end() <= highest_end(m),
        highest_end(m) == 0 || exists|i: int|
            0 <= i < m.len() && (#[trigger] m[i]).end() == highest_end(m),
    decreases m.len(),
{
    if m.len() > 0 {
        let prev = m.drop_last();
        lemma_highest_end(prev);
        assert forall|i: int| 0 <= i < m.len() implies (#[trigger] m[i]).end() <= highest_end(
            m,
        ) by {
            if i < m.len() - 1 {
                assert(prev[i] == m[i]);
            }
        }
        if highest_end(m) != 0 {
            if m.last().end() > highest_end(prev) {
                assert(m[m.len() - 1].end() == highest_end(m));
            } else {
                let i = choose|i: int|
                    0 <= i < prev.len() && (#[trigger] prev[i]).end() == highest_end(prev);
                assert(m[i] == prev[i]);
            }
        }
    }
}

/// The address up to which the loader maps physical memory: the highest
/// address that the memory map reports, whatever the type of the region.
///
/// The first 4 GiB are always covered, since devices are reached through
/// them even where there is less memory.
pub fn max_phys_addr(memmap: &[MemoryRegion]) -> (max: u64)
    requires
        memmap@.len() > 0,
        forall|i: int| 0 <= i < memmap@.len() ==> (#[trigger] memmap@[i]).end() <= u64::MAX,
    ensures
        max == max_phys_addr_spec(memmap@),
        max >= 0x1_0000_0000,
        forall|i: int| 0 <= i < memmap@.len() ==> (#[trigger] memmap@[i]).end() <= max,
        max == 0x1_0000_0000 || exists|i: int|
            0 <= i < memmap@.len() && (#[trigger] memmap@[i]).end() == max,
{
    let mut highest: u64 = 0;
    let mut i: usize = 0;
    while i < memmap.len()
        invariant
            i <= memmap.len(),
            highest == highest_end(memmap@.subrange(0, i as int)),
            forall|i: int| 0 <= i < memmap@.len() ==> (#[trigger] memmap@[i]).end() <= u64::MAX,
        decreases memmap.len() - i,
    {
        let region = memmap[i];
        proof {
            assert(memmap@.subrange(0, i as int + 1).drop_last() =~= memmap@.subrange(
                0,
                i as int,
            ));
            assert(memmap@[i as int].end() <= u64::MAX);
        }
        let end: u64 = region.phys_start + region.page_count * 4096;
        if end > highest {
            highest = end;
        }
        i = i + 1;
    }
    proof {
        assert(memmap@.subrange(0, i as int) =~= memmap@);
        lemma_highest_end(memmap@);
    }
    if highest > FOUR_GIB {
        highest
    } else {
        FOUR_GIB
    }
}

/// The frame at `frame` lies in the usable region `r`.
pub open spec fn frame_in_region(frame: u64, r: MemoryRegion) -> bool {
    is_usable(r.ty) && r.phys_start <= frame && frame + 4096 <= r.end()
}

/// The frame at `frame` lies in a usable region of `m`.
pub open spec fn frame_in_map(frame: u64, m: Seq<MemoryRegion>) -> bool {
    exists|i: int| 0 <= i < m.len() && frame_in_region(frame, #[trigger] m[i])
}

/// The two regions share no address.
pub open spec fn regions_apart(a: MemoryRegion, b: MemoryRegion) -> bool {
    a.end() <= b.phys_start || b.end() <= a.phys_start
}

/// A memory map as the firmware is bound to report it: each usable region
/// starts on a frame boundary and lies within the physical address space, and
/// no two usable regions share an address.
pub open spec fn valid_memory_map(m: Seq<MemoryRegion>) -> bool {
    &&& forall|i: int|
        0 <= i < m.len() && is_usable(#[trigger] m[i].ty) ==> m[i].phys_start % 4096 == 0
            && m[i].in_bounds()
    &&& forall|i: int, j: int|
        0 <= i < j < m.len() && is_usable(#[trigger] m[i].ty) && is_usable(#[trigger] m[j].ty)
            ==> regions_apart(m[i], m[j])
}

/// In a valid map, each frame that a region offers lies in that region, on a
/// frame boundary and not at address 0.
pub proof fn lemma_region_frames(r: MemoryRegion, k: int)
    requires
        is_usable(r.ty),
        r.phys_start % 4096 == 0,
        r.in_bounds(),
        0 <= k < r.frame_count(),
    ensures
        r.frames()[k] == r.frame_at(k),
        r.frame_at(k) == if r.phys_start == 0 {
            4096 * (k + 1)
        } else {
            r.phys_start + 4096 * k
        },
        frame_in_region(r.frames()[k], r),
        r.frames()[k] != 0,
        r.frames()[k] % 4096 == 0,
{
}

/// What holds of the frames that a valid memory map offers: none is at
/// address 0, each starts on a frame boundary and lies in a usable region of
/// the map, and no frame is offered twice.
pub proof fn lemma_usable_frames_valid(m: Seq<MemoryRegion>)
    requires
        valid_memory_map(m),
    ensures
        forall|n: int|
            0 <= n < usable_frames_spec(m).len() ==> (#[trigger] usable_frames_spec(m)[n]) != 0
                && usable_frames_spec(m)[n] % 4096 == 0 && frame_in_map(
                usable_frames_spec(m)[n],
                m,
            ),
        forall|a: int, b: int|
            0 <= a < b < usable_frames_spec(m).len() ==> usable_frames_spec(m)[a]
                != usable_frames_spec(m)[b],
    decreases m.len(),
{
    if m.len() > 0 {
        let prev = m.drop_last();
        let last = m.last();
        let f = usable_frames_spec(m);
        let fp = usable_frames_spec(prev);
        lemma_usable_frames_valid(prev);
        assert forall|n: int| 0 <= n < f.len() implies (#[trigger] f[n]) != 0 && f[n] % 4096 == 0
            && frame_in_map(f[n], m) by {
            if n >= fp.len() {
                let k = n - fp.len();
                lemma_region_frames(last, k);
            }
        }
        assert forall|a: int, b: int| 0 <= a < b < f.len() implies f[a] != f[b] by {
            if b >= fp.len() {
                let kb = b - fp.len();
                lemma_region_frames(last, kb);
                if a >= fp.len() {
                    let ka = a - fp.len();
                    lemma_region_frames(last, ka);
                }
            }
        }
    }
}

/// Whether every usable region of the map lies within the physical address space.
pub fn usable_regions_in_bounds(mmap: &[MemoryRegion]) -> (b: bool)
    ensures
        b == usable_in_bounds(mmap@),
{
    let mut i: usize = 0;
    while i < mmap.len()
        invariant
            i <= mmap.len(),
            forall|k: int| 0 <= k < i && is_usable(#[trigger] mmap@[k].ty) ==> mmap@[k].in_bounds(),
        decreases mmap.len() - i,
    {
        let region = mmap[i];
        if region.usable() {
            if region.page_count > 0x100_0000_0000 || region.phys_start > crate::PHYS_ADDR_LIMIT
                - region.page_count * 4096 {
                return false;
            }
        }
        i = i + 1;
    }
    true
}

/// The address up to which the loader maps physical memory, if the map has
/// a region and the end of each of its regions fits in 64 bits; `None`
/// otherwise.
pub fn checked_max_phys_addr(memmap: &[MemoryRegion]) -> (max: Option<u64>)
    ensures
        max is Some <==> memmap@.len() > 0 && ends_fit(memmap@),
        max is Some ==> max->0 == max_phys_addr_spec(memmap@),
{
    let mut i: usize = 0;
    while i < memmap.len()
        invariant
            i <= memmap.len(),
            forall|k: int| 0 <= k < i ==> (#[trigger] memmap@[k]).end() <= u64::MAX,
        decreases memmap.len() - i,
    {
        let region = memmap[i];
        if region.page_count > 0xf_ffff_ffff_ffff || region.phys_start > u64::MAX
            - region.page_count * 4096 {
            assert(memmap@[i as int].end() > u64::MAX);
            return None;
        }
        i = i + 1;
    }
    if memmap.len() > 0 {
        Some(max_phys_addr(memmap))
    } else {
        None
    }
}

} // verus!
