//! The mappings that the loader installs before it starts the kernel, and
//! the part of the address space that the kernel clears afterwards.

use vstd::prelude::*;
use x86_64::structures::paging::PageTable;
use crate::addr::{align_down_spec, canonical, is_phys, lemma_page_sizes_pow2, FrameSize};
use crate::elf::{flags_execute, flags_write, ProgramHeader};

verus! {

/// Bytes of a page of 1 GiB.
pub const GIB: u64 = 0x4000_0000;

/// The most bytes of physical memory that the window at `MEM_OFFSET` can
/// show: the window ends where the kernel heap starts.
pub const OFFSET_WINDOW: u64 = 0x7ffe_0000_0000;

/// Entries of the top-level page table that belong to the lower half of the
/// address space.
pub const LOWER_HALF_ENTRIES: usize = 256;

/// The access that a mapping grants.
#[derive(Debug, Clone, Copy, PartialEq, Eq, Structural)]
pub struct PageFlags {
    /// The page is mapped.
    pub present: bool,
    /// The page may be written to.
    pub writable: bool,
    /// No code in the page may be run.
    pub no_execute: bool,
}

/// One mapping: the page of `size` at the virtual address `page` shows the
/// frame at the physical address `frame`.
#[derive(Debug, Clone, Copy, PartialEq, Eq, Structural)]
pub struct PageMapping {
    pub page: u64,
    pub frame: u64,
    pub size: FrameSize,
    pub flags: PageFlags,
}

impl PageMapping {
    /// The mapping shows the physical address `phys` at the virtual address `virt`.
    pub open spec fn maps(self, virt: int, phys: int) -> bool {
        &&& self.page <= virt < self.page + self.size.spec_bytes()
        &&& virt - self.page == phys - self.frame
    }
}

/// Some mapping of `plan` shows the physical address `phys` at the virtual address `virt`.
pub open spec fn plan_maps(plan: Seq<PageMapping>, virt: int, phys: int) -> bool {
    exists|i: int| 0 <= i < plan.len() && (#[trigger] plan[i]).maps(virt, phys)
}

/// The flags of the pages of a segment with the ELF flags `flags`: always
/// present, writable if the segment is, and closed to execution unless the
/// segment is executable.
pub open spec fn segment_flags_spec(flags: u32) -> PageFlags {
    PageFlags {
        present: true,
        writable: flags & 0x2 == 0x2,
        no_execute: !(flags & 0x1 == 0x1),
    }
}

/// The flags with which the pages of the segment `ph` are mapped.
pub fn segment_flags(ph: &ProgramHeader) -> (f: PageFlags)
    ensures
        f == segment_flags_spec(ph.flags),
{
    PageFlags {
        present: true,
        writable: flags_write(ph.flags),
        no_execute: !flags_execute(ph.flags),
    }
}

/// The start of the first page of the segment.
pub open spec fn first_page(ph: ProgramHeader) -> int {
    align_down_spec(ph.virt_addr as int, 4096)
}

/// The number of pages of 4 KiB that hold a byte of the segment.
pub open spec fn page_count(ph: ProgramHeader) -> int {
    if ph.mem_size == 0 {
        0
    } else {
        (align_down_spec(ph.virt_addr + ph.mem_size - 1, 4096) - first_page(ph)) / 4096 + 1
    }
}

/// The pages of the segment `ph`: the start of the first and their number.
///
/// These are the pages that hold a byte of the segment, and no others.
pub fn segment_pages(ph: &ProgramHeader) -> (pages: (u64, u64))
    requires
        ph.virt_addr + ph.mem_size <= u64::MAX,
    ensures
        pages.0 == first_page(*ph),
        pages.1 == page_count(*ph),
        pages.0 % 4096 == 0,
        pages.0 + pages.1 * 4096 <= u64::MAX + 1,
        forall|addr: int| #[trigger] ph.holds(addr) ==> pages.0 <= addr < pages.0 + pages.1 * 4096,
        ph.mem_size > 0 ==> pages.0 <= ph.virt_addr < pages.0 + 4096 && pages.0 + (pages.1 - 1)
            * 4096 < ph.virt_addr + ph.mem_size,
{
    proof {
        lemma_page_sizes_pow2();
    }
    let first: u64 = x86_64::align_down(ph.virt_addr, 4096);
    if ph.mem_size == 0 {
        return (first, 0);
    }
    let last: u64 = x86_64::align_down(ph.virt_addr + (ph.mem_size - 1), 4096);
    (first, (last - first) / 4096 + 1)
}

/// The mapping of the page with the number `k` of the segment `ph` to `frame`.
pub fn segment_mapping(ph: &ProgramHeader, k: u64, frame: u64) -> (m: PageMapping)
    requires
        ph.virt_addr + ph.mem_size <= u64::MAX,
        k < page_count(*ph),
    ensures
        m == (PageMapping {
            page: (first_page(*ph) + 4096 * k) as u64,
            frame,
            size: FrameSize::Size4KiB,
            flags: segment_flags_spec(ph.flags),
        }),
{
    let pages = segment_pages(ph);
    PageMapping {
        page: pages.0 + 4096 * k,
        frame,
        size: FrameSize::Size4KiB,
        flags: segment_flags(ph),
    }
}

/// The number of pages of 1 GiB that show the physical memory below `limit`.
pub open spec fn offset_page_count(limit: int) -> int {
    (limit + 0x4000_0000 - 1) / 0x4000_0000
}

/// The mapping with the number `i` of the window at `MEM_OFFSET`.
pub open spec fn offset_mapping(i: int) -> PageMapping {
    PageMapping {
        page: (0xffff_8000_0000_0000 + i * 0x4000_0000) as u64,
        frame: (i * 0x4000_0000) as u64,
        size: FrameSize::Size1GiB,
        flags: PageFlags { present: true, writable: true, no_execute: true },
    }
}

/// The window at `MEM_OFFSET` is complete: each physical address `p` below
/// `limit` lies in one of the pages that show the memory below `limit`, and
/// that page shows `p` at `MEM_OFFSET + p`, an address of the higher half.
pub proof fn lemma_offset_window_complete(limit: int, p: int)
    requires
        0 <= p < limit <= OFFSET_WINDOW,
    ensures
        0 <= p / 0x4000_0000 < offset_page_count(limit),
        offset_mapping(p / 0x4000_0000).maps(0xffff_8000_0000_0000 + p, p),
        canonical(0xffff_8000_0000_0000 + p),
        0xffff_8000_0000_0000 + p >= crate::MEM_OFFSET,
{
}

/// The mappings that show the physical memory below `limit` at `MEM_OFFSET`:
/// pages of 1 GiB, writable and closed to execution.
///
/// Each physical address `p` below `limit` is shown at `MEM_OFFSET + p`,
/// which is an address of the higher half.
pub fn offset_map(limit: u64) -> (plan: Vec<PageMapping>)
    requires
        limit <= OFFSET_WINDOW,
    ensures
        plan@.len() == offset_page_count(limit as int),
        forall|i: int| 0 <= i < plan@.len() ==> #[trigger] plan@[i] == offset_mapping(i),
        forall|p: int|
            0 <= p < limit ==> canonical(0xffff_8000_0000_0000 + p) && #[trigger] plan_maps(
                plan@,
                0xffff_8000_0000_0000 + p,
                p,
            ),
{
    let count: u64 = (limit + (GIB - 1)) / GIB;
    let mut plan: Vec<PageMapping> = Vec::new();
    let mut i: u64 = 0;
    while i < count
        invariant
            i <= count,
            count == offset_page_count(limit as int),
            count <= 0x2_0000,
            plan@.len() == i,
            forall|k: int| 0 <= k < i ==> #[trigger] plan@[k] == offset_mapping(k),
        decreases count - i,
    {
        plan.push(
            PageMapping {
                page: crate::MEM_OFFSET + i * GIB,
                frame: i * GIB,
                size: FrameSize::Size1GiB,
                flags: PageFlags { present: true, writable: true, no_execute: true },
            },
        );
        i = i + 1;
    }
    proof {
        assert forall|p: int| 0 <= p < limit implies canonical(0xffff_8000_0000_0000 + p)
            && #[trigger] plan_maps(plan@, 0xffff_8000_0000_0000 + p, p) by {
            lemma_offset_window_complete(limit as int, p);
            assert(plan@[p / 0x4000_0000] == offset_mapping(p / 0x4000_0000));
        }
    }
    plan
}

/// The mapping of the page at `BOOT_INFO_VIRT` to the frame that holds the
/// boot record: readable only.
pub fn boot_info_mapping(boot_info_phys: u64) -> (m: PageMapping)
    requires
        is_phys(boot_info_phys as int),
        boot_info_phys % 4096 == 0,
    ensures
        m == (PageMapping {
            page: crate::BOOT_INFO_VIRT,
            frame: boot_info_phys,
            size: FrameSize::Size4KiB,
            flags: PageFlags { present: true, writable: false, no_execute: true },
        }),
{
    PageMapping {
        page: crate::BOOT_INFO_VIRT,
        frame: boot_info_phys,
        size: FrameSize::Size4KiB,
        flags: PageFlags { present: true, writable: false, no_execute: true },
    }
}

/// The mapping of the page at `FRAME_TRACKER_VIRT` to the frame that holds
/// the records of the frame tracker: readable and writable.
pub fn frame_tracker_mapping(tracker_phys: u64) -> (m: PageMapping)
    requires
        is_phys(tracker_phys as int),
        tracker_phys % 4096 == 0,
    ensures
        m == (PageMapping {
            page: crate::FRAME_TRACKER_VIRT,
            frame: tracker_phys,
            size: FrameSize::Size4KiB,
            flags: PageFlags { present: true, writable: true, no_execute: true },
        }),
{
    PageMapping {
        page: crate::FRAME_TRACKER_VIRT,
        frame: tracker_phys,
        size: FrameSize::Size4KiB,
        flags: PageFlags { present: true, writable: true, no_execute: true },
    }
}

/// A page table of the x86_64 crate: 512 entries of 64 bits.
#[verifier::external_type_specification]
#[verifier::external_body]
pub struct ExPageTable(PageTable);

/// The 512 entries of a page table, as the numbers that the hardware reads.
/// An entry that is not in use is 0.
pub uninterp spec fn table_entries(table: PageTable) -> Seq<u64>;

/// `PageTableEntry::set_unused` on the entry `index` of `table`: the source
/// sets the entry to 0 and touches no other. Indexing a `PageTable` panics
/// from 512 on.
#[verifier::external_body]
pub(crate) fn clear_entry(table: &mut PageTable, index: usize)
    requires
        index < 512,
    ensures
        table_entries(*old(table)).len() == 512,
        table_entries(*final(table)) == table_entries(*old(table)).update(index as int, 0),
{
    table[index].set_unused();
}

/// Clears the entries of the top-level page table that belong to the lower
/// half of the address space, and leaves those of the higher half as they are.
///
/// The page tables below the cleared entries are not touched: they lie in
/// memory of the firmware, which is taken back as a whole later.
pub fn clear_lower_half(table: &mut PageTable)
    ensures
        table_entries(*final(table)).len() == 512,
        table_entries(*old(table)).len() == 512,
        forall|i: int| 0 <= i < 256 ==> #[trigger] table_entries(*final(table))[i] == 0,
        forall|i: int|
            256 <= i < 512 ==> #[trigger] table_entries(*final(table))[i] == table_entries(
                *old(table),
            )[i],
{
    let ghost before = table_entries(*table);
    let mut i: usize = 0;
    while i < LOWER_HALF_ENTRIES
        invariant
            i <= 256,
            i > 0 ==> table_entries(*table).len() == 512 && before.len() == 512,
            table_entries(*table).len() == before.len(),
            forall|k: int| 0 <= k < i ==> #[trigger] table_entries(*table)[k] == 0,
            forall|k: int| i <= k < 512 ==> #[trigger] table_entries(*table)[k] == before[k],
        decreases 256 - i,
    {
        clear_entry(table, i);
        i = i + 1;
    }
}

} // verus!
