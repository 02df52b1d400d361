//! What the loader hands to the kernel: the boot record, whose addresses
//! all lie in the higher half, and the way from a physical address to the
//! address at which the kernel reaches it.

use vstd::prelude::*;
use crate::framebuffer::ModeInfo;

verus! {

/// The most that a physical address can be for `MEM_OFFSET` plus the
/// address to fit in 64 bits.
pub const HIGHER_HALF_MAX: u64 = 0x0000_7fff_ffff_ffff;

/// The address at which the kernel reaches the physical address `phys`.
pub open spec fn higher_half_spec(phys: int) -> int {
    0xffff_8000_0000_0000 + phys
}

/// The address at which the kernel reaches the physical address `phys`:
/// `MEM_OFFSET` plus `phys`.
pub fn higher_half(phys: u64) -> (virt: u64)
    requires
        phys <= HIGHER_HALF_MAX,
    ensures
        virt == higher_half_spec(phys as int),
        virt >= crate::MEM_OFFSET,
{
    crate::MEM_OFFSET + phys
}

/// The boot record, which the loader leaves in the page at `BOOT_INFO_VIRT`.
#[derive(Debug, Clone, Copy, PartialEq, Eq, Structural)]
pub struct BootInfo {
    /// Where the memory map lies, as an address of the higher half.
    pub mmap_addr: u64,
    /// The number of entries of the memory map.
    pub mmap_len: usize,
    /// The graphics mode that the firmware has set.
    pub graphics_mode_info: ModeInfo,
    /// Where the framebuffer lies, as an address of the higher half.
    pub graphics_output: u64,
    /// The physical address of the root table of ACPI.
    pub rsdp: u64,
}

impl BootInfo {
    /// The boot record for a memory map of `mmap_len` entries at the
    /// physical address `mmap_phys`, the framebuffer at the physical address
    /// `framebuffer_phys` and the ACPI root table at `rsdp`.
    ///
    /// The memory map and the framebuffer stay where they are; the record
    /// holds the addresses at which the kernel reaches them.
    pub fn new(
        mmap_phys: u64,
        mmap_len: usize,
        graphics_mode_info: ModeInfo,
        framebuffer_phys: u64,
        rsdp: u64,
    ) -> (info: BootInfo)
        requires
            mmap_phys <= HIGHER_HALF_MAX,
            framebuffer_phys <= HIGHER_HALF_MAX,
        ensures
            info == (BootInfo {
                mmap_addr: higher_half_spec(mmap_phys as int) as u64,
                mmap_len,
                graphics_mode_info,
                graphics_output: higher_half_spec(framebuffer_phys as int) as u64,
                rsdp,
            }),
    {
        BootInfo {
            mmap_addr: higher_half(mmap_phys),
            mmap_len,
            graphics_mode_info,
            graphics_output: higher_half(framebuffer_phys),
            rsdp,
        }
    }
}

/// The identifier of the root table of ACPI from version 2.0 on, in the
/// configuration table of the firmware: the sixteen bytes of the
/// identifier, read as one number with the lowest byte first.
pub const ACPI2_GUID: u128 = 0x8188_3cc7_8000_22bc_11d3_e4f1_8868_e871;

/// One entry of the configuration table of the firmware.
#[derive(Debug, Clone, Copy, PartialEq, Eq, Structural)]
pub struct ConfigEntry {
    /// What the entry points to.
    pub guid: u128,
    /// Where that lies.
    pub address: u64,
}

/// The address of the root table of ACPI: that of the first entry of the
/// configuration table with the identifier of ACPI 2.0, if there is one.
pub fn find_rsdp(entries: &[ConfigEntry]) -> (rsdp: Option<u64>)
    ensures
        match rsdp {
            Some(a) => exists|i: int|
                0 <= i < entries@.len() && (#[trigger] entries@[i]).guid == ACPI2_GUID
                    && entries@[i].address == a && forall|k: int|
                    0 <= k < i ==> (#[trigger] entries@[k]).guid != ACPI2_GUID,
            None => forall|i: int|
                0 <= i < entries@.len() ==> (#[trigger] entries@[i]).guid != ACPI2_GUID,
        },
{
    let mut i: usize = 0;
    while i < entries.len()
        invariant
            i <= entries.len(),
            forall|k: int| 0 <= k < i ==> (#[trigger] entries@[k]).guid != ACPI2_GUID,
        decreases entries.len() - i,
    {
        if entries[i].guid == ACPI2_GUID {
            return Some(entries[i].address);
        }
        i = i + 1;
    }
    None
}

/// A stretch of physical memory and the address at which it is reached.
#[derive(Debug, Clone, Copy, PartialEq, Eq, Structural)]
pub struct PhysicalRegion {
    /// The physical address at which the stretch starts.
    pub physical_start: u64,
    /// The virtual address at which the stretch starts.
    pub virtual_start: u64,
    /// The number of bytes asked for.
    pub region_length: u64,
    /// The number of bytes that are mapped.
    pub mapped_length: u64,
}

/// Gives the tables of ACPI their memory. All physical memory is mapped at
/// `MEM_OFFSET` already, so nothing is mapped and nothing unmapped.
#[derive(Debug, Clone, Copy, PartialEq, Eq, Structural)]
pub struct Mapper;

impl Mapper {
    /// The `size` bytes at the physical address `physical_address`, as they
    /// lie in the window at `MEM_OFFSET`.
    pub fn map_physical_region(&self, physical_address: u64, size: u64) -> (region: PhysicalRegion)
        requires
            physical_address <= HIGHER_HALF_MAX,
        ensures
            region == (PhysicalRegion {
                physical_start: physical_address,
                virtual_start: higher_half_spec(physical_address as int) as u64,
                region_length: size,
                mapped_length: size,
            }),
    {
        PhysicalRegion {
            physical_start: physical_address,
            virtual_start: higher_half(physical_address),
            region_length: size,
            mapped_length: size,
        }
    }

    /// Gives a region back. There is nothing to undo.
    pub fn unmap_physical_region(&self, region: &PhysicalRegion) {
    }
}

} // verus!
