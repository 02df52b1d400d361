//! Early physical-memory management and the handoff from an x86_64 UEFI
//! loader to the kernel that it starts.
//!
//! The loader and the kernel share the layout of the address space given by
//! the constants below, the inventory of used physical frames in
//! [`frame_alloc`], and the boot record in [`handoff`]. What the loader does
//! on its way to the kernel is laid down in [`boot_sequence`], and what the
//! kernel does first in [`bringup`].

use vstd::prelude::*;

pub mod addr;
pub mod batch;
pub mod boot_alloc;
pub mod boot_sequence;
pub mod bringup;
pub mod console;
pub mod elf;
pub mod frame_alloc;
pub mod frame_tracker;
pub mod framebuffer;
pub mod handoff;
pub mod heap;
pub mod image_layout;
pub mod kernel_alloc;
pub mod loader;
pub mod memory_map;
pub mod paging;
pub mod runs;
pub mod used_frame;

pub use crate::handoff::BootInfo;

verus! {

/// Size of the smallest page and of a physical frame, in bytes.
pub const PAGE_SIZE: u64 = 4096;

/// First address past the physical address space: physical addresses have 52 bits.
pub const PHYS_ADDR_LIMIT: u64 = 0x0010_0000_0000_0000;

/// Start of the window through which all physical memory is reachable.
/// It is aligned to 1 GiB.
pub const MEM_OFFSET: u64 = 0xffff_8000_0000_0000;

/// The one page that holds the boot record.
pub const BOOT_INFO_VIRT: u64 = 0xffff_ffff_0000_0000;

/// The one page that holds the records of the frame tracker.
pub const FRAME_TRACKER_VIRT: u64 = 0xffff_ffff_0000_1000;

/// Start of the kernel heap.
pub const KERNEL_HEAP_VIRT: u64 = 0xffff_fffe_0000_0000;

/// Size of the kernel heap in bytes, a multiple of 16 MiB.
pub const KERNEL_HEAP_SIZE: u64 = 16 * 1024 * 1024;

/// Last address of the lower half, which the firmware maps one to one.
pub const USER_SPACE_VIRT_END: u64 = 0x0000_7fff_ffff_ffff;

/// Lowest address at which the kernel image may be linked.
pub const KERNEL_VIRT: u64 = 0xffff_ffff_8000_0000;

} // verus!
