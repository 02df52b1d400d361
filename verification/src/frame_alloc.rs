//! Frame allocation as the loader and the kernel use it: the tracker, the
//! two allocators and the memory map, under one path.

pub use crate::boot_alloc::BootFrameAllocator;
pub use crate::frame_tracker::FrameTrackerArray;
pub use crate::kernel_alloc::KernelFrameAllocator;
pub use crate::memory_map::{max_phys_addr, MemoryRegion};
pub use crate::used_frame::{FrameUsageType, UsedFrame};
