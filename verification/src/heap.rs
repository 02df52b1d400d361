//! The kernel heap: which pages it takes and which frames back them.

use vstd::prelude::*;
use crate::addr::FrameSize;
use crate::kernel_alloc::{first_n, frame_free, frame_offered, KernelFrameAllocator};
use crate::memory_map::valid_memory_map;
use crate::paging::{PageFlags, PageMapping};
use crate::runs::runs_disjoint;
use crate::used_frame::FrameUsageType;

verus! {

/// Bytes of a page of the heap: 2 MiB.
pub const HEAP_PAGE: u64 = 0x20_0000;

/// The heap is mapped in batches of this many pages.
pub const HEAP_BATCH: usize = 8;

/// The number of pages of the heap.
pub const HEAP_PAGES: u64 = crate::KERNEL_HEAP_SIZE / HEAP_PAGE;

/// The mapping of the page with the number `k` of the heap to `frame`:
/// writable and closed to execution.
pub open spec fn heap_mapping(k: int, frame: u64) -> PageMapping {
    PageMapping {
        page: (0xffff_fffe_0000_0000 + k * 0x20_0000) as u64,
        frame,
        size: FrameSize::Size2MiB,
        flags: PageFlags { present: true, writable: true, no_execute: true },
    }
}

/// The number of batches in which the heap is mapped.
pub fn heap_batches() -> (n: u64)
    ensures
        n * 8 == HEAP_PAGES,
        n == 1,
{
    HEAP_PAGES / 8
}

/// Takes the frames for the batch with the number `batch` of the heap and
/// says how its eight pages are to be mapped.
///
/// The frames are the first eight free frames of 2 MiB. They are recorded as
/// kernel heap, and the tracker is merged.
pub fn map_heap_batch(alloc: &mut KernelFrameAllocator, batch: u64) -> (plan: Vec<PageMapping>)
    requires
        batch * 8 < HEAP_PAGES,
        old(alloc).wf(),
        old(alloc).free(FrameSize::Size2MiB).len() >= 8,
        old(alloc).can_batch(FrameSize::Size2MiB, 8, FrameUsageType::KernelHeap),
    ensures
        plan@.len() == 8,
        forall|j: int|
            0 <= j < 8 ==> #[trigger] plan@[j] == heap_mapping(
                batch * 8 + j,
                old(alloc).free(FrameSize::Size2MiB)[j],
            ),
        forall|j: int|
            0 <= j < 8 ==> (#[trigger] plan@[j]).frame != 0 && frame_offered(
                old(alloc).mmap@,
                0x20_0000,
                plan@[j].frame as int,
            ) && frame_free(old(alloc).frame_tracker@, 0x20_0000, plan@[j].frame as int),
        final(alloc).frame_tracker@ == old(alloc).after_batch(
            FrameSize::Size2MiB,
            8,
            FrameUsageType::KernelHeap,
        ),
        final(alloc).mmap@ == old(alloc).mmap@,
        final(alloc).frame_tracker.spec_capacity() == old(alloc).frame_tracker.spec_capacity(),
        final(alloc).frame_tracker.spec_buffer() == old(alloc).frame_tracker.spec_buffer(),
        final(alloc).wf(),
        valid_memory_map(old(alloc).mmap@) && runs_disjoint(old(alloc).frame_tracker@)
            ==> runs_disjoint(final(alloc).frame_tracker@),
{
    let ghost free = alloc.free(FrameSize::Size2MiB);
    let frames = alloc.allocate_frames_ty(
        FrameSize::Size2MiB,
        HEAP_BATCH,
        FrameUsageType::KernelHeap,
    );
    let mut plan: Vec<PageMapping> = Vec::new();
    let mut j: usize = 0;
    while j < HEAP_BATCH
        invariant
            j <= 8,
            batch * 8 < HEAP_PAGES,
            frames@ == first_n(free, 8),
            free.len() >= 8,
            plan@.len() == j,
            forall|k: int|
                0 <= k < j ==> #[trigger] plan@[k] == heap_mapping(batch * 8 + k, free[k]),
        decreases 8 - j,
    {
        let frame: u64 = frames[j];
        plan.push(
            PageMapping {
                page: crate::KERNEL_HEAP_VIRT + (batch * 8 + j as u64) * HEAP_PAGE,
                frame,
                size: FrameSize::Size2MiB,
                flags: PageFlags { present: true, writable: true, no_execute: true },
            },
        );
        j = j + 1;
    }
    proof {
        assert forall|k: int| 0 <= k < 8 implies (#[trigger] plan@[k]).frame != 0 && frame_offered(
            old(alloc).mmap@,
            0x20_0000,
            plan@[k].frame as int,
        ) && frame_free(old(alloc).frame_tracker@, 0x20_0000, plan@[k].frame as int) by {
            assert(frames@[k] == free[k]);
        }
    }
    plan
}

} // verus!
