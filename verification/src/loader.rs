//! Loading the kernel: which frame backs which page of a segment, and what
//! the memory of a loaded segment holds.

use vstd::prelude::*;
use crate::addr::FrameSize;
use crate::boot_alloc::BootFrameAllocator;
use crate::elf::ProgramHeader;
use crate::paging::{first_page, page_count, segment_flags_spec, segment_mapping, PageMapping};
use crate::used_frame::{FrameUsageType, UsedFrame};

verus! {

/// What the memory of the loaded segment `ph` holds, from its first byte to
/// its last: the bytes that the image has for it, then zeros.
pub open spec fn segment_image(image: Seq<u8>, ph: ProgramHeader) -> Seq<u8> {
    image.subrange(ph.offset as int, ph.offset + ph.file_size) + Seq::new(
        (ph.mem_size - ph.file_size) as nat,
        |i: int| 0u8,
    )
}

/// Fills `dst`, the memory of the segment `ph`, from `image`: the bytes of
/// the segment in the file come first, and the rest of `dst` is set to zero.
pub fn load_segment(dst: &mut [u8], image: &[u8], ph: &ProgramHeader)
    requires
        old(dst)@.len() == ph.mem_size,
        ph.offset + ph.file_size <= image@.len(),
        ph.file_size <= ph.mem_size,
    ensures
        final(dst)@ == segment_image(image@, *ph),
        final(dst)@.len() == ph.mem_size,
        forall|i: int| 0 <= i < ph.file_size ==> final(dst)@[i] == image@[ph.offset + i],
        forall|i: int| ph.file_size <= i < ph.mem_size ==> final(dst)@[i] == 0,
{
    let len: usize = dst.len();
    let image_len: usize = image.len();
    let file_size: usize = ph.file_size as usize;
    let offset: usize = ph.offset as usize;
    let mut i: usize = 0;
    while i < file_size
        invariant
            i <= file_size <= len,
            len == dst@.len(),
            file_size == ph.file_size,
            offset == ph.offset,
            image_len == image@.len(),
            offset + file_size <= image_len,
            forall|k: int| 0 <= k < i ==> dst@[k] == image@[offset + k],
        decreases file_size - i,
    {
        dst[i] = image[offset + i];
        i = i + 1;
    }
    while i < len
        invariant
            file_size <= i <= len,
            len == dst@.len(),
            file_size == ph.file_size,
            offset == ph.offset,
            offset + file_size <= image@.len(),
            forall|k: int| 0 <= k < file_size ==> dst@[k] == image@[offset + k],
            forall|k: int| file_size <= k < i ==> dst@[k] == 0,
        decreases len - i,
    {
        dst[i] = 0;
        i = i + 1;
    }
}

/// Takes a frame for the page with the number `k` of the segment `ph` and
/// says how the page is to be mapped: to that frame, with the flags of the
/// segment. The frame is recorded as kernel code. Returns `None` when the
/// memory map offers no more frames.
pub fn map_segment_page(alloc: &mut BootFrameAllocator, ph: &ProgramHeader, k: u64) -> (m: Option<
    PageMapping,
>)
    requires
        old(alloc).wf(),
        old(alloc).can_allocate(),
        ph.virt_addr + ph.mem_size <= u64::MAX,
        k < page_count(*ph),
    ensures
        m == match old(alloc).next() {
            Some(f) => Some(
                PageMapping {
                    page: (first_page(*ph) + 4096 * k) as u64,
                    frame: f,
                    size: FrameSize::Size4KiB,
                    flags: segment_flags_spec(ph.flags),
                },
            ),
            None => None,
        },
        final(alloc).next_frame == old(alloc).next_frame + 1,
        final(alloc).mmap@ == old(alloc).mmap@,
        final(alloc).frame_tracker@ == match old(alloc).next() {
            Some(f) => old(alloc).frame_tracker@.push(
                UsedFrame { frame: f, count: 1, ty: FrameUsageType::KernelCode },
            ),
            None => old(alloc).frame_tracker@,
        },
        final(alloc).frame_tracker.spec_capacity() == old(alloc).frame_tracker.spec_capacity(),
        final(alloc).frame_tracker.spec_buffer() == old(alloc).frame_tracker.spec_buffer(),
        final(alloc).wf(),
        old(alloc).consistent() ==> final(alloc).consistent(),
{
    match alloc.allocate_frame_ty(FrameUsageType::KernelCode) {
        Some(frame) => Some(segment_mapping(ph, k, frame)),
        None => None,
    }
}

} // verus!
