use uefi_kernel::boot_alloc::BootFrameAllocator;
use uefi_kernel::memory_map::{MemoryRegion, BOOT_SERVICES_DATA, CONVENTIONAL, RESERVED};
use uefi_kernel::used_frame::{FrameUsageType, UsedFrame};

fn region(ty: u32, phys_start: u64, page_count: u64) -> MemoryRegion {
    MemoryRegion { ty, phys_start, page_count }
}

fn run(frame: u64, count: u32, ty: FrameUsageType) -> UsedFrame {
    UsedFrame { frame, count, ty }
}

#[test]
fn new_allocator_records_the_page_of_its_tracker() {
    let map = [region(CONVENTIONAL, 0, 4), region(CONVENTIONAL, 0x10_0000, 2)];
    let alloc = BootFrameAllocator::new(&map, 0);
    assert_eq!(alloc.next_frame, 1);
    assert_eq!(alloc.frame_tracker.buffer(), 0x1000);
    assert_eq!(alloc.frame_tracker.capacity(), 256);
    assert_eq!(
        alloc.frame_tracker.as_ref(),
        &[run(0x1000, 1, FrameUsageType::FrameUsageBuffer)]
    );
}

#[test]
fn tracker_lies_at_the_offset_of_its_frame() {
    let map = [region(RESERVED, 0, 16), region(BOOT_SERVICES_DATA, 0x8000, 2)];
    let alloc = BootFrameAllocator::new(&map, 0xffff_8000_0000_0000);
    assert_eq!(alloc.frame_tracker.buffer(), 0xffff_8000_0000_8000);
    assert_eq!(
        alloc.frame_tracker.as_ref(),
        &[run(0x8000, 1, FrameUsageType::FrameUsageBuffer)]
    );
}

#[test]
fn allocate_frame_hands_out_the_frames_in_order_as_unknown() {
    let map = [region(CONVENTIONAL, 0, 4), region(CONVENTIONAL, 0x10_0000, 2)];
    let mut alloc = BootFrameAllocator::new(&map, 0);
    assert_eq!(alloc.allocate_frame(), Some(0x2000));
    assert_eq!(alloc.allocate_frame(), Some(0x3000));
    assert_eq!(alloc.allocate_frame(), Some(0x10_0000));
    assert_eq!(alloc.next_frame, 4);
    assert_eq!(
        alloc.frame_tracker.as_ref(),
        &[
            run(0x1000, 1, FrameUsageType::FrameUsageBuffer),
            run(0x2000, 1, FrameUsageType::Unknown),
            run(0x3000, 1, FrameUsageType::Unknown),
            run(0x10_0000, 1, FrameUsageType::Unknown),
        ]
    );
}

#[test]
fn allocate_frame_ty_records_the_tag() {
    let map = [region(CONVENTIONAL, 0x4000, 8)];
    let mut alloc = BootFrameAllocator::new(&map, 0);
    assert_eq!(alloc.allocate_frame_ty(FrameUsageType::KernelCode), Some(0x5000));
    assert_eq!(alloc.allocate_frame_ty(FrameUsageType::KernelCode), Some(0x6000));
    assert_eq!(alloc.allocate_frame_ty(FrameUsageType::PageTable), Some(0x7000));
    alloc.frame_tracker.merge_all();
    assert_eq!(
        alloc.frame_tracker.as_ref(),
        &[
            run(0x4000, 1, FrameUsageType::FrameUsageBuffer),
            run(0x5000, 2, FrameUsageType::KernelCode),
            run(0x7000, 1, FrameUsageType::PageTable),
        ]
    );
}

#[test]
fn allocation_ends_when_the_map_is_used_up() {
    let map = [region(CONVENTIONAL, 0x4000, 2)];
    let mut alloc = BootFrameAllocator::new(&map, 0);
    assert_eq!(alloc.allocate_frame(), Some(0x5000));
    assert_eq!(alloc.allocate_frame(), None);
    assert_eq!(alloc.allocate_frame_ty(FrameUsageType::KernelHeap), None);
    assert_eq!(alloc.next_frame, 4);
    assert_eq!(alloc.frame_tracker.len(), 2);
}

#[test]
fn successive_allocations_are_distinct_usable_and_not_zero() {
    let map = [
        region(CONVENTIONAL, 0, 6),
        region(RESERVED, 0x6000, 4),
        region(BOOT_SERVICES_DATA, 0xa000, 5),
    ];
    let mut alloc = BootFrameAllocator::new(&map, 0);
    let mut seen = vec![alloc.frame_tracker.as_ref()[0].frame];
    while let Some(frame) = alloc.allocate_frame() {
        assert_ne!(frame, 0);
        assert!(!seen.contains(&frame));
        assert!(map.iter().any(|r| r.usable()
            && r.phys_start <= frame
            && frame + 4096 <= r.phys_start + r.page_count * 4096));
        seen.push(frame);
    }
    assert_eq!(seen.len(), 10);
    let runs = alloc.frame_tracker.as_ref();
    for (i, a) in runs.iter().enumerate() {
        for b in &runs[i + 1..] {
            assert!(a.frame + a.count as u64 * 4096 <= b.frame || b.frame + b.count as u64 * 4096 <= a.frame);
        }
    }
}

#[test]
fn loader_turns_unknown_frames_into_page_tables_before_handoff() {
    let map = [region(CONVENTIONAL, 0x1000, 16)];
    let mut alloc = BootFrameAllocator::new(&map, 0);
    alloc.allocate_frame_ty(FrameUsageType::KernelCode);
    alloc.allocate_frame();
    alloc.allocate_frame();
    alloc.allocate_frame_ty(FrameUsageType::KernelCode);
    alloc.frame_tracker.reclassify_unknown(FrameUsageType::PageTable);
    alloc.frame_tracker.merge_all();
    assert_eq!(
        alloc.frame_tracker.as_ref(),
        &[
            run(0x1000, 1, FrameUsageType::FrameUsageBuffer),
            run(0x2000, 1, FrameUsageType::KernelCode),
            run(0x3000, 2, FrameUsageType::PageTable),
            run(0x5000, 1, FrameUsageType::KernelCode),
        ]
    );
    assert_eq!(alloc.frame_tracker.len(), 4);
}

#[test]
fn try_new_makes_the_allocator_where_new_can() {
    let map = [region(CONVENTIONAL, 0, 4)];
    let alloc = BootFrameAllocator::try_new(&map, 0xffff_8000_0000_0000).unwrap();
    assert_eq!(alloc.frame_tracker.buffer(), 0xffff_8000_0000_1000);
    assert_eq!(alloc.next_frame, 1);
    assert_eq!(alloc.frame_tracker.as_ref(), &[run(0x1000, 1, FrameUsageType::FrameUsageBuffer)]);
}

#[test]
fn try_new_refuses_a_map_without_frames() {
    assert!(BootFrameAllocator::try_new(&[], 0).is_none());
    assert!(BootFrameAllocator::try_new(&[region(RESERVED, 0x1000, 8)], 0).is_none());
    assert!(BootFrameAllocator::try_new(&[region(CONVENTIONAL, 0, 1)], 0).is_none());
}

#[test]
fn try_new_refuses_addresses_that_are_not_canonical() {
    let map = [region(CONVENTIONAL, 0x1000, 4)];
    assert!(BootFrameAllocator::try_new(&map, 0x0000_8000_0000_0000).is_none());
    assert!(BootFrameAllocator::try_new(&map, 0xfffe_8000_0000_0000).is_none());
    assert!(BootFrameAllocator::try_new(&map, 0x0000_7fff_ffff_f000).is_none());
    assert!(BootFrameAllocator::try_new(&map, 0xffff_ffff_ffff_f000).is_none());
    assert!(BootFrameAllocator::try_new(&map, 0x0000_7fff_ffff_e000).is_some());
    assert!(BootFrameAllocator::try_new(&map, 0xffff_ffff_ffff_e000).is_some());
}

#[test]
fn try_new_refuses_usable_regions_out_of_bounds() {
    let map = [region(CONVENTIONAL, 0x1000, 4), region(CONVENTIONAL, 0x000f_ffff_ffff_f000, 2)];
    assert!(BootFrameAllocator::try_new(&map, 0).is_none());
}

#[test]
fn allocation_needs_room_in_the_tracker() {
    let map = [region(CONVENTIONAL, 0x1000, 300)];
    let mut alloc = BootFrameAllocator::new(&map, 0);
    let mut made = 0;
    while alloc.can_allocate_next() {
        assert!(alloc.allocate_frame().is_some());
        made += 1;
    }
    assert_eq!(made, 255);
    assert_eq!(alloc.frame_tracker.len(), 256);
    alloc.frame_tracker.reclassify_unknown(FrameUsageType::PageTable);
    alloc.frame_tracker.merge_all();
    assert_eq!(alloc.frame_tracker.len(), 2);
    assert!(alloc.can_allocate_next());
}

#[test]
fn allocation_past_the_end_of_the_map_needs_no_room() {
    let map = [region(CONVENTIONAL, 0x1000, 1)];
    let mut alloc = BootFrameAllocator::new(&map, 0);
    assert!(alloc.can_allocate_next());
    assert_eq!(alloc.allocate_frame(), None);
    alloc.next_frame = usize::MAX;
    assert!(!alloc.can_allocate_next());
}
