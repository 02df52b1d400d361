use uefi::boot::MemoryType;
use uefi_kernel::boot_alloc::BootFrameAllocator;
use uefi_kernel::memory_map::{
    max_phys_addr, usable_frame_at, MemoryRegion, BOOT_SERVICES_CODE, BOOT_SERVICES_DATA,
    CONVENTIONAL, MMIO, RESERVED,
};
use uefi_kernel::memory_map::{
    checked_max_phys_addr, usable_regions_in_bounds, MEMORY_TYPE_MAX, MMIO_PORT_SPACE, UNACCEPTED,
};

fn region(ty: u32, phys_start: u64, page_count: u64) -> MemoryRegion {
    MemoryRegion { ty, phys_start, page_count }
}

#[test]
fn usable_frames_leave_out_the_zero_frame() {
    let map = [region(CONVENTIONAL, 0, 16)];
    let frames = BootFrameAllocator::usable_frames(&map);
    let expected: Vec<u64> = (1..16).map(|k| k * 0x1000).collect();
    assert_eq!(frames.len(), 15);
    assert_eq!(frames, expected);
}

#[test]
fn max_phys_addr_is_at_least_four_gib() {
    let map = [region(CONVENTIONAL, 0, 32)];
    assert_eq!(max_phys_addr(&map), 0x1_0000_0000);
}

#[test]
fn max_phys_addr_is_the_highest_end_above_four_gib() {
    let map = [
        region(CONVENTIONAL, 0x1000, 16),
        region(RESERVED, 0x1_0000_0000, 0x10_0000),
        region(MMIO, 0xfee0_0000, 1),
    ];
    assert_eq!(max_phys_addr(&map), 0x2_0000_0000);
}

#[test]
fn max_phys_addr_counts_regions_of_every_type() {
    let map = [region(CONVENTIONAL, 0, 32), region(0x8000_0000, 0x2_0000_0000, 1)];
    assert_eq!(max_phys_addr(&map), 0x2_0000_1000);
    let map = [
        region(CONVENTIONAL, 0x1000, 16),
        region(0x8000_0001, 0x7000_0000_0000, 16),
        region(0x10, 0x6000_0000_0000, 16),
        region(0xf, 0x2_0000_0000, 1),
    ];
    assert_eq!(max_phys_addr(&map), 0x7000_0001_0000);
    assert_eq!(max_phys_addr(&[region(0x7000_0000, 0, 1)]), 0x1_0000_0000);
}

#[test]
fn usable_frames_come_from_free_and_boot_services_memory() {
    let map = [
        region(RESERVED, 0x1000, 4),
        region(BOOT_SERVICES_CODE, 0x1_0000, 2),
        region(MMIO, 0x2_0000, 8),
        region(CONVENTIONAL, 0x10_0000, 3),
        region(1, 0x20_0000, 2),
        region(2, 0x21_0000, 2),
        region(BOOT_SERVICES_DATA, 0x30_0000, 1),
    ];
    assert_eq!(
        BootFrameAllocator::usable_frames(&map),
        vec![0x1_0000, 0x1_1000, 0x10_0000, 0x10_1000, 0x10_2000, 0x30_0000]
    );
}

#[test]
fn usable_frames_of_an_empty_map_or_empty_regions() {
    assert!(BootFrameAllocator::usable_frames(&[]).is_empty());
    let map = [region(CONVENTIONAL, 0x5000, 0), region(CONVENTIONAL, 0, 0), region(CONVENTIONAL, 0, 1)];
    assert!(BootFrameAllocator::usable_frames(&map).is_empty());
}

#[test]
fn a_region_that_starts_off_a_boundary_gives_the_frames_of_its_pages() {
    let map = [region(CONVENTIONAL, 0x1800, 3)];
    assert_eq!(BootFrameAllocator::usable_frames(&map), vec![0x1000, 0x2000, 0x3000]);
    assert_eq!(usable_frame_at(&map, 2), Some(0x3000));
}

#[test]
fn usable_frame_at_counts_over_all_regions() {
    let map = [
        region(CONVENTIONAL, 0, 3),
        region(RESERVED, 0x10_0000, 100),
        region(CONVENTIONAL, 0x20_0000, 2),
    ];
    assert_eq!(usable_frame_at(&map, 0), Some(0x1000));
    assert_eq!(usable_frame_at(&map, 1), Some(0x2000));
    assert_eq!(usable_frame_at(&map, 2), Some(0x20_0000));
    assert_eq!(usable_frame_at(&map, 3), Some(0x20_1000));
    assert_eq!(usable_frame_at(&map, 4), None);
    assert_eq!(usable_frame_at(&map, usize::MAX), None);
}

#[test]
fn usable_frames_of_a_valid_map_are_distinct_and_not_zero() {
    let map = [
        region(CONVENTIONAL, 0, 5),
        region(BOOT_SERVICES_DATA, 0x5000, 3),
        region(CONVENTIONAL, 0x10_0000, 4),
    ];
    let frames = BootFrameAllocator::usable_frames(&map);
    assert_eq!(frames.len(), 11);
    for (i, a) in frames.iter().enumerate() {
        assert_ne!(*a, 0);
        assert_eq!(*a % 4096, 0);
        assert!(map.iter().any(|r| r.phys_start <= *a && *a + 4096 <= r.phys_start + r.page_count * 4096));
        for b in &frames[i + 1..] {
            assert_ne!(a, b);
        }
    }
}

#[test]
fn region_usable_goes_by_type() {
    assert!(region(CONVENTIONAL, 0, 1).usable());
    assert!(region(BOOT_SERVICES_CODE, 0, 1).usable());
    assert!(region(BOOT_SERVICES_DATA, 0, 1).usable());
    assert!(!region(RESERVED, 0, 1).usable());
    assert!(!region(MMIO, 0, 1).usable());
    assert!(!region(1, 0, 1).usable());
}

#[test]
fn checked_max_phys_addr_wants_a_region_and_ends_that_fit() {
    assert_eq!(checked_max_phys_addr(&[]), None);
    assert_eq!(
        checked_max_phys_addr(&[region(0x10, 0, 1), region(0x7000_0000, 0x1000, 4)]),
        Some(0x1_0000_0000)
    );
    assert_eq!(
        checked_max_phys_addr(&[region(CONVENTIONAL, 0, 32), region(0x8000_0000, 0x2_0000_0000, 1)]),
        Some(0x2_0000_1000)
    );
    assert_eq!(checked_max_phys_addr(&[region(CONVENTIONAL, 0, 32)]), Some(0x1_0000_0000));
    assert_eq!(checked_max_phys_addr(&[region(0, 0x1_0000_0000, 1)]), Some(0x1_0000_1000));
    assert_eq!(
        checked_max_phys_addr(&[region(CONVENTIONAL, 0, 32), region(RESERVED, u64::MAX - 4095, 1)]),
        None
    );
    assert_eq!(
        checked_max_phys_addr(&[region(RESERVED, u64::MAX - 4095 - 4096, 1)]),
        Some(u64::MAX - 4095)
    );
    assert_eq!(checked_max_phys_addr(&[region(MMIO, 0, u64::MAX)]), None);
    assert_eq!(
        checked_max_phys_addr(&[region(CONVENTIONAL, 0, 32), region(0x8000_0000, u64::MAX, u64::MAX)]),
        None
    );
    assert_eq!(
        checked_max_phys_addr(&[region(0x8000_0000, u64::MAX - 4095 - 4096, 1)]),
        Some(u64::MAX - 4095)
    );
}

#[test]
fn a_region_that_starts_in_the_zero_frame_does_not_offer_it() {
    assert!(BootFrameAllocator::usable_frames(&[region(CONVENTIONAL, 0x800, 1)]).is_empty());
    assert_eq!(usable_frame_at(&[region(CONVENTIONAL, 0x800, 1)], 0), None);
    let map = [region(CONVENTIONAL, 0x800, 3), region(BOOT_SERVICES_DATA, 0xfff, 2)];
    assert_eq!(BootFrameAllocator::usable_frames(&map), vec![0x1000, 0x2000, 0x1000]);
    assert_eq!(usable_frame_at(&map, 0), Some(0x1000));
    assert_eq!(usable_frame_at(&map, 2), Some(0x1000));
    assert_eq!(usable_frame_at(&map, 3), None);
    assert_eq!(BootFrameAllocator::usable_frames(&[region(CONVENTIONAL, 0x1000, 1)]), vec![0x1000]);
}

#[test]
fn usable_regions_must_lie_in_the_physical_address_space() {
    assert!(usable_regions_in_bounds(&[]));
    assert!(usable_regions_in_bounds(&[region(CONVENTIONAL, 0x000f_ffff_ffff_f000, 1)]));
    assert!(!usable_regions_in_bounds(&[region(CONVENTIONAL, 0x000f_ffff_ffff_f000, 2)]));
    assert!(!usable_regions_in_bounds(&[region(CONVENTIONAL, 0, 1), region(BOOT_SERVICES_DATA, 0, u64::MAX)]));
    assert!(usable_regions_in_bounds(&[region(RESERVED, u64::MAX, u64::MAX)]));
    assert!(usable_regions_in_bounds(&[region(CONVENTIONAL, 0, 0x100_0000_0000)]));
    assert!(!usable_regions_in_bounds(&[region(CONVENTIONAL, 0x1000, 0x100_0000_0000)]));
}

#[test]
fn memory_types_are_those_of_the_firmware_interface() {
    assert_eq!(RESERVED, MemoryType::RESERVED.0);
    assert_eq!(BOOT_SERVICES_CODE, MemoryType::BOOT_SERVICES_CODE.0);
    assert_eq!(BOOT_SERVICES_DATA, MemoryType::BOOT_SERVICES_DATA.0);
    assert_eq!(CONVENTIONAL, MemoryType::CONVENTIONAL.0);
    assert_eq!(MMIO, MemoryType::MMIO.0);
    assert_eq!(MMIO_PORT_SPACE, MemoryType::MMIO_PORT_SPACE.0);
    assert_eq!(UNACCEPTED, MemoryType::UNACCEPTED.0);
    assert_eq!(MEMORY_TYPE_MAX, MemoryType::MAX.0);
}
