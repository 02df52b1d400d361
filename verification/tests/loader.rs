use uefi_kernel::addr::FrameSize;
use uefi_kernel::boot_alloc::BootFrameAllocator;
use uefi_kernel::elf::{ProgramHeader, PT_LOAD};
use uefi_kernel::loader::{load_segment, map_segment_page};
use uefi_kernel::memory_map::{MemoryRegion, CONVENTIONAL};
use uefi_kernel::paging::{segment_flags, segment_mapping, segment_pages, PageFlags, PageMapping};
use uefi_kernel::used_frame::{FrameUsageType, UsedFrame};

const KERNEL: u64 = 0xffff_ffff_8000_0000;

fn segment(flags: u32, offset: u64, virt_addr: u64, file_size: u64, mem_size: u64) -> ProgramHeader {
    ProgramHeader { ty: PT_LOAD, flags, offset, virt_addr, file_size, mem_size }
}

#[test]
fn loaded_segment_holds_its_file_bytes_then_zeros() {
    let image: Vec<u8> = (0..0x1800u32).map(|i| (i % 251) as u8 + 1).collect();
    let ph = segment(5, 0x200, KERNEL, 0x1500, 0x2000);
    let mut memory = vec![0xaau8; 0x2000];
    load_segment(&mut memory, &image, &ph);
    assert_eq!(&memory[..0x1500], &image[0x200..0x1700]);
    assert_eq!(memory[0x1500..].len(), 0xb00);
    assert!(memory[0x1500..].iter().all(|b| *b == 0));
}

#[test]
fn segment_without_bss_is_a_copy_of_its_file_bytes() {
    let image: Vec<u8> = (0..64u8).collect();
    let mut memory = vec![0xffu8; 16];
    load_segment(&mut memory, &image, &segment(4, 48, KERNEL, 16, 16));
    assert_eq!(&memory[..], &image[48..64]);
}

#[test]
fn segment_without_file_bytes_is_all_zero() {
    let image = [1u8, 2, 3];
    let mut memory = vec![0xffu8; 32];
    load_segment(&mut memory, &image, &segment(6, 3, KERNEL, 0, 32));
    assert_eq!(memory, vec![0u8; 32]);
    let mut nothing: Vec<u8> = Vec::new();
    load_segment(&mut nothing, &image, &segment(6, 0, KERNEL, 0, 0));
    assert!(nothing.is_empty());
}

#[test]
fn segment_flags_follow_the_elf_flags() {
    let flags = |f: u32| segment_flags(&segment(f, 0, KERNEL, 0, 0));
    assert_eq!(flags(4), PageFlags { present: true, writable: false, no_execute: true });
    assert_eq!(flags(5), PageFlags { present: true, writable: false, no_execute: false });
    assert_eq!(flags(6), PageFlags { present: true, writable: true, no_execute: true });
    assert_eq!(flags(7), PageFlags { present: true, writable: true, no_execute: false });
    assert_eq!(flags(0), PageFlags { present: true, writable: false, no_execute: true });
    assert_eq!(flags(0xffff_fffc), PageFlags { present: true, writable: false, no_execute: true });
    assert_eq!(flags(0xffff_ffff), PageFlags { present: true, writable: true, no_execute: false });
}

#[test]
fn segment_pages_are_those_that_hold_a_byte() {
    assert_eq!(segment_pages(&segment(5, 0, KERNEL, 0, 0x2000)), (KERNEL, 2));
    assert_eq!(segment_pages(&segment(5, 0, KERNEL, 0, 0x2001)), (KERNEL, 3));
    assert_eq!(segment_pages(&segment(5, 0, KERNEL, 0, 1)), (KERNEL, 1));
    assert_eq!(segment_pages(&segment(5, 0, KERNEL + 0xfff, 0, 1)), (KERNEL, 1));
    assert_eq!(segment_pages(&segment(5, 0, KERNEL + 0xfff, 0, 2)), (KERNEL, 2));
    assert_eq!(segment_pages(&segment(5, 0, KERNEL + 0x1234, 0, 0x3000)), (KERNEL + 0x1000, 4));
    assert_eq!(segment_pages(&segment(5, 0, KERNEL + 0x1234, 0, 0)), (KERNEL + 0x1000, 0));
    assert_eq!(
        segment_pages(&segment(5, 0, 0xffff_ffff_ffff_f000, 0, 0xfff)),
        (0xffff_ffff_ffff_f000, 1)
    );
}

#[test]
fn segment_mapping_names_page_frame_and_flags() {
    let ph = segment(6, 0, KERNEL + 0x2010, 0, 0x3000);
    assert_eq!(
        segment_mapping(&ph, 2, 0x7000),
        PageMapping {
            page: KERNEL + 0x4000,
            frame: 0x7000,
            size: FrameSize::Size4KiB,
            flags: PageFlags { present: true, writable: true, no_execute: true },
        }
    );
}

#[test]
fn each_segment_page_gets_a_fresh_frame_of_kernel_code() {
    let map = [MemoryRegion { ty: CONVENTIONAL, phys_start: 0, page_count: 16 }];
    let mut alloc = BootFrameAllocator::new(&map, 0);
    let ph = segment(5, 0x200, KERNEL, 0x1500, 0x2000);
    let (first, count) = segment_pages(&ph);
    assert_eq!(count, 2);
    let mut plan = Vec::new();
    for k in 0..count {
        plan.push(map_segment_page(&mut alloc, &ph, k).unwrap());
    }
    let flags = PageFlags { present: true, writable: false, no_execute: false };
    assert_eq!(
        plan,
        vec![
            PageMapping { page: first, frame: 0x2000, size: FrameSize::Size4KiB, flags },
            PageMapping { page: first + 0x1000, frame: 0x3000, size: FrameSize::Size4KiB, flags },
        ]
    );
    assert_eq!(
        alloc.frame_tracker.as_ref(),
        &[
            UsedFrame { frame: 0x1000, count: 1, ty: FrameUsageType::FrameUsageBuffer },
            UsedFrame { frame: 0x2000, count: 1, ty: FrameUsageType::KernelCode },
            UsedFrame { frame: 0x3000, count: 1, ty: FrameUsageType::KernelCode },
        ]
    );
}

#[test]
fn no_mapping_without_a_frame() {
    let map = [MemoryRegion { ty: CONVENTIONAL, phys_start: 0x1000, page_count: 1 }];
    let mut alloc = BootFrameAllocator::new(&map, 0);
    let ph = segment(5, 0, KERNEL, 0, 0x1000);
    assert_eq!(map_segment_page(&mut alloc, &ph, 0), None);
    assert_eq!(alloc.frame_tracker.len(), 1);
}
