use xmas_elf::program::Type;
use xmas_elf::ElfFile;
use uefi_kernel::elf::{
    check_segment, parse_header, parse_kernel, program_header, read_u16, read_u32, read_u64,
    ElfError, ElfHeader, ProgramHeader, PT_LOAD,
};

fn put16(image: &mut [u8], at: usize, v: u16) {
    image[at..at + 2].copy_from_slice(&v.to_le_bytes());
}

fn put32(image: &mut [u8], at: usize, v: u32) {
    image[at..at + 4].copy_from_slice(&v.to_le_bytes());
}

fn put64(image: &mut [u8], at: usize, v: u64) {
    image[at..at + 8].copy_from_slice(&v.to_le_bytes());
}

fn segment(ty: u32, flags: u32, offset: u64, virt_addr: u64, file_size: u64, mem_size: u64) -> ProgramHeader {
    ProgramHeader { ty, flags, offset, virt_addr, file_size, mem_size }
}

fn image_with(entry: u64, headers: &[ProgramHeader], len: usize) -> Vec<u8> {
    let mut image = vec![0u8; len];
    image[0..4].copy_from_slice(&[0x7f, b'E', b'L', b'F']);
    image[4] = 2;
    image[5] = 1;
    image[6] = 1;
    put16(&mut image, 16, 2);
    put16(&mut image, 18, 62);
    put32(&mut image, 20, 1);
    put64(&mut image, 24, entry);
    put64(&mut image, 32, 64);
    put16(&mut image, 52, 64);
    put16(&mut image, 54, 56);
    put16(&mut image, 56, headers.len() as u16);
    for (i, h) in headers.iter().enumerate() {
        let at = 64 + 56 * i;
        put32(&mut image, at, h.ty);
        put32(&mut image, at + 4, h.flags);
        put64(&mut image, at + 8, h.offset);
        put64(&mut image, at + 16, h.virt_addr);
        put64(&mut image, at + 24, h.virt_addr);
        put64(&mut image, at + 32, h.file_size);
        put64(&mut image, at + 40, h.mem_size);
        put64(&mut image, at + 48, 0x1000);
    }
    image
}

const KERNEL: u64 = 0xffff_ffff_8000_0000;

#[test]
fn numbers_are_read_lowest_byte_first() {
    let b = [0x01, 0x02, 0x03, 0x04, 0x05, 0x06, 0x07, 0x08, 0xff];
    assert_eq!(read_u16(&b, 0), 0x0201);
    assert_eq!(read_u16(&b, 7), 0xff08);
    assert_eq!(read_u32(&b, 1), 0x0504_0302);
    assert_eq!(read_u64(&b, 0), 0x0807_0605_0403_0201);
    assert_eq!(read_u64(&b, 1), 0xff08_0706_0504_0302);
}

#[test]
fn header_of_a_kernel_image() {
    let image = image_with(KERNEL + 0x40, &[segment(PT_LOAD, 5, 0x200, KERNEL, 0x100, 0x100)], 0x400);
    assert_eq!(
        parse_header(&image),
        Ok(ElfHeader { entry: KERNEL + 0x40, ph_offset: 64, ph_count: 1 })
    );
}

#[test]
fn short_image_is_refused() {
    assert_eq!(parse_header(&[]), Err(ElfError::TooShort));
    let image = image_with(KERNEL, &[], 64);
    assert_eq!(parse_header(&image[..63]), Err(ElfError::TooShort));
    assert_eq!(parse_kernel(&image[..63]).unwrap_err(), ElfError::TooShort);
}

#[test]
fn wrong_magic_is_refused() {
    let mut image = image_with(KERNEL, &[], 64);
    image[3] = b'G';
    assert_eq!(parse_header(&image), Err(ElfError::BadMagic));
}

#[test]
fn image_of_32_bits_is_refused() {
    let mut image = image_with(KERNEL, &[], 64);
    image[4] = 1;
    assert_eq!(parse_header(&image), Err(ElfError::NotElf64));
}

#[test]
fn big_endian_image_is_refused() {
    let mut image = image_with(KERNEL, &[], 64);
    image[5] = 2;
    assert_eq!(parse_header(&image), Err(ElfError::NotLittleEndian));
}

#[test]
fn image_for_another_machine_is_refused() {
    let mut image = image_with(KERNEL, &[], 64);
    put16(&mut image, 18, 183);
    assert_eq!(parse_header(&image), Err(ElfError::NotX86_64));
}

#[test]
fn program_headers_of_another_size_are_refused() {
    let mut image = image_with(KERNEL, &[segment(PT_LOAD, 5, 0x200, KERNEL, 0x10, 0x10)], 0x400);
    put16(&mut image, 54, 32);
    assert_eq!(parse_header(&image), Err(ElfError::BadProgramHeaderSize));
}

#[test]
fn program_header_table_past_the_end_is_refused() {
    let image = image_with(KERNEL, &[segment(PT_LOAD, 5, 0, KERNEL, 0x10, 0x10)], 64 + 56);
    assert!(parse_header(&image).is_ok());
    assert_eq!(parse_header(&image[..64 + 55]), Err(ElfError::ProgramHeadersOutOfRange));
    let mut far = image.clone();
    put64(&mut far, 32, u64::MAX - 10);
    assert_eq!(parse_header(&far), Err(ElfError::ProgramHeadersOutOfRange));
}

#[test]
fn program_headers_are_read_from_the_table() {
    let headers = [
        segment(6, 4, 0x40, KERNEL, 0x70, 0x70),
        segment(PT_LOAD, 5, 0x200, KERNEL + 0x1000, 0x1500, 0x2000),
        segment(PT_LOAD, 6, 0x1700, KERNEL + 0x4000, 0x10, 0x9000),
    ];
    let image = image_with(KERNEL + 0x1000, &headers, 0x2000);
    let header = parse_header(&image).unwrap();
    assert_eq!(header.ph_count, 3);
    for (i, h) in headers.iter().enumerate() {
        assert_eq!(program_header(&image, &header, i as u16), *h);
    }
}

#[test]
fn kernel_holds_its_loadable_segments_in_table_order() {
    let headers = [
        segment(6, 4, 0x40, KERNEL, 0x70, 0x70),
        segment(PT_LOAD, 5, 0x200, KERNEL + 0x1000, 0x1500, 0x2000),
        segment(0x6474_e551, 6, 0, 0, 0, 0),
        segment(PT_LOAD, 6, 0x1700, KERNEL + 0x4000, 0x10, 0x9000),
    ];
    let image = image_with(KERNEL + 0x1234, &headers, 0x2000);
    let kernel = parse_kernel(&image).unwrap();
    assert_eq!(kernel.entry, KERNEL + 0x1234);
    assert_eq!(kernel.segments, vec![headers[1], headers[3]]);
}

#[test]
fn segment_past_the_end_of_the_image_is_refused() {
    let image = image_with(KERNEL, &[segment(PT_LOAD, 5, 0x200, KERNEL, 0x201, 0x1000)], 0x400);
    assert_eq!(parse_kernel(&image).unwrap_err(), ElfError::SegmentOutOfRange);
    let fits = image_with(KERNEL, &[segment(PT_LOAD, 5, 0x200, KERNEL, 0x200, 0x1000)], 0x400);
    assert!(parse_kernel(&fits).is_ok());
}

#[test]
fn segment_with_more_in_the_file_than_in_memory_is_refused() {
    let image = image_with(KERNEL, &[segment(PT_LOAD, 5, 0x200, KERNEL, 0x100, 0xff)], 0x400);
    assert_eq!(parse_kernel(&image).unwrap_err(), ElfError::SegmentFileTooLarge);
}

#[test]
fn segment_that_wraps_is_refused() {
    let image = image_with(
        0xffff_ffff_ffff_f000,
        &[segment(PT_LOAD, 5, 0x200, 0xffff_ffff_ffff_f000, 0x100, 0x1000)],
        0x400,
    );
    assert_eq!(parse_kernel(&image).unwrap_err(), ElfError::SegmentWraps);
}

#[test]
fn segment_below_the_kernel_is_refused() {
    let image = image_with(0x40_0000, &[segment(PT_LOAD, 5, 0x200, 0x40_0000, 0x100, 0x1000)], 0x400);
    assert_eq!(parse_kernel(&image).unwrap_err(), ElfError::SegmentBelowKernel);
}

#[test]
fn entry_outside_of_every_segment_is_refused() {
    let headers = [segment(PT_LOAD, 5, 0x200, KERNEL, 0x100, 0x1000)];
    assert_eq!(
        parse_kernel(&image_with(KERNEL + 0x1000, &headers, 0x400)).unwrap_err(),
        ElfError::EntryNotLoaded
    );
    assert!(parse_kernel(&image_with(KERNEL + 0xfff, &headers, 0x400)).is_ok());
    assert_eq!(
        parse_kernel(&image_with(KERNEL, &[], 0x400)).unwrap_err(),
        ElfError::EntryNotLoaded
    );
}

#[test]
fn the_first_fault_in_the_table_is_reported() {
    let headers = [
        segment(PT_LOAD, 5, 0x200, KERNEL, 0x100, 0x10),
        segment(PT_LOAD, 5, 0x200, 0x1000, 0x100, 0x1000),
    ];
    assert_eq!(
        parse_kernel(&image_with(KERNEL, &headers, 0x400)).unwrap_err(),
        ElfError::SegmentFileTooLarge
    );
}

#[test]
fn segments_that_are_not_loaded_are_not_checked() {
    let headers = [
        segment(4, 4, 0xffff_ffff, 0, 0xffff_ffff, 0),
        segment(PT_LOAD, 5, 0x200, KERNEL, 0x100, 0x1000),
    ];
    let kernel = parse_kernel(&image_with(KERNEL, &headers, 0x400)).unwrap();
    assert_eq!(kernel.segments, vec![headers[1]]);
}

#[test]
fn check_segment_tells_each_fault() {
    assert_eq!(check_segment(&segment(PT_LOAD, 5, 0x200, KERNEL, 0x100, 0x1000), 0x300), None);
    assert_eq!(
        check_segment(&segment(PT_LOAD, 5, 0x200, KERNEL, 0x100, 0x1000), 0x2ff),
        Some(ElfError::SegmentOutOfRange)
    );
    assert_eq!(
        check_segment(&segment(PT_LOAD, 5, u64::MAX, KERNEL, 2, 0x1000), 0x300),
        Some(ElfError::SegmentOutOfRange)
    );
    assert_eq!(
        check_segment(&segment(PT_LOAD, 5, 0, KERNEL, 0x100, 0x80), 0x300),
        Some(ElfError::SegmentFileTooLarge)
    );
    assert_eq!(
        check_segment(&segment(PT_LOAD, 5, 0, KERNEL, 0, 0x8000_0000), 0x300),
        Some(ElfError::SegmentWraps)
    );
    assert_eq!(check_segment(&segment(PT_LOAD, 5, 0, KERNEL, 0, 0x7fff_ffff), 0x300), None);
    assert_eq!(
        check_segment(&segment(PT_LOAD, 5, 0, KERNEL - 1, 0, 1), 0x300),
        Some(ElfError::SegmentBelowKernel)
    );
}

#[test]
fn headers_read_as_the_elf_crate_reads_them() {
    let headers = [
        segment(6, 4, 0x40, KERNEL + 0x40, 0x70, 0x70),
        segment(PT_LOAD, 5, 0x200, KERNEL + 0x1200, 0x1500, 0x2000),
        segment(PT_LOAD, 6, 0x1700, KERNEL + 0x4700, 0x10, 0x9000),
    ];
    let image = image_with(KERNEL + 0x1240, &headers, 0x2000);
    let file = ElfFile::new(&image).unwrap();
    xmas_elf::header::sanity_check(&file).unwrap();
    let header = parse_header(&image).unwrap();
    assert_eq!(header.entry, file.header.pt2.entry_point());
    assert_eq!(header.ph_offset, file.header.pt2.ph_offset());
    assert_eq!(header.ph_count, file.header.pt2.ph_count());
    for index in 0..header.ph_count {
        let theirs = file.program_header(index).unwrap();
        xmas_elf::program::sanity_check(theirs, &file).unwrap();
        let ours = program_header(&image, &header, index);
        assert_eq!(ours.ty == PT_LOAD, theirs.get_type() == Ok(Type::Load));
        assert_eq!(ours.flags, theirs.flags().0);
        assert_eq!(ours.offset, theirs.offset());
        assert_eq!(ours.virt_addr, theirs.virtual_addr());
        assert_eq!(ours.file_size, theirs.file_size());
        assert_eq!(ours.mem_size, theirs.mem_size());
    }
    let kernel = parse_kernel(&image).unwrap();
    let loaded: Vec<u64> = file
        .program_iter()
        .filter(|ph| ph.get_type() == Ok(Type::Load))
        .map(|ph| ph.virtual_addr())
        .collect();
    let ours: Vec<u64> = kernel.segments.iter().map(|s| s.virt_addr).collect();
    assert_eq!(ours, loaded);
}
