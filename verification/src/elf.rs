//! The kernel image: a 64-bit little-endian ELF file for x86_64, of which the
//! loader reads the header and the loadable segments.

use vstd::prelude::*;
use xmas_elf::program::Flags;

verus! {

/// Bytes of the ELF header of a 64-bit file.
pub const HEADER_BYTES: usize = 64;

/// Bytes of one program header of a 64-bit file.
pub const PROGRAM_HEADER_BYTES: u16 = 56;

/// The type of a program header whose segment is to be loaded.
pub const PT_LOAD: u32 = 1;

/// The machine number of x86_64.
pub const EM_X86_64: u16 = 62;

/// Why an image is not a kernel that the loader can start.
#[derive(Debug, Clone, Copy, PartialEq, Eq, Structural)]
pub enum ElfError {
    /// The image is shorter than an ELF header.
    TooShort,
    /// The image does not start with the four bytes that mark an ELF file.
    BadMagic,
    /// The image is not of the 64-bit class.
    NotElf64,
    /// The image is not little-endian.
    NotLittleEndian,
    /// The image is not made for x86_64.
    NotX86_64,
    /// The program headers do not have the size of a 64-bit program header.
    BadProgramHeaderSize,
    /// The table of program headers does not lie in the image.
    ProgramHeadersOutOfRange,
    /// The file bytes of a loadable segment do not lie in the image.
    SegmentOutOfRange,
    /// A loadable segment has more bytes in the file than in memory.
    SegmentFileTooLarge,
    /// A loadable segment reaches past the end of the address space.
    SegmentWraps,
    /// A loadable segment starts below the lowest address of the kernel.
    SegmentBelowKernel,
    /// No loadable segment holds the entry point.
    EntryNotLoaded,
}

/// What the loader reads of the ELF header.
#[derive(Debug, Clone, Copy, PartialEq, Eq, Structural)]
pub struct ElfHeader {
    /// The address at which the kernel starts to run.
    pub entry: u64,
    /// Where the table of program headers starts in the image.
    pub ph_offset: u64,
    /// How many program headers the table holds.
    pub ph_count: u16,
}

/// One program header.
#[derive(Debug, Clone, Copy, PartialEq, Eq, Structural)]
pub struct ProgramHeader {
    /// The type of the segment.
    pub ty: u32,
    /// The access flags of the segment.
    pub flags: u32,
    /// Where the bytes of the segment start in the image.
    pub offset: u64,
    /// The address at which the segment is to lie in memory.
    pub virt_addr: u64,
    /// How many bytes of the segment the image holds.
    pub file_size: u64,
    /// How many bytes the segment takes in memory.
    pub mem_size: u64,
}

impl ProgramHeader {
    /// Whether the address `addr` lies in the segment as it is in memory.
    pub open spec fn holds(self, addr: int) -> bool {
        self.virt_addr <= addr < self.virt_addr + self.mem_size
    }
}

/// The 16-bit number that `b` holds at `at`, lowest byte first.
pub open spec fn le_u16(b: Seq<u8>, at: int) -> int {
    b[at] + 0x100 * b[at + 1]
}

/// The 32-bit number that `b` holds at `at`, lowest byte first.
pub open spec fn le_u32(b: Seq<u8>, at: int) -> int {
    le_u16(b, at) + 0x1_0000 * le_u16(b, at + 2)
}

/// The 64-bit number that `b` holds at `at`, lowest byte first.
pub open spec fn le_u64(b: Seq<u8>, at: int) -> int {
    le_u32(b, at) + 0x1_0000_0000 * le_u32(b, at + 4)
}

/// The header of the image `b`, or why `b` has none that the loader accepts.
pub open spec fn header_of(b: Seq<u8>) -> Result<ElfHeader, ElfError> {
    if b.len() < 64 {
        Err(ElfError::TooShort)
    } else if !(b[0] == 0x7f && b[1] == 0x45 && b[2] == 0x4c && b[3] == 0x46) {
        Err(ElfError::BadMagic)
    } else if b[4] != 2 {
        Err(ElfError::NotElf64)
    } else if b[5] != 1 {
        Err(ElfError::NotLittleEndian)
    } else if le_u16(b, 18) != 62 {
        Err(ElfError::NotX86_64)
    } else if le_u16(b, 56) > 0 && le_u16(b, 54) != 56 {
        Err(ElfError::BadProgramHeaderSize)
    } else if le_u64(b, 32) + 56 * le_u16(b, 56) > b.len() {
        Err(ElfError::ProgramHeadersOutOfRange)
    } else {
        Ok(
            ElfHeader {
                entry: le_u64(b, 24) as u64,
                ph_offset: le_u64(b, 32) as u64,
                ph_count: le_u16(b, 56) as u16,
            },
        )
    }
}

/// The program header that `b` holds at `at`.
pub open spec fn program_header_at(b: Seq<u8>, at: int) -> ProgramHeader {
    ProgramHeader {
        ty: le_u32(b, at) as u32,
        flags: le_u32(b, at + 4) as u32,
        offset: le_u64(b, at + 8) as u64,
        virt_addr: le_u64(b, at + 16) as u64,
        file_size: le_u64(b, at + 32) as u64,
        mem_size: le_u64(b, at + 40) as u64,
    }
}

/// What is wrong with the loadable segment `ph` of an image of `len` bytes, if anything.
pub open spec fn segment_fault(ph: ProgramHeader, len: int) -> Option<ElfError> {
    if ph.offset + ph.file_size > len {
        Some(ElfError::SegmentOutOfRange)
    } else if ph.file_size > ph.mem_size {
        Some(ElfError::SegmentFileTooLarge)
    } else if ph.virt_addr + ph.mem_size > 0xffff_ffff_ffff_ffff {
        Some(ElfError::SegmentWraps)
    } else if ph.virt_addr < 0xffff_ffff_8000_0000 {
        Some(ElfError::SegmentBelowKernel)
    } else {
        None
    }
}

/// The loadable segments among the first `n` program headers of `b`, in the
/// order of the table, or what is wrong with the first that has a fault.
pub open spec fn segments_among(b: Seq<u8>, h: ElfHeader, n: nat) -> Result<
    Seq<ProgramHeader>,
    ElfError,
>
    decreases n,
{
    if n == 0 {
        Ok(Seq::empty())
    } else {
        match segments_among(b, h, (n - 1) as nat) {
            Err(e) => Err(e),
            Ok(s) => {
                let ph = program_header_at(b, h.ph_offset + 56 * (n - 1));
                if ph.ty != PT_LOAD {
                    Ok(s)
                } else {
                    match segment_fault(ph, b.len() as int) {
                        Some(e) => Err(e),
                        None => Ok(s.push(ph)),
                    }
                }
            },
        }
    }
}

/// Some segment of `s` holds the address `addr`.
pub open spec fn holds_address(s: Seq<ProgramHeader>, addr: u64) -> bool {
    exists|i: int| 0 <= i < s.len() && (#[trigger] s[i]).holds(addr as int)
}

/// The kernel that the image `b` holds: its entry point and its loadable
/// segments, or the first reason for which the loader does not accept it.
pub open spec fn kernel_of(b: Seq<u8>) -> Result<(u64, Seq<ProgramHeader>), ElfError> {
    match header_of(b) {
        Err(e) => Err(e),
        Ok(h) => match segments_among(b, h, h.ph_count as nat) {
            Err(e) => Err(e),
            Ok(s) => if holds_address(s, h.entry) {
                Ok((h.entry, s))
            } else {
                Err(ElfError::EntryNotLoaded)
            },
        },
    }
}

/// `xmas_elf::program::Flags::is_execute`: the source tests the lowest bit of the flags.
#[verifier::external_body]
pub(crate) fn flags_execute(flags: u32) -> (b: bool)
    ensures
        b == (flags & 0x1 == 0x1),
{
    Flags(flags).is_execute()
}

/// `xmas_elf::program::Flags::is_write`: the source tests the second bit of the flags.
#[verifier::external_body]
pub(crate) fn flags_write(flags: u32) -> (b: bool)
    ensures
        b == (flags & 0x2 == 0x2),
{
    Flags(flags).is_write()
}

/// Reads the 16-bit number at `at`.
pub fn read_u16(b: &[u8], at: usize) -> (v: u16)
    requires
        at + 2 <= b@.len(),
    ensures
        v == le_u16(b@, at as int),
{
    b[at] as u16 + b[at + 1] as u16 * 0x100
}

/// Reads the 32-bit number at `at`.
pub fn read_u32(b: &[u8], at: usize) -> (v: u32)
    requires
        at + 4 <= b@.len(),
    ensures
        v == le_u32(b@, at as int),
{
    assert(b@.len() == b.len());
    read_u16(b, at) as u32 + read_u16(b, at + 2) as u32 * 0x1_0000
}

/// Reads the 64-bit number at `at`.
pub fn read_u64(b: &[u8], at: usize) -> (v: u64)
    requires
        at + 8 <= b@.len(),
    ensures
        v == le_u64(b@, at as int),
{
    assert(b@.len() == b.len());
    read_u32(b, at) as u64 + read_u32(b, at + 4) as u64 * 0x1_0000_0000
}

/// Reads and checks the header of the image.
pub fn parse_header(image: &[u8]) -> (r: Result<ElfHeader, ElfError>)
    ensures
        r == header_of(image@),
{
    if image.len() < HEADER_BYTES {
        return Err(ElfError::TooShort);
    }
    if !(image[0] == 0x7f && image[1] == 0x45 && image[2] == 0x4c && image[3] == 0x46) {
        return Err(ElfError::BadMagic);
    }
    if image[4] != 2 {
        return Err(ElfError::NotElf64);
    }
    if image[5] != 1 {
        return Err(ElfError::NotLittleEndian);
    }
    if read_u16(image, 18) != EM_X86_64 {
        return Err(ElfError::NotX86_64);
    }
    let ph_count: u16 = read_u16(image, 56);
    if ph_count > 0 && read_u16(image, 54) != PROGRAM_HEADER_BYTES {
        return Err(ElfError::BadProgramHeaderSize);
    }
    let ph_offset: u64 = read_u64(image, 32);
    let table_bytes: u64 = 56 * ph_count as u64;
    if ph_offset > u64::MAX - table_bytes || ph_offset + table_bytes > image.len() as u64 {
        return Err(ElfError::ProgramHeadersOutOfRange);
    }
    Ok(ElfHeader { entry: read_u64(image, 24), ph_offset, ph_count })
}

/// Reads the program header with the number `index`.
pub fn program_header(image: &[u8], header: &ElfHeader, index: u16) -> (ph: ProgramHeader)
    requires
        index < header.ph_count,
        header.ph_offset + 56 * header.ph_count <= image@.len(),
    ensures
        ph == program_header_at(image@, header.ph_offset + 56 * index),
{
    assert(image@.len() == image.len());
    let at: usize = (header.ph_offset + 56 * index as u64) as usize;
    ProgramHeader {
        ty: read_u32(image, at),
        flags: read_u32(image, at + 4),
        offset: read_u64(image, at + 8),
        virt_addr: read_u64(image, at + 16),
        file_size: read_u64(image, at + 32),
        mem_size: read_u64(image, at + 40),
    }
}

/// Checks the loadable segment `ph` of an image of `len` bytes.
pub fn check_segment(ph: &ProgramHeader, len: usize) -> (fault: Option<ElfError>)
    ensures
        fault == segment_fault(*ph, len as int),
{
    if ph.offset > len as u64 || ph.file_size > len as u64 - ph.offset {
        Some(ElfError::SegmentOutOfRange)
    } else if ph.file_size > ph.mem_size {
        Some(ElfError::SegmentFileTooLarge)
    } else if ph.mem_size > u64::MAX - ph.virt_addr {
        Some(ElfError::SegmentWraps)
    } else if ph.virt_addr < crate::KERNEL_VIRT {
        Some(ElfError::SegmentBelowKernel)
    } else {
        None
    }
}

/// The kernel that the loader found in an image.
#[derive(Debug)]
pub struct KernelImage {
    /// The address at which the kernel starts to run.
    pub entry: u64,
    /// The loadable segments, in the order of the program header table.
    pub segments: Vec<ProgramHeader>,
}

impl KernelImage {
    /// The kernel can be loaded from an image of `len` bytes: none of its
    /// segments has a fault, and one of them holds the entry point.
    pub open spec fn loadable(&self, len: int) -> bool {
        &&& forall|i: int|
            0 <= i < self.segments@.len() ==> segment_fault(#[trigger] self.segments@[i], len)
                is None
        &&& holds_address(self.segments@, self.entry)
    }
}

/// The segments that are found among the program headers have no fault.
pub proof fn lemma_segments_among(b: Seq<u8>, h: ElfHeader, n: nat)
    ensures
        match segments_among(b, h, n) {
            Ok(s) => forall|i: int|
                0 <= i < s.len() ==> segment_fault(#[trigger] s[i], b.len() as int) is None,
            Err(_) => true,
        },
    decreases n,
{
    if n > 0 {
        lemma_segments_among(b, h, (n - 1) as nat);
    }
}

/// Reads the kernel that `image` holds: checks the header, takes the
/// loadable segments from the table of program headers and checks each, and
/// makes sure that a segment holds the entry point.
pub fn parse_kernel(image: &[u8]) -> (r: Result<KernelImage, ElfError>)
    ensures
        match r {
            Ok(k) => kernel_of(image@) == Ok::<(u64, Seq<ProgramHeader>), ElfError>(
                (k.entry, k.segments@),
            ) && k.loadable(image@.len() as int),
            Err(e) => kernel_of(image@) == Err::<(u64, Seq<ProgramHeader>), ElfError>(e),
        },
{
    let header = match parse_header(image) {
        Ok(h) => h,
        Err(e) => {
            return Err(e);
        },
    };
    let mut segments: Vec<ProgramHeader> = Vec::new();
    let mut index: u16 = 0;
    while index < header.ph_count
        invariant
            index <= header.ph_count,
            header_of(image@) == Ok::<ElfHeader, ElfError>(header),
            segments_among(image@, header, index as nat) == Ok::<Seq<ProgramHeader>, ElfError>(
                segments@,
            ),
        decreases header.ph_count - index,
    {
        let ph = program_header(image, &header, index);
        if ph.ty == PT_LOAD {
            match check_segment(&ph, image.len()) {
                Some(e) => {
                    proof {
                        lemma_segments_fail(
                            image@,
                            header,
                            index as nat + 1,
                            header.ph_count as nat,
                        );
                    }
                    return Err(e);
                },
                None => {
                    segments.push(ph);
                },
            }
        }
        index = index + 1;
    }
    let mut i: usize = 0;
    let mut covered: bool = false;
    while i < segments.len() && !covered
        invariant
            i <= segments.len(),
            !covered ==> forall|k: int|
                0 <= k < i ==> !(#[trigger] segments@[k]).holds(header.entry as int),
            covered ==> holds_address(segments@, header.entry),
        decreases segments.len() - i, if covered { 0int } else { 1int },
    {
        let s = segments[i];
        if s.virt_addr <= header.entry && header.entry - s.virt_addr < s.mem_size {
            covered = true;
        } else {
            i = i + 1;
        }
    }
    proof {
        lemma_segments_among(image@, header, header.ph_count as nat);
    }
    if covered {
        Ok(KernelImage { entry: header.entry, segments })
    } else {
        Err(ElfError::EntryNotLoaded)
    }
}

/// Once a segment among the first `n` has a fault, looking at more program
/// headers finds the same fault.
pub proof fn lemma_segments_fail(b: Seq<u8>, h: ElfHeader, n: nat, upto: nat)
    requires
        n <= upto,
        segments_among(b, h, n) is Err,
    ensures
        segments_among(b, h, upto) == segments_among(b, h, n),
    decreases upto - n,
{
    if n < upto {
        lemma_segments_fail(b, h, n, (upto - 1) as nat);
    }
}

} // verus!
