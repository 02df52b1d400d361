//! Addresses of the x86_64 architecture: alignment, the 52 bits of a
//! physical address and the canonical form of a virtual address.

use vstd::prelude::*;
use vstd::arithmetic::power2::is_pow2;
use x86_64::structures::paging::{PhysFrame, Size4KiB};
use x86_64::{PhysAddr, VirtAddr};

verus! {

/// The greatest multiple of `align` that is not above `addr`.
pub open spec fn align_down_spec(addr: int, align: int) -> int {
    addr - addr % align
}

/// The smallest multiple of `align` that is not below `addr`.
pub open spec fn align_up_spec(addr: int, align: int) -> int {
    if addr % align == 0 {
        addr
    } else {
        addr - addr % align + align
    }
}

/// Whether `addr` is a physical address: none of its bits 52 to 63 is set.
pub open spec fn is_phys(addr: int) -> bool {
    0 <= addr < 0x0010_0000_0000_0000
}

/// Whether `addr` is a canonical virtual address: its bits 48 to 63 repeat bit 47.
pub open spec fn canonical(addr: int) -> bool {
    0 <= addr < 0x0000_8000_0000_0000 || 0xffff_8000_0000_0000 <= addr <= 0xffff_ffff_ffff_ffff
}

/// `x86_64::align_down`: for a power of two `align`, the source clears the
/// bits of `addr` below `align`, which gives the greatest multiple of `align`
/// that is not above `addr`. It panics for an `align` that is no power of two.
pub assume_specification[ x86_64::align_down ](addr: u64, align: u64) -> (r: u64)
    requires
        is_pow2(align as int),
    ensures
        r == align_down_spec(addr as int, align as int),
;

/// `x86_64::align_up`: for a power of two `align`, the source returns an
/// aligned `addr` as it is and otherwise sets the bits below `align` and adds
/// one, which gives the smallest multiple of `align` that is not below `addr`.
/// It panics for an `align` that is no power of two and where that multiple
/// does not fit in 64 bits.
pub assume_specification[ x86_64::align_up ](addr: u64, align: u64) -> (r: u64)
    requires
        is_pow2(align as int),
        align_up_spec(addr as int, align as int) <= u64::MAX,
    ensures
        r == align_up_spec(addr as int, align as int),
;

/// `PhysFrame::<Size4KiB>::containing_address`, from and to plain addresses:
/// the start of the 4 KiB frame that holds `addr`. `PhysAddr::new` panics for
/// an address with a bit above bit 51 set.
#[verifier::external_body]
pub(crate) fn frame_containing(addr: u64) -> (start: u64)
    requires
        is_phys(addr as int),
    ensures
        start == align_down_spec(addr as int, 4096),
{
    PhysFrame::<Size4KiB>::containing_address(PhysAddr::new(addr)).start_address().as_u64()
}

/// `VirtAddr::try_new`, as a test: the source accepts `addr` exactly if
/// sign-extending its bit 47 over the bits above gives `addr` back.
#[verifier::external_body]
pub(crate) fn is_canonical(addr: u64) -> (b: bool)
    ensures
        b == canonical(addr as int),
{
    VirtAddr::try_new(addr).is_ok()
}

/// The frame sizes of the architecture are powers of two.
pub proof fn lemma_page_sizes_pow2()
    ensures
        is_pow2(4096),
        is_pow2(0x20_0000),
        is_pow2(0x4000_0000),
{
    reveal_with_fuel(is_pow2, 32);
}

/// The sizes that a page and a frame of the architecture can have.
#[derive(Debug, Clone, Copy, PartialEq, Eq, Structural)]
pub enum FrameSize {
    Size4KiB,
    Size2MiB,
    Size1GiB,
}

impl FrameSize {
    /// The size in bytes.
    pub open spec fn spec_bytes(self) -> u64 {
        match self {
            FrameSize::Size4KiB => 0x1000,
            FrameSize::Size2MiB => 0x20_0000,
            FrameSize::Size1GiB => 0x4000_0000,
        }
    }

    /// The size in frames of 4 KiB.
    pub open spec fn spec_pages(self) -> u32 {
        match self {
            FrameSize::Size4KiB => 1,
            FrameSize::Size2MiB => 512,
            FrameSize::Size1GiB => 0x4_0000,
        }
    }

    /// The size in bytes.
    pub fn bytes(self) -> (b: u64)
        ensures
            b == self.spec_bytes(),
            b == self.spec_pages() * 4096,
            is_pow2(b as int),
    {
        proof {
            lemma_page_sizes_pow2();
        }
        match self {
            FrameSize::Size4KiB => 0x1000,
            FrameSize::Size2MiB => 0x20_0000,
            FrameSize::Size1GiB => 0x4000_0000,
        }
    }

    /// The size in frames of 4 KiB.
    pub fn pages(self) -> (p: u32)
        ensures
            p == self.spec_pages(),
    {
        match self {
            FrameSize::Size4KiB => 1,
            FrameSize::Size2MiB => 512,
            FrameSize::Size1GiB => 0x4_0000,
        }
    }
}

} // verus!
