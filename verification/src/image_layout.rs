//! The sizes of the boot medium: a FAT file system in the one partition of
//! a disk with a GUID partition table.

use vstd::prelude::*;

verus! {

/// Bytes of 1 MiB.
pub const MIB: u64 = 0x10_0000;

/// Bytes that the disk keeps free for the partition table.
pub const GPT_RESERVED: u64 = 64 * 1024;

/// Bytes of a logical block of the disk.
pub const BLOCK_SIZE: u64 = 512;

/// The size of the file system for a loader of `efi_size` bytes: `efi_size`
/// taken up to a whole number of MiB.
pub fn fat_image_size(efi_size: u64) -> (size: u64)
    requires
        0 < efi_size <= 0xffff_ffff_fff0_0000,
    ensures
        size % 0x10_0000 == 0,
        efi_size <= size < efi_size + 0x10_0000,
{
    ((efi_size - 1) / MIB + 1) * MIB
}

/// The size of the disk for a partition of `partition_size` bytes.
pub fn disk_size(partition_size: u64) -> (size: u64)
    requires
        partition_size + 64 * 1024 <= u64::MAX,
    ensures
        size == partition_size + 64 * 1024,
{
    partition_size + GPT_RESERVED
}

/// The number of blocks that the protective master boot record claims for
/// a disk of `disk_size` bytes: all blocks but the first, and no more than
/// 32 bits can count.
pub fn protective_mbr_blocks(disk_size: u64) -> (blocks: u32)
    requires
        disk_size >= 512,
    ensures
        blocks == if disk_size / 512 - 1 <= 0xffff_ffff {
            disk_size / 512 - 1
        } else {
            0xffff_ffff
        },
{
    let blocks: u64 = disk_size / BLOCK_SIZE - 1;
    if blocks <= 0xffff_ffff {
        blocks as u32
    } else {
        0xffff_ffff
    }
}

} // verus!
