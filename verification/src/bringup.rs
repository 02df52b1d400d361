//! The kernel's first steps, one action at a time: it maps its heap, turns
//! on its console, and takes the mappings of the firmware out of the address
//! space.
//!
//! The kernel decides here what is to be done next; the program around it
//! does it. The heap is handed to the allocator only once all its pages are
//! mapped, the lower half is cleared only once the page of the boot record
//! is gone, and the TLB is flushed after the page tables were changed.

use vstd::prelude::*;
use crate::addr::FrameSize;
use crate::heap::{heap_mapping, map_heap_batch, HEAP_BATCH};
use crate::kernel_alloc::KernelFrameAllocator;
use crate::memory_map::valid_memory_map;
use crate::paging::PageMapping;
use crate::runs::{merge_result, no_neighbours_mergeable, runs_disjoint};
use crate::used_frame::FrameUsageType;

verus! {

/// Why the kernel cannot go on. Each of these is fatal.
#[derive(Debug, Clone, Copy, PartialEq, Eq, Structural)]
pub enum BringupError {
    /// There are not enough free frames of 2 MiB for a batch of the heap.
    OutOfFrames,
    /// The tracker has no room for the records of a batch.
    TrackerFull,
    /// Two runs of the merged tracker could merge, but have more frames
    /// together than 32 bits count.
    RunTooLong,
}

/// What the kernel wants done next.
#[derive(Debug, Clone, Copy, PartialEq, Eq, Structural)]
pub enum KernelAction {
    /// Install the mapping and flush it from the TLB.
    MapPage(PageMapping),
    /// Hand the `size` bytes at `bottom` to the heap allocator.
    InitHeap { bottom: u64, size: u64 },
    /// Turn on the console.
    InitLogger,
    /// Remove the mapping of the page of the boot record.
    UnmapBootInfo,
    /// Clear the lower half of the top-level page table.
    ClearLowerHalf,
    /// Flush the whole TLB.
    FlushTlb,
    /// Read the tables of ACPI, from the root table at `rsdp` on.
    ReadAcpi { rsdp: u64 },
    /// Wait.
    Idle,
    /// Give up.
    Fail(BringupError),
}

/// How far the kernel has come.
#[derive(Debug, Clone, Copy, PartialEq, Eq, Structural)]
pub enum KernelStage {
    Heap,
    Logger,
    Unmap,
    Clear,
    Flush,
    Acpi,
    Idle,
    Failed,
}

impl KernelStage {
    /// The place of the stage in the order of the stages.
    pub fn place(self) -> (p: u8)
        ensures
            p == self.rank(),
    {
        match self {
            KernelStage::Heap => 0,
            KernelStage::Logger => 1,
            KernelStage::Unmap => 2,
            KernelStage::Clear => 3,
            KernelStage::Flush => 4,
            KernelStage::Acpi => 5,
            KernelStage::Idle => 6,
            KernelStage::Failed => 7,
        }
    }

    /// The place of the stage in the order of the stages.
    pub open spec fn rank(self) -> int {
        match self {
            KernelStage::Heap => 0,
            KernelStage::Logger => 1,
            KernelStage::Unmap => 2,
            KernelStage::Clear => 3,
            KernelStage::Flush => 4,
            KernelStage::Acpi => 5,
            KernelStage::Idle => 6,
            KernelStage::Failed => 7,
        }
    }
}

/// The kernel at its start: its allocator, how far it has come, and what
/// it has had done to the machine so far.
pub struct Bringup<'a> {
    /// The allocator, which goes on with the tracker of the loader.
    pub frame_alloc: KernelFrameAllocator<'a>,
    /// The physical address of the root table of ACPI.
    pub rsdp: u64,
    /// How far the kernel has come.
    pub stage: KernelStage,
    /// The number of batches of the heap whose frames are taken.
    pub batch: u64,
    /// The mappings of the batch that is being mapped.
    pub plan: Vec<PageMapping>,
    /// The number of mappings of `plan` that are installed.
    pub installed: usize,
    /// Whether the heap can be used.
    pub heap_ready: bool,
    /// Whether the page of the boot record is mapped.
    pub boot_info_mapped: bool,
    /// Whether the lower half of the address space is mapped.
    pub lower_half_mapped: bool,
    /// Whether the TLB may hold what the page tables no longer say.
    pub tlb_stale: bool,
}

impl<'a> Bringup<'a> {
    /// What holds of the kernel at every stage: its allocator is in order,
    /// and what it has had done to the machine is what the stages that it
    /// has left ask for.
    pub open spec fn inv(&self) -> bool {
        &&& self.frame_alloc.wf()
        &&& self.installed <= self.plan@.len()
        &&& self.batch <= 1
        &&& self.plan@.len() == (if self.batch == 0 {
            0int
        } else {
            8int
        })
        &&& !(self.stage is Heap) && !(self.stage is Failed) ==> self.batch == 1 && self.installed
            == 8
        &&& !(self.stage is Failed) ==> {
            &&& self.heap_ready == (self.stage.rank() >= 1)
            &&& self.boot_info_mapped == (self.stage.rank() <= 2)
            &&& self.lower_half_mapped == (self.stage.rank() <= 3)
            &&& self.tlb_stale == (3 <= self.stage.rank() <= 4)
        }
    }

    /// The machine is as it has to be for `action`.
    ///
    /// The heap is handed over only once all its pages are mapped. The
    /// lower half is cleared only once the page of the boot record is
    /// gone. The tables of ACPI are read only once the TLB holds nothing
    /// that the page tables no longer say.
    pub open spec fn allows(&self, action: KernelAction) -> bool {
        match action {
            KernelAction::InitHeap { .. } => self.batch * 8 == crate::heap::HEAP_PAGES
                && self.installed == self.plan@.len(),
            KernelAction::InitLogger => self.heap_ready,
            KernelAction::UnmapBootInfo => self.boot_info_mapped,
            KernelAction::ClearLowerHalf => !self.boot_info_mapped && self.lower_half_mapped,
            KernelAction::ReadAcpi { .. } => self.heap_ready && !self.tlb_stale,
            _ => true,
        }
    }

    /// The kernel at its start, with the allocator `frame_alloc` and the
    /// root table of ACPI at `rsdp`.
    pub fn new(frame_alloc: KernelFrameAllocator<'a>, rsdp: u64) -> (b: Bringup<'a>)
        requires
            frame_alloc.wf(),
        ensures
            b.inv(),
            b.stage is Heap,
            b.frame_alloc == frame_alloc,
            b.rsdp == rsdp,
            b.batch == 0,
    {
        Bringup {
            frame_alloc,
            rsdp,
            stage: KernelStage::Heap,
            batch: 0,
            plan: Vec::new(),
            installed: 0,
            heap_ready: false,
            boot_info_mapped: true,
            lower_half_mapped: true,
            tlb_stale: false,
        }
    }

    /// Whether the invariant of the kernel's first steps holds.
    pub fn check(&self) -> (ok: bool)
        ensures
            ok == self.inv(),
    {
        let planned: usize = self.plan.len();
        let rank: u8 = self.stage.place();
        if !self.frame_alloc.is_wf() || self.installed > planned || self.batch > 1 {
            return false;
        }
        if (self.batch == 0 && planned != 0) || (self.batch == 1 && planned != 8) {
            return false;
        }
        if rank != 0 && rank != 7 && !(self.batch == 1 && self.installed == 8) {
            return false;
        }
        rank == 7 || (self.heap_ready == (rank >= 1) && self.boot_info_mapped == (rank <= 2)
            && self.lower_half_mapped == (rank <= 3) && self.tlb_stale == (3 <= rank && rank <= 4))
    }

    /// What a step does: which action the kernel asks for at the stage of
    /// `self`, and what the kernel `after` the step is like.
    pub open spec fn steps_to(&self, action: KernelAction, after: &Bringup<'a>) -> bool {
        match self.stage {
            KernelStage::Heap => if self.installed < self.plan@.len() {
                action == KernelAction::MapPage(self.plan@[self.installed as int]) && after.stage
                    is Heap && after.installed == self.installed + 1 && after.plan@ == self.plan@
                    && after.batch == self.batch && after.frame_alloc == self.frame_alloc
            } else if self.batch == 0 {
                if self.frame_alloc.free(FrameSize::Size2MiB).len() < 8 {
                    action == KernelAction::Fail(BringupError::OutOfFrames)
                } else if !self.frame_alloc.can_batch(FrameSize::Size2MiB, 8, FrameUsageType::KernelHeap) {
                    action == KernelAction::Fail(BringupError::TrackerFull)
                } else {
                    action == KernelAction::MapPage(
                        heap_mapping(0, self.frame_alloc.free(FrameSize::Size2MiB)[0]),
                    ) && after.stage is Heap && after.batch == 1 && after.installed == 1
                        && after.plan@.len() == 8 && (forall|j: int|
                        0 <= j < 8 ==> #[trigger] after.plan@[j] == heap_mapping(
                            j,
                            self.frame_alloc.free(FrameSize::Size2MiB)[j],
                        )) && after.frame_alloc.frame_tracker@ == self.frame_alloc.after_batch(
                        FrameSize::Size2MiB,
                        8,
                        FrameUsageType::KernelHeap,
                    )
                }
            } else if no_neighbours_mergeable(merge_result(self.frame_alloc.frame_tracker@)) {
                action == (KernelAction::InitHeap {
                    bottom: crate::KERNEL_HEAP_VIRT,
                    size: crate::KERNEL_HEAP_SIZE,
                }) && after.stage is Logger && after.frame_alloc.frame_tracker@ == merge_result(
                    self.frame_alloc.frame_tracker@,
                )
            } else {
                action == KernelAction::Fail(BringupError::RunTooLong)
            },
            KernelStage::Logger => action == KernelAction::InitLogger && after.stage is Unmap
                && after.frame_alloc == self.frame_alloc,
            KernelStage::Unmap => action == KernelAction::UnmapBootInfo && after.stage is Clear
                && after.frame_alloc == self.frame_alloc,
            KernelStage::Clear => action == KernelAction::ClearLowerHalf && after.stage is Flush
                && after.frame_alloc == self.frame_alloc,
            KernelStage::Flush => action == KernelAction::FlushTlb && after.stage is Acpi
                && after.frame_alloc == self.frame_alloc,
            KernelStage::Acpi => action == (KernelAction::ReadAcpi { rsdp: self.rsdp })
                && after.stage is Idle && after.frame_alloc == self.frame_alloc,
            KernelStage::Idle => action == KernelAction::Idle && after.stage is Idle
                && after.frame_alloc == self.frame_alloc,
            KernelStage::Failed => action == KernelAction::Idle && after.stage is Failed
                && after.frame_alloc == self.frame_alloc,
        }
    }

    /// Says what is to be done next, and takes it as done.
    ///
    /// Each page table that an installed mapping needs is taken from
    /// `frame_alloc` by the program that installs it.
    pub fn step(&mut self) -> (action: KernelAction)
        requires
            old(self).inv(),
        ensures
            final(self).inv(),
            final(self).rsdp == old(self).rsdp,
            final(self).frame_alloc.mmap@ == old(self).frame_alloc.mmap@,
            old(self).steps_to(action, final(self)),
            old(self).allows(action),
            action is Fail ==> final(self).stage is Failed,
            valid_memory_map(old(self).frame_alloc.mmap@) && runs_disjoint(
                old(self).frame_alloc.frame_tracker@,
            ) ==> runs_disjoint(final(self).frame_alloc.frame_tracker@),
            final(self).frame_alloc.frame_tracker.spec_buffer() == old(
                self,
            ).frame_alloc.frame_tracker.spec_buffer(),
            final(self).frame_alloc.frame_tracker.spec_capacity() == old(
                self,
            ).frame_alloc.frame_tracker.spec_capacity(),
    {
        match self.stage {
            KernelStage::Heap => {
                if self.installed < self.plan.len() {
                    let mapping = self.plan[self.installed];
                    self.installed = self.installed + 1;
                    return KernelAction::MapPage(mapping);
                }
                if self.batch == 0 {
                    let free = self.frame_alloc.usable_frames(FrameSize::Size2MiB, HEAP_BATCH);
                    if free.len() < HEAP_BATCH {
                        self.stage = KernelStage::Failed;
                        return KernelAction::Fail(BringupError::OutOfFrames);
                    }
                    if !self.frame_alloc.can_allocate_frames(
                        FrameSize::Size2MiB,
                        HEAP_BATCH,
                        FrameUsageType::KernelHeap,
                    ) {
                        self.stage = KernelStage::Failed;
                        return KernelAction::Fail(BringupError::TrackerFull);
                    }
                    self.plan = map_heap_batch(&mut self.frame_alloc, 0);
                    self.batch = 1;
                    self.installed = 1;
                    return KernelAction::MapPage(self.plan[0]);
                }
                self.frame_alloc.frame_tracker.merge_all();
                if !self.frame_alloc.frame_tracker.is_merged() {
                    self.stage = KernelStage::Failed;
                    return KernelAction::Fail(BringupError::RunTooLong);
                }
                self.heap_ready = true;
                self.stage = KernelStage::Logger;
                KernelAction::InitHeap {
                    bottom: crate::KERNEL_HEAP_VIRT,
                    size: crate::KERNEL_HEAP_SIZE,
                }
            },
            KernelStage::Logger => {
                self.stage = KernelStage::Unmap;
                KernelAction::InitLogger
            },
            KernelStage::Unmap => {
                self.boot_info_mapped = false;
                self.tlb_stale = true;
                self.stage = KernelStage::Clear;
                KernelAction::UnmapBootInfo
            },
            KernelStage::Clear => {
                self.lower_half_mapped = false;
                self.stage = KernelStage::Flush;
                KernelAction::ClearLowerHalf
            },
            KernelStage::Flush => {
                self.tlb_stale = false;
                self.stage = KernelStage::Acpi;
                KernelAction::FlushTlb
            },
            KernelStage::Acpi => {
                self.stage = KernelStage::Idle;
                KernelAction::ReadAcpi { rsdp: self.rsdp }
            },
            KernelStage::Idle => KernelAction::Idle,
            KernelStage::Failed => KernelAction::Idle,
        }
    }
}

} // verus!
