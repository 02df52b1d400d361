//! The loader's way from the firmware to the kernel, one action at a time.
//!
//! The loader decides here what is to be done next; the program around it
//! does it: it writes the registers, installs the mappings, copies the
//! segments and talks to the firmware. The order matters. Segments are
//! written while write protection is off, no mapping forbids execution
//! before the processor knows of that bit, all physical memory is mapped at
//! its offset before the boot services are left, and the kernel is entered
//! with write protection back on and its two fixed pages in place.

use vstd::prelude::*;
use crate::addr::{canonical, is_phys, FrameSize};
use crate::boot_alloc::{lemma_usable_frame_wf, BootFrameAllocator};
use crate::elf::{
    check_segment, kernel_of, parse_kernel, segment_fault, ElfError, KernelImage, ProgramHeader,
};
use crate::framebuffer::ModeInfo;
use crate::handoff::{
    find_rsdp, higher_half_spec, BootInfo, ConfigEntry, ACPI2_GUID, HIGHER_HALF_MAX,
};
use crate::loader::{load_segment, map_segment_page, segment_image};
use crate::memory_map::{
    checked_max_phys_addr, ends_fit, max_phys_addr_spec, usable_frames_spec, usable_in_bounds,
    valid_memory_map, MemoryRegion,
};
use crate::paging::{
    boot_info_mapping, first_page, frame_tracker_mapping, offset_mapping, offset_page_count,
    page_count, segment_flags_spec, segment_pages, PageFlags, PageMapping, GIB, OFFSET_WINDOW,
};
use crate::runs::{
    all_known, lemma_merge_result_known, lemma_retagged, merge_result,
    no_neighbours_mergeable, retagged, sorted_by_frame,
};
use crate::used_frame::{FrameUsageType, UsedFrame};

verus! {

/// Why the loader cannot start the kernel. Each of these is fatal.
#[derive(Debug, Clone, Copy, PartialEq, Eq, Structural)]
pub enum BootError {
    /// The firmware names no root table of ACPI 2.0.
    NoRsdp,
    /// The image is no kernel that the loader accepts.
    MalformedKernel(ElfError),
    /// The memory map offers no frame or none that the loader can reach, has
    /// a usable region that reaches past the physical address space, or has
    /// a region whose end does not fit in 64 bits.
    BadMemoryMap,
    /// There is more physical memory than the offset window can show.
    MemoryTooLarge,
    /// The boot record does not lie on a frame boundary in physical memory,
    /// or the framebuffer or the memory map lies too high to be shown in
    /// the offset window.
    BadAddress,
    /// The memory map offers no more frames.
    OutOfFrames,
    /// The tracker has no room for one more record.
    TrackerFull,
    /// Two runs of the merged tracker could merge, but have more frames
    /// together than 32 bits count.
    RunTooLong,
    /// The boot services were left, but the loader was not told where the
    /// final memory map lies.
    NoMemoryMap,
}

/// What the loader wants done next.
#[derive(Debug, Clone, Copy, PartialEq, Eq, Structural)]
pub enum LoaderAction {
    /// Clear the write-protect flag of CR0.
    DisableWriteProtect,
    /// Set the no-execute-enable flag of EFER.
    EnableNoExecute,
    /// Install the mapping and flush it from the TLB.
    MapPage(PageMapping),
    /// Fill the memory of the segment with this number, with `Loader::load`.
    LoadSegment(usize),
    /// Set the write-protect flag of CR0.
    EnableWriteProtect,
    /// Fill the screen with black.
    ClearScreen,
    /// Leave the boot services, and tell the loader where the final memory map lies.
    ExitBootServices,
    /// Write the boot record to its frame.
    WriteBootInfo(BootInfo),
    /// Write the records of the tracker to its frame.
    WriteTracker,
    /// Jump to the kernel at `entry`, with `tracker_len` as its argument.
    Jump { entry: u64, tracker_len: usize },
    /// Give up.
    Fail(BootError),
    /// Nothing is left to do.
    Halt,
}

/// What the program around the loader reports of the action that it has done.
#[derive(Debug, Clone, Copy, PartialEq, Eq, Structural)]
pub enum LoaderEvent {
    /// The action is done.
    Done,
    /// The boot services are left. The final memory map has `mmap_len`
    /// entries and lies at the physical address `mmap_phys`.
    Exited { mmap_phys: u64, mmap_len: usize },
}

/// How far the loader has come.
#[derive(Debug, Clone, Copy, PartialEq, Eq, Structural)]
pub enum LoaderStage {
    Start,
    EnableNoExecute,
    Segments,
    OffsetMap,
    Protect,
    ClearScreen,
    Exit,
    BootInfo,
    MapBootInfo,
    MapTracker,
    Finish,
    Jump,
    Done,
    Failed,
}

impl LoaderStage {
    /// The place of the stage in the order of the stages.
    pub fn place(self) -> (p: u8)
        ensures
            p == self.rank(),
    {
        match self {
            LoaderStage::Start => 0,
            LoaderStage::EnableNoExecute => 1,
            LoaderStage::Segments => 2,
            LoaderStage::OffsetMap => 3,
            LoaderStage::Protect => 4,
            LoaderStage::ClearScreen => 5,
            LoaderStage::Exit => 6,
            LoaderStage::BootInfo => 7,
            LoaderStage::MapBootInfo => 8,
            LoaderStage::MapTracker => 9,
            LoaderStage::Finish => 10,
            LoaderStage::Jump => 11,
            LoaderStage::Done => 12,
            LoaderStage::Failed => 13,
        }
    }

    /// The place of the stage in the order of the stages.
    pub open spec fn rank(self) -> int {
        match self {
            LoaderStage::Start => 0,
            LoaderStage::EnableNoExecute => 1,
            LoaderStage::Segments => 2,
            LoaderStage::OffsetMap => 3,
            LoaderStage::Protect => 4,
            LoaderStage::ClearScreen => 5,
            LoaderStage::Exit => 6,
            LoaderStage::BootInfo => 7,
            LoaderStage::MapBootInfo => 8,
            LoaderStage::MapTracker => 9,
            LoaderStage::Finish => 10,
            LoaderStage::Jump => 11,
            LoaderStage::Done => 12,
            LoaderStage::Failed => 13,
        }
    }
}

/// The loader: what it was given, how far it has come, and what it has had
/// done to the machine so far.
pub struct Loader<'a> {
    /// The bytes of the kernel image.
    pub image: &'a [u8],
    /// The kernel that the image holds.
    pub kernel: KernelImage,
    /// The allocator, which takes its frames from the firmware's memory map.
    pub frame_alloc: BootFrameAllocator<'a>,
    /// The graphics mode that the firmware has set.
    pub graphics_mode_info: ModeInfo,
    /// The physical address of the framebuffer.
    pub framebuffer_phys: u64,
    /// The physical address of the root table of ACPI.
    pub rsdp: u64,
    /// The physical address of the frame that is to hold the boot record.
    pub boot_info_phys: u64,
    /// The number of pages of 1 GiB that show physical memory at its offset.
    pub offset_pages: u64,
    /// How far the loader has come.
    pub stage: LoaderStage,
    /// The number of the segment that is being mapped.
    pub segment: usize,
    /// The number of pages of that segment that are mapped.
    pub page: u64,
    /// The number of pages of the offset window that are mapped.
    pub offset_index: u64,
    /// Whether write protection is on.
    pub write_protect: bool,
    /// Whether the processor heeds the no-execute bit of a mapping.
    pub no_execute: bool,
    /// Whether the boot services of the firmware can still be used.
    pub boot_services: bool,
    /// Whether all physical memory is mapped at its offset.
    pub offset_mapped: bool,
    /// Whether the page of the boot record is mapped.
    pub boot_info_mapped: bool,
    /// Whether the page of the tracker is mapped.
    pub tracker_mapped: bool,
}

/// Why no loader can be made of what the firmware gave, if it cannot.
pub open spec fn loader_fault(
    entries: Seq<ConfigEntry>,
    image: Seq<u8>,
    mmap: Seq<MemoryRegion>,
    framebuffer_phys: u64,
    boot_info_phys: u64,
) -> Option<BootError> {
    if forall|i: int| 0 <= i < entries.len() ==> (#[trigger] entries[i]).guid != ACPI2_GUID {
        Some(BootError::NoRsdp)
    } else if kernel_of(image) is Err {
        Some(BootError::MalformedKernel(kernel_of(image)->Err_0))
    } else if !(usable_in_bounds(mmap) && usable_frames_spec(mmap).len() > 0 && canonical(
        usable_frames_spec(mmap)[0] as int,
    )) {
        Some(BootError::BadMemoryMap)
    } else if !ends_fit(mmap) {
        Some(BootError::BadMemoryMap)
    } else if max_phys_addr_spec(mmap) > OFFSET_WINDOW {
        Some(BootError::MemoryTooLarge)
    } else if !(is_phys(boot_info_phys as int) && boot_info_phys % 4096 == 0 && framebuffer_phys
        <= HIGHER_HALF_MAX) {
        Some(BootError::BadAddress)
    } else {
        None
    }
}

impl<'a> Loader<'a> {
    /// The runs of the tracker.
    pub open spec fn runs(&self) -> Seq<UsedFrame> {
        self.frame_alloc.frame_tracker@
    }

    /// The segment that is being mapped.
    pub open spec fn current(&self) -> ProgramHeader {
        self.kernel.segments@[self.segment as int]
    }

    /// What holds of the loader at every stage: its kernel can be loaded
    /// from its image, its allocator is in order, its fixed frames lie on
    /// frame boundaries, and what it has had done to the machine is what
    /// the stages that it has left ask for.
    pub open spec fn inv(&self) -> bool {
        &&& self.kernel.loadable(self.image@.len() as int)
        &&& self.kernel.segments@.len() > 0
        &&& self.frame_alloc.wf()
        &&& is_phys(self.frame_alloc.frame_tracker.spec_buffer() as int)
        &&& self.frame_alloc.frame_tracker.spec_buffer() % 4096 == 0
        &&& is_phys(self.boot_info_phys as int)
        &&& self.boot_info_phys % 4096 == 0
        &&& self.framebuffer_phys <= HIGHER_HALF_MAX
        &&& 1 <= self.offset_pages <= 0x1_fff8
        &&& self.stage is Segments ==> self.segment < self.kernel.segments@.len() && self.page
            <= page_count(self.current())
        &&& self.stage is OffsetMap ==> self.offset_index < self.offset_pages
        &&& !(self.stage is Failed) ==> {
            &&& self.write_protect == !(1 <= self.stage.rank() <= 4)
            &&& self.no_execute == (self.stage.rank() >= 2)
            &&& self.boot_services == (self.stage.rank() <= 6)
            &&& self.offset_mapped == (self.stage.rank() >= 4)
            &&& self.boot_info_mapped == (self.stage.rank() >= 9)
            &&& self.tracker_mapped == (self.stage.rank() >= 10)
        }
    }

    /// The two loaders were given the same.
    pub open spec fn same_inputs(&self, other: &Loader<'a>) -> bool {
        &&& self.image@ == other.image@
        &&& self.kernel == other.kernel
        &&& self.frame_alloc.mmap@ == other.frame_alloc.mmap@
        &&& self.graphics_mode_info == other.graphics_mode_info
        &&& self.framebuffer_phys == other.framebuffer_phys
        &&& self.rsdp == other.rsdp
        &&& self.boot_info_phys == other.boot_info_phys
        &&& self.offset_pages == other.offset_pages
    }

    /// The loader for the kernel in `image` on a machine with the memory
    /// map `mmap` and the configuration table `entries`, or the reason for
    /// which the kernel cannot be started there.
    ///
    /// The frame at `boot_info_phys` is to hold the boot record.
    pub fn new(
        entries: &[ConfigEntry],
        image: &'a [u8],
        mmap: &'a [MemoryRegion],
        graphics_mode_info: ModeInfo,
        framebuffer_phys: u64,
        boot_info_phys: u64,
    ) -> (r: Result<Loader<'a>, BootError>)
        ensures
            match r {
                Ok(l) => loader_fault(entries@, image@, mmap@, framebuffer_phys, boot_info_phys)
                    is None && l.inv() && l.stage is Start && l.image@ == image@
                    && l.frame_alloc.mmap@ == mmap@ && kernel_of(image@) == Ok::<
                    (u64, Seq<ProgramHeader>),
                    ElfError,
                >((l.kernel.entry, l.kernel.segments@)) && l.graphics_mode_info
                    == graphics_mode_info && l.framebuffer_phys == framebuffer_phys
                    && l.boot_info_phys == boot_info_phys && l.offset_pages == offset_page_count(
                    max_phys_addr_spec(mmap@),
                ) && l.frame_alloc.next_frame == 1 && l.runs() == seq![
                    UsedFrame {
                        frame: usable_frames_spec(mmap@)[0],
                        count: 1,
                        ty: FrameUsageType::FrameUsageBuffer,
                    },
                ] && l.frame_alloc.frame_tracker.spec_buffer() == usable_frames_spec(mmap@)[0]
                    && l.frame_alloc.frame_tracker.spec_capacity() == 256 && (exists|i: int|
                    0 <= i < entries@.len() && (#[trigger] entries@[i]).guid == ACPI2_GUID
                        && entries@[i].address == l.rsdp && forall|k: int|
                        0 <= k < i ==> (#[trigger] entries@[k]).guid != ACPI2_GUID) && (
                valid_memory_map(mmap@) ==> l.frame_alloc.consistent()),
                Err(e) => loader_fault(entries@, image@, mmap@, framebuffer_phys, boot_info_phys)
                    == Some(e),
            },
    {
        let rsdp = match find_rsdp(entries) {
            Some(rsdp) => rsdp,
            None => {
                return Err(BootError::NoRsdp);
            },
        };
        let kernel = match parse_kernel(image) {
            Ok(kernel) => kernel,
            Err(e) => {
                return Err(BootError::MalformedKernel(e));
            },
        };
        let frame_alloc = match BootFrameAllocator::try_new(mmap, 0) {
            Some(frame_alloc) => frame_alloc,
            None => {
                return Err(BootError::BadMemoryMap);
            },
        };
        let limit = match checked_max_phys_addr(mmap) {
            Some(limit) => limit,
            None => {
                return Err(BootError::BadMemoryMap);
            },
        };
        if limit > OFFSET_WINDOW {
            return Err(BootError::MemoryTooLarge);
        }
        if boot_info_phys >= crate::PHYS_ADDR_LIMIT || boot_info_phys % 4096 != 0 || framebuffer_phys
            > HIGHER_HALF_MAX {
            return Err(BootError::BadAddress);
        }
        proof {
            lemma_usable_frame_wf(mmap@, 0);
        }
        Ok(
            Loader {
                image,
                kernel,
                frame_alloc,
                graphics_mode_info,
                framebuffer_phys,
                rsdp,
                boot_info_phys,
                offset_pages: (limit + (GIB - 1)) / GIB,
                stage: LoaderStage::Start,
                segment: 0,
                page: 0,
                offset_index: 0,
                write_protect: true,
                no_execute: false,
                boot_services: true,
                offset_mapped: false,
                boot_info_mapped: false,
                tracker_mapped: false,
            },
        )
    }

    /// The machine is as it has to be for `action`.
    ///
    /// A segment is written only while write protection is off. A page is
    /// closed to execution only once the processor heeds that bit. The
    /// boot services are left only once all physical memory is mapped at
    /// its offset and write protection is back on. The kernel is entered
    /// only with write protection on, the no-execute bit heeded, the boot
    /// services left, and physical memory, the boot record and the tracker
    /// mapped.
    pub open spec fn allows(&self, action: LoaderAction) -> bool {
        match action {
            LoaderAction::LoadSegment(_) => !self.write_protect && self.no_execute,
            LoaderAction::MapPage(m) => m.flags.present && (m.flags.no_execute ==> self.no_execute),
            LoaderAction::ExitBootServices => self.boot_services && self.offset_mapped
                && self.write_protect,
            LoaderAction::WriteBootInfo(_) => !self.boot_services,
            LoaderAction::Jump { .. } => self.write_protect && self.no_execute
                && !self.boot_services && self.offset_mapped && self.boot_info_mapped
                && self.tracker_mapped,
            _ => true,
        }
    }

    /// What a step does: which action the loader asks for at the stage of
    /// `self`, given the event `event`, and what the loader `after` the
    /// step is like.
    pub open spec fn steps_to(
        &self,
        event: LoaderEvent,
        action: LoaderAction,
        after: &Loader<'a>,
    ) -> bool {
        match self.stage {
            LoaderStage::Start => action == LoaderAction::DisableWriteProtect && after.stage
                is EnableNoExecute && after.frame_alloc == self.frame_alloc,
            LoaderStage::EnableNoExecute => action == LoaderAction::EnableNoExecute && after.stage
                is Segments && after.segment == 0 && after.page == 0 && after.frame_alloc
                == self.frame_alloc,
            LoaderStage::Segments => if self.page < page_count(self.current()) {
                if !self.frame_alloc.can_allocate() {
                    action == LoaderAction::Fail(BootError::TrackerFull)
                } else {
                    match self.frame_alloc.next() {
                        Some(frame) => action == LoaderAction::MapPage(
                            PageMapping {
                                page: (first_page(self.current()) + 4096 * self.page) as u64,
                                frame,
                                size: FrameSize::Size4KiB,
                                flags: segment_flags_spec(self.current().flags),
                            },
                        ) && after.stage is Segments && after.segment == self.segment
                            && after.page == self.page + 1 && after.runs() == self.runs().push(
                            UsedFrame { frame, count: 1, ty: FrameUsageType::KernelCode },
                        ) && after.frame_alloc.next_frame == self.frame_alloc.next_frame + 1,
                        None => action == LoaderAction::Fail(BootError::OutOfFrames),
                    }
                }
            } else {
                action == LoaderAction::LoadSegment(self.segment) && after.frame_alloc
                    == self.frame_alloc && if self.segment + 1 < self.kernel.segments@.len() {
                    after.stage is Segments && after.segment == self.segment + 1 && after.page == 0
                } else {
                    after.stage is OffsetMap && after.offset_index == 0
                }
            },
            LoaderStage::OffsetMap => action == LoaderAction::MapPage(
                offset_mapping(self.offset_index as int),
            ) && after.offset_index == self.offset_index + 1 && after.frame_alloc
                == self.frame_alloc && if self.offset_index + 1 < self.offset_pages {
                after.stage is OffsetMap
            } else {
                after.stage is Protect
            },
            LoaderStage::Protect => action == LoaderAction::EnableWriteProtect && after.stage
                is ClearScreen && after.frame_alloc == self.frame_alloc,
            LoaderStage::ClearScreen => action == LoaderAction::ClearScreen && after.stage is Exit
                && after.frame_alloc == self.frame_alloc,
            LoaderStage::Exit => action == LoaderAction::ExitBootServices && after.stage
                is BootInfo && after.frame_alloc == self.frame_alloc,
            LoaderStage::BootInfo => match event {
                LoaderEvent::Exited { mmap_phys, mmap_len } => if mmap_phys <= HIGHER_HALF_MAX {
                    action == LoaderAction::WriteBootInfo(
                        BootInfo {
                            mmap_addr: higher_half_spec(mmap_phys as int) as u64,
                            mmap_len,
                            graphics_mode_info: self.graphics_mode_info,
                            graphics_output: higher_half_spec(self.framebuffer_phys as int) as u64,
                            rsdp: self.rsdp,
                        },
                    ) && after.stage is MapBootInfo && after.frame_alloc == self.frame_alloc
                } else {
                    action == LoaderAction::Fail(BootError::BadAddress)
                },
                LoaderEvent::Done => action == LoaderAction::Fail(BootError::NoMemoryMap),
            },
            LoaderStage::MapBootInfo => action == LoaderAction::MapPage(
                PageMapping {
                    page: crate::BOOT_INFO_VIRT,
                    frame: self.boot_info_phys,
                    size: FrameSize::Size4KiB,
                    flags: PageFlags { present: true, writable: false, no_execute: true },
                },
            ) && after.stage is MapTracker && after.frame_alloc == self.frame_alloc,
            LoaderStage::MapTracker => action == LoaderAction::MapPage(
                PageMapping {
                    page: crate::FRAME_TRACKER_VIRT,
                    frame: self.frame_alloc.frame_tracker.spec_buffer(),
                    size: FrameSize::Size4KiB,
                    flags: PageFlags { present: true, writable: true, no_execute: true },
                },
            ) && after.stage is Finish && after.frame_alloc == self.frame_alloc,
            LoaderStage::Finish => if no_neighbours_mergeable(
                merge_result(retagged(self.runs(), FrameUsageType::PageTable)),
            ) {
                action == LoaderAction::WriteTracker && after.stage is Jump && after.runs()
                    == merge_result(retagged(self.runs(), FrameUsageType::PageTable))
                    && all_known(after.runs()) && sorted_by_frame(after.runs())
                    && no_neighbours_mergeable(after.runs())
            } else {
                action == LoaderAction::Fail(BootError::RunTooLong)
            },
            LoaderStage::Jump => action == (LoaderAction::Jump {
                entry: self.kernel.entry,
                tracker_len: self.runs().len() as usize,
            }) && after.stage is Done && after.frame_alloc == self.frame_alloc,
            LoaderStage::Done => action == LoaderAction::Halt && after.stage is Done
                && after.frame_alloc == self.frame_alloc,
            LoaderStage::Failed => action == LoaderAction::Halt && after.stage is Failed
                && after.frame_alloc == self.frame_alloc,
        }
    }

    /// Whether the invariant of the loader holds.
    pub fn check(&self) -> (ok: bool)
        ensures
            ok == self.inv(),
    {
        let count: usize = self.kernel.segments.len();
        let len: usize = self.image.len();
        let mut i: usize = 0;
        let mut covered: bool = false;
        while i < count
            invariant
                i <= count,
                count == self.kernel.segments@.len(),
                len == self.image@.len(),
                forall|k: int|
                    0 <= k < i ==> segment_fault(
                        #[trigger] self.kernel.segments@[k],
                        len as int,
                    ) is None,
                covered <==> exists|k: int|
                    0 <= k < i && (#[trigger] self.kernel.segments@[k]).holds(
                        self.kernel.entry as int,
                    ),
            decreases count - i,
        {
            let segment = self.kernel.segments[i];
            if check_segment(&segment, len).is_some() {
                return false;
            }
            if segment.virt_addr <= self.kernel.entry && self.kernel.entry - segment.virt_addr
                < segment.mem_size {
                covered = true;
            }
            i = i + 1;
        }
        if !covered || count == 0 || !self.frame_alloc.is_wf() {
            return false;
        }
        let buffer: u64 = self.frame_alloc.frame_tracker.buffer();
        if buffer >= crate::PHYS_ADDR_LIMIT || buffer % 4096 != 0 || self.boot_info_phys
            >= crate::PHYS_ADDR_LIMIT || self.boot_info_phys % 4096 != 0 || self.framebuffer_phys
            > HIGHER_HALF_MAX || self.offset_pages < 1 || self.offset_pages > 0x1_fff8 {
            return false;
        }
        let rank: u8 = self.stage.place();
        if rank == 2 {
            if self.segment >= count {
                return false;
            }
            let pages = segment_pages(&self.kernel.segments[self.segment]);
            if self.page > pages.1 {
                return false;
            }
        }
        if rank == 3 && self.offset_index >= self.offset_pages {
            return false;
        }
        rank == 13 || (self.write_protect == !(1 <= rank && rank <= 4) && self.no_execute == (rank
            >= 2) && self.boot_services == (rank <= 6) && self.offset_mapped == (rank >= 4)
            && self.boot_info_mapped == (rank >= 9) && self.tracker_mapped == (rank >= 10))
    }

    /// Says what is to be done next, and takes it as done.
    ///
    /// `event` reports on the action before: `Exited` once the boot
    /// services are left, `Done` else. Each page table that an installed
    /// mapping needs is taken from `frame_alloc` by the program that
    /// installs it.
    pub fn step(&mut self, event: LoaderEvent) -> (action: LoaderAction)
        requires
            old(self).inv(),
        ensures
            final(self).inv(),
            final(self).same_inputs(old(self)),
            old(self).steps_to(event, action, final(self)),
            old(self).allows(action),
            action is Fail ==> final(self).stage is Failed,
            !(action is Fail) && !(old(self).stage is Failed) ==> final(self).stage.rank() >= old(
                self,
            ).stage.rank(),
            old(self).frame_alloc.consistent() ==> final(self).frame_alloc.consistent(),
            final(self).frame_alloc.frame_tracker.spec_buffer() == old(
                self,
            ).frame_alloc.frame_tracker.spec_buffer(),
            final(self).frame_alloc.frame_tracker.spec_capacity() == old(
                self,
            ).frame_alloc.frame_tracker.spec_capacity(),
    {
        match self.stage {
            LoaderStage::Start => {
                self.write_protect = false;
                self.stage = LoaderStage::EnableNoExecute;
                LoaderAction::DisableWriteProtect
            },
            LoaderStage::EnableNoExecute => {
                self.no_execute = true;
                self.segment = 0;
                self.page = 0;
                self.stage = LoaderStage::Segments;
                LoaderAction::EnableNoExecute
            },
            LoaderStage::Segments => {
                let segment = self.kernel.segments[self.segment];
                let pages = segment_pages(&segment);
                if self.page < pages.1 {
                    if !self.frame_alloc.can_allocate_next() {
                        self.stage = LoaderStage::Failed;
                        return LoaderAction::Fail(BootError::TrackerFull);
                    }
                    match map_segment_page(&mut self.frame_alloc, &segment, self.page) {
                        Some(mapping) => {
                            self.page = self.page + 1;
                            LoaderAction::MapPage(mapping)
                        },
                        None => {
                            self.stage = LoaderStage::Failed;
                            LoaderAction::Fail(BootError::OutOfFrames)
                        },
                    }
                } else {
                    let loaded = self.segment;
                    let count: usize = self.kernel.segments.len();
                    if self.segment + 1 < count {
                        self.segment = self.segment + 1;
                        self.page = 0;
                    } else {
                        self.offset_index = 0;
                        self.stage = LoaderStage::OffsetMap;
                    }
                    LoaderAction::LoadSegment(loaded)
                }
            },
            LoaderStage::OffsetMap => {
                let mapping = PageMapping {
                    page: crate::MEM_OFFSET + self.offset_index * GIB,
                    frame: self.offset_index * GIB,
                    size: FrameSize::Size1GiB,
                    flags: PageFlags { present: true, writable: true, no_execute: true },
                };
                self.offset_index = self.offset_index + 1;
                if self.offset_index == self.offset_pages {
                    self.offset_mapped = true;
                    self.stage = LoaderStage::Protect;
                }
                LoaderAction::MapPage(mapping)
            },
            LoaderStage::Protect => {
                self.write_protect = true;
                self.stage = LoaderStage::ClearScreen;
                LoaderAction::EnableWriteProtect
            },
            LoaderStage::ClearScreen => {
                self.stage = LoaderStage::Exit;
                LoaderAction::ClearScreen
            },
            LoaderStage::Exit => {
                self.boot_services = false;
                self.stage = LoaderStage::BootInfo;
                LoaderAction::ExitBootServices
            },
            LoaderStage::BootInfo => {
                match event {
                    LoaderEvent::Exited { mmap_phys, mmap_len } => {
                        if mmap_phys > HIGHER_HALF_MAX {
                            self.stage = LoaderStage::Failed;
                            return LoaderAction::Fail(BootError::BadAddress);
                        }
                        self.stage = LoaderStage::MapBootInfo;
                        LoaderAction::WriteBootInfo(
                            BootInfo::new(
                                mmap_phys,
                                mmap_len,
                                self.graphics_mode_info,
                                self.framebuffer_phys,
                                self.rsdp,
                            ),
                        )
                    },
                    LoaderEvent::Done => {
                        self.stage = LoaderStage::Failed;
                        LoaderAction::Fail(BootError::NoMemoryMap)
                    },
                }
            },
            LoaderStage::MapBootInfo => {
                self.boot_info_mapped = true;
                self.stage = LoaderStage::MapTracker;
                LoaderAction::MapPage(boot_info_mapping(self.boot_info_phys))
            },
            LoaderStage::MapTracker => {
                self.tracker_mapped = true;
                self.stage = LoaderStage::Finish;
                let tracker_phys: u64 = self.frame_alloc.frame_tracker.buffer();
                LoaderAction::MapPage(frame_tracker_mapping(tracker_phys))
            },
            LoaderStage::Finish => {
                proof {
                    lemma_retagged(self.frame_alloc.frame_tracker@, FrameUsageType::PageTable);
                }
                self.frame_alloc.frame_tracker.reclassify_unknown(FrameUsageType::PageTable);
                proof {
                    lemma_merge_result_known(self.frame_alloc.frame_tracker@);
                }
                self.frame_alloc.frame_tracker.merge_all();
                if !self.frame_alloc.frame_tracker.is_merged() {
                    self.stage = LoaderStage::Failed;
                    return LoaderAction::Fail(BootError::RunTooLong);
                }
                self.stage = LoaderStage::Jump;
                LoaderAction::WriteTracker
            },
            LoaderStage::Jump => {
                self.stage = LoaderStage::Done;
                LoaderAction::Jump {
                    entry: self.kernel.entry,
                    tracker_len: self.frame_alloc.frame_tracker.len(),
                }
            },
            LoaderStage::Done => LoaderAction::Halt,
            LoaderStage::Failed => LoaderAction::Halt,
        }
    }

    /// Fills `dst`, the memory of the segment with the number `index`, from
    /// the image: the bytes of the segment in the file, then zeros.
    pub fn load(&self, index: usize, dst: &mut [u8])
        requires
            self.inv(),
            index < self.kernel.segments@.len(),
            old(dst)@.len() == self.kernel.segments@[index as int].mem_size,
        ensures
            final(dst)@ == segment_image(self.image@, self.kernel.segments@[index as int]),
    {
        let segment = self.kernel.segments[index];
        load_segment(dst, self.image, &segment);
    }
}

} // verus!
