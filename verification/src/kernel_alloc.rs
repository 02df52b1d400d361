//! The allocator of the kernel: it takes frames of any size from the usable
//! regions of the memory map and leaves out what the tracker holds already.

use vstd::prelude::*;
use vstd::arithmetic::power2::is_pow2;
use crate::addr::{align_up_spec, FrameSize};
use crate::batch::{
    batch_of_frames, batch_runs, frames_apart, frames_in_bounds, in_frames, lemma_batch_prefix,
    lemma_batch_runs_cover, lemma_batch_runs_hold, lemma_batch_runs_wf,
};
use crate::frame_tracker::FrameTrackerArray;
use crate::memory_map::{
    is_usable, usable_in_bounds, usable_regions_in_bounds, valid_memory_map, MemoryRegion,
};
use crate::runs::{
    covers, in_use, lemma_merge_result, lemma_merge_result_in_use, lemma_push_run,
    lemma_sort_runs_disjoint, lemma_sort_runs_in_use, lemma_sort_runs_wf,
    merge_result, no_neighbours_joinable, runs_disjoint, runs_wf, sort_runs, sorted_by_frame,
    strictly_sorted,
};
use crate::used_frame::{FrameUsageType, UsedFrame};

verus! {

/// The frame of `size` bytes at `addr` shares an address with the run `r`.
pub open spec fn frame_meets_run(addr: int, size: int, r: UsedFrame) -> bool {
    r.frame < addr + size && addr < r.end()
}

/// The frame of `size` bytes at `addr` can be handed out: it is not the
/// frame at address 0, and it shares no address with a run of `runs`.
pub open spec fn frame_free(runs: Seq<UsedFrame>, size: int, addr: int) -> bool {
    &&& addr != 0
    &&& forall|i: int| 0 <= i < runs.len() ==> !frame_meets_run(addr, size, #[trigger] runs[i])
}

/// How far `addr` lies below `end`.
pub open spec fn gap(addr: int, end: int) -> nat {
    if addr < end {
        (end - addr) as nat
    } else {
        0
    }
}

/// The free frames of `size` bytes among those that start at `addr`,
/// `addr + size`, `addr + 2 * size` and so on and end at `end` or below it.
pub open spec fn free_frames_from(addr: int, end: int, size: int, runs: Seq<UsedFrame>) -> Seq<u64>
    decreases gap(addr, end),
{
    if addr + size > end || size <= 0 {
        Seq::empty()
    } else if frame_free(runs, size, addr) {
        seq![addr as u64] + free_frames_from(addr + size, end, size, runs)
    } else {
        free_frames_from(addr + size, end, size, runs)
    }
}

/// The free frames of `size` bytes that the region `r` offers: none if its
/// type is not usable, else those that start at a multiple of `size` and lie
/// in the region.
pub open spec fn free_frames_of(r: MemoryRegion, size: int, runs: Seq<UsedFrame>) -> Seq<u64> {
    if is_usable(r.ty) {
        free_frames_from(align_up_spec(r.phys_start as int, size), r.end(), size, runs)
    } else {
        Seq::empty()
    }
}

/// The free frames of `size` bytes that the map offers: those of its first
/// region, then those of the second, and so on.
pub open spec fn free_frames(m: Seq<MemoryRegion>, size: int, runs: Seq<UsedFrame>) -> Seq<u64>
    decreases m.len(),
{
    if m.len() == 0 {
        Seq::empty()
    } else {
        free_frames(m.drop_last(), size, runs) + free_frames_of(m.last(), size, runs)
    }
}

/// The first `n` elements of `s`, or all of `s` if it has fewer.
pub open spec fn first_n(s: Seq<u64>, n: int) -> Seq<u64> {
    if n < s.len() {
        s.subrange(0, n)
    } else {
        s
    }
}

/// The free frames of the first `i + 1` regions are those of the first `i`,
/// then those of region `i`; and they come first among those of the map.
pub proof fn lemma_free_frames_step(m: Seq<MemoryRegion>, size: int, runs: Seq<UsedFrame>, i: int)
    requires
        0 <= i < m.len(),
    ensures
        free_frames(m.subrange(0, i + 1), size, runs) == free_frames(m.subrange(0, i), size, runs)
            + free_frames_of(m[i], size, runs),
        free_frames(m.subrange(0, i + 1), size, runs).len() <= free_frames(m, size, runs).len(),
        free_frames(m.subrange(0, i + 1), size, runs) == free_frames(m, size, runs).subrange(
            0,
            free_frames(m.subrange(0, i + 1), size, runs).len() as int,
        ),
{
    assert(m.subrange(0, i + 1).drop_last() =~= m.subrange(0, i));
    lemma_free_frames_prefix(m, size, runs, i + 1);
}

/// The free frames of the first `i` regions come first among those of the map.
pub proof fn lemma_free_frames_prefix(m: Seq<MemoryRegion>, size: int, runs: Seq<UsedFrame>, i: int)
    requires
        0 <= i <= m.len(),
    ensures
        free_frames(m.subrange(0, i), size, runs).len() <= free_frames(m, size, runs).len(),
        free_frames(m.subrange(0, i), size, runs) == free_frames(m, size, runs).subrange(
            0,
            free_frames(m.subrange(0, i), size, runs).len() as int,
        ),
    decreases m.len(),
{
    if i == m.len() {
        assert(m.subrange(0, i) =~= m);
    } else {
        lemma_free_frames_prefix(m.drop_last(), size, runs, i);
        assert(m.drop_last().subrange(0, i) =~= m.subrange(0, i));
    }
}

/// The frame of `size` bytes at `frame` lies in the usable region `r`.
pub open spec fn frame_within(frame: int, size: int, r: MemoryRegion) -> bool {
    is_usable(r.ty) && r.phys_start <= frame && frame + size <= r.end()
}

/// The frame of `size` bytes at `frame` lies in a usable region of `m`.
pub open spec fn frame_offered(m: Seq<MemoryRegion>, size: int, frame: int) -> bool {
    exists|i: int| 0 <= i < m.len() && frame_within(frame, size, #[trigger] m[i])
}

/// What holds of the free frames from `addr` on: each is free, starts on a
/// frame boundary if `addr` does, and lies between `addr` and `end`; and each
/// ends before the next starts.
pub proof fn lemma_free_frames_from(addr: int, end: int, size: int, runs: Seq<UsedFrame>)
    requires
        0 <= addr,
        end <= 0x0010_0000_0000_0000,
        size > 0,
        size % 4096 == 0,
    ensures
        forall|n: int|
            0 <= n < free_frames_from(addr, end, size, runs).len() ==> {
                let e = #[trigger] free_frames_from(addr, end, size, runs)[n];
                &&& addr <= e
                &&& e + size <= end
                &&& frame_free(runs, size, e as int)
                &&& (addr % 4096 == 0 ==> e % 4096 == 0)
            },
        forall|a: int, b: int|
            0 <= a < b < free_frames_from(addr, end, size, runs).len() ==> free_frames_from(
                addr,
                end,
                size,
                runs,
            )[a] + size <= free_frames_from(addr, end, size, runs)[b],
    decreases gap(addr, end),
{
    let s = free_frames_from(addr, end, size, runs);
    if addr + size <= end {
        let rest = free_frames_from(addr + size, end, size, runs);
        lemma_free_frames_from(addr + size, end, size, runs);
        if frame_free(runs, size, addr) {
            assert(s == seq![addr as u64] + rest);
            assert forall|n: int| 0 <= n < s.len() implies {
                let e = #[trigger] s[n];
                &&& addr <= e
                &&& e + size <= end
                &&& frame_free(runs, size, e as int)
                &&& (addr % 4096 == 0 ==> e % 4096 == 0)
            } by {
            }
        }
    }
}

/// A start address taken up to a frame size lies on a frame boundary.
pub proof fn lemma_align_up_frame(x: int, fs: FrameSize)
    requires
        0 <= x,
    ensures
        align_up_spec(x, fs.spec_bytes() as int) >= x,
        align_up_spec(x, fs.spec_bytes() as int) % 4096 == 0,
{
    match fs {
        FrameSize::Size4KiB => {
        },
        FrameSize::Size2MiB => {
        },
        FrameSize::Size1GiB => {
        },
    }
}

/// What holds of the free frames that a region in bounds offers: each is
/// free, is not at address 0, starts on a frame boundary and lies in the
/// region; and each ends before the next starts.
pub proof fn lemma_free_frames_of(r: MemoryRegion, fs: FrameSize, runs: Seq<UsedFrame>)
    requires
        is_usable(r.ty) ==> r.in_bounds(),
    ensures
        forall|n: int|
            0 <= n < free_frames_of(r, fs.spec_bytes() as int, runs).len() ==> {
                let e = #[trigger] free_frames_of(r, fs.spec_bytes() as int, runs)[n];
                &&& e != 0
                &&& e % 4096 == 0
                &&& frame_free(runs, fs.spec_bytes() as int, e as int)
                &&& frame_within(e as int, fs.spec_bytes() as int, r)
            },
        forall|a: int, b: int|
            0 <= a < b < free_frames_of(r, fs.spec_bytes() as int, runs).len() ==> free_frames_of(
                r,
                fs.spec_bytes() as int,
                runs,
            )[a] + fs.spec_bytes() <= free_frames_of(r, fs.spec_bytes() as int, runs)[b],
{
    let size = fs.spec_bytes() as int;
    if is_usable(r.ty) {
        let start = align_up_spec(r.phys_start as int, size);
        lemma_align_up_frame(r.phys_start as int, fs);
        lemma_free_frames_from(start, r.end(), size, runs);
    }
}

/// What holds of the free frames that a map offers: each is free, is not at
/// address 0, starts on a frame boundary and lies in a usable region of the
/// map and within the physical address space.
pub proof fn lemma_free_frames(m: Seq<MemoryRegion>, fs: FrameSize, runs: Seq<UsedFrame>)
    requires
        usable_in_bounds(m),
    ensures
        forall|n: int|
            0 <= n < free_frames(m, fs.spec_bytes() as int, runs).len() ==> {
                let e = #[trigger] free_frames(m, fs.spec_bytes() as int, runs)[n];
                &&& e != 0
                &&& e % 4096 == 0
                &&& e + fs.spec_bytes() <= 0x0010_0000_0000_0000
                &&& frame_free(runs, fs.spec_bytes() as int, e as int)
                &&& frame_offered(m, fs.spec_bytes() as int, e as int)
            },
    decreases m.len(),
{
    let size = fs.spec_bytes() as int;
    let all = free_frames(m, size, runs);
    if m.len() > 0 {
        let prev = m.drop_last();
        let last = m.last();
        let fp = free_frames(prev, size, runs);
        lemma_free_frames(prev, fs, runs);
        lemma_free_frames_of(last, fs, runs);
        assert(all == fp + free_frames_of(last, size, runs));
        assert forall|n: int| 0 <= n < all.len() implies {
            let e = #[trigger] all[n];
            &&& e != 0
            &&& e % 4096 == 0
            &&& e + size <= 0x0010_0000_0000_0000
            &&& frame_free(runs, size, e as int)
            &&& frame_offered(m, size, e as int)
        } by {
        }
    }
}

/// The free frames that a valid map offers share no address.
pub proof fn lemma_free_frames_apart(m: Seq<MemoryRegion>, fs: FrameSize, runs: Seq<UsedFrame>)
    requires
        valid_memory_map(m),
    ensures
        frames_apart(free_frames(m, fs.spec_bytes() as int, runs), fs.spec_bytes() as int),
    decreases m.len(),
{
    if m.len() > 0 {
        let prev = m.drop_last();
        let last = m.last();
        lemma_free_frames_apart(prev, fs, runs);
        lemma_free_frames(prev, fs, runs);
        lemma_free_frames_of(last, fs, runs);
    }
}

/// A frame is free exactly if it is not the frame at address 0 and none of
/// its addresses is in use.
pub proof fn lemma_frame_free_by_use(runs: Seq<UsedFrame>, size: int, addr: int)
    requires
        runs_wf(runs),
        size > 0,
    ensures
        frame_free(runs, size, addr) <==> addr != 0 && forall|a: int|
            addr <= a < addr + size ==> !#[trigger] in_use(runs, a),
{
    if addr != 0 && (forall|a: int| addr <= a < addr + size ==> !#[trigger] in_use(runs, a)) {
        assert forall|i: int| 0 <= i < runs.len() implies !frame_meets_run(
            addr,
            size,
            #[trigger] runs[i],
        ) by {
            if frame_meets_run(addr, size, runs[i]) {
                let a: int = if addr >= runs[i].frame { addr } else { runs[i].frame as int };
                assert(in_use(runs, a));
            }
        }
    }
}

/// Whether a frame is free depends on what is in use alone: it is free
/// under `after` exactly if it is free under `before`, where the same
/// addresses are in use under both.
pub proof fn lemma_frame_free_same_use(
    before: Seq<UsedFrame>,
    after: Seq<UsedFrame>,
    size: int,
    addr: int,
)
    requires
        runs_wf(before),
        runs_wf(after),
        size > 0,
        forall|a: int| in_use(after, a) <==> in_use(before, a),
    ensures
        frame_free(after, size, addr) <==> frame_free(before, size, addr),
{
    lemma_frame_free_by_use(before, size, addr);
    lemma_frame_free_by_use(after, size, addr);
}

/// A frame that the allocator has handed out is not handed out again while
/// the tracker holds it: the next frame to be handed out is another one.
pub proof fn lemma_next_frame_differs(a: KernelFrameAllocator, size: FrameSize, taken: u64)
    requires
        a.wf(),
        !frame_free(a.frame_tracker@, size.spec_bytes() as int, taken as int),
        a.free(size).len() > 0,
    ensures
        a.free(size)[0] != taken,
{
    lemma_free_frames(a.mmap@, size, a.frame_tracker@);
}

/// The runs that the batch of the first `n` free frames is recorded as.
pub open spec fn batch_of(
    m: Seq<MemoryRegion>,
    fs: FrameSize,
    runs: Seq<UsedFrame>,
    n: int,
    ty: FrameUsageType,
) -> Seq<UsedFrame> {
    batch_runs(first_n(free_frames(m, fs.spec_bytes() as int, runs), n), fs.spec_pages(), ty)
}

/// Recording a batch of free frames of a valid map keeps disjoint runs disjoint.
pub proof fn lemma_batch_of_disjoint(
    m: Seq<MemoryRegion>,
    fs: FrameSize,
    runs: Seq<UsedFrame>,
    n: int,
    ty: FrameUsageType,
)
    requires
        0 <= n,
        valid_memory_map(m),
        usable_in_bounds(m),
        runs_wf(runs),
        runs_disjoint(runs),
    ensures
        runs_disjoint(runs + batch_of(m, fs, runs, n, ty)),
{
    let size = fs.spec_bytes() as int;
    let all = free_frames(m, size, runs);
    let frames = first_n(all, n);
    let b = batch_of(m, fs, runs, n, ty);
    let joined = runs + b;
    lemma_free_frames(m, fs, runs);
    lemma_free_frames_apart(m, fs, runs);
    lemma_batch_runs_cover(frames, fs.spec_pages(), ty);
    lemma_batch_runs_wf(frames, fs.spec_pages(), ty);
    assert forall|i: int, j: int| 0 <= i < j < joined.len() implies !joined[i].overlaps(
        joined[j],
    ) by {
        if j < runs.len() {
        } else if i >= runs.len() {
        } else {
            let old_run = runs[i];
            let new_run = b[j - runs.len()];
            if old_run.overlaps(new_run) {
                let addr: int = if old_run.frame >= new_run.frame {
                    old_run.frame as int
                } else {
                    new_run.frame as int
                };
                assert(in_use(b, addr));
            }
        }
    }
}

/// What holds of the runs once a batch of free frames of a valid map is
/// recorded and the runs are merged: they ascend by their start address,
/// none can be joined with the run behind it, and an address is covered
/// under a tag exactly if it was covered under it before, or the tag is
/// that of the batch and the address lies in a frame of the batch. Runs that
/// shared no address before share none afterwards, and their start
/// addresses strictly ascend.
pub proof fn lemma_after_batch(
    m: Seq<MemoryRegion>,
    fs: FrameSize,
    runs: Seq<UsedFrame>,
    n: int,
    ty: FrameUsageType,
)
    requires
        0 <= n,
        valid_memory_map(m),
        usable_in_bounds(m),
        runs_wf(runs),
    ensures
        runs_wf(merge_result(runs + batch_of(m, fs, runs, n, ty))),
        sorted_by_frame(merge_result(runs + batch_of(m, fs, runs, n, ty))),
        no_neighbours_joinable(merge_result(runs + batch_of(m, fs, runs, n, ty))),
        forall|addr: int, t: FrameUsageType|
            #[trigger] covers(merge_result(runs + batch_of(m, fs, runs, n, ty)), addr, t) <==> covers(
                runs,
                addr,
                t,
            ) || (t == ty && in_frames(
                first_n(free_frames(m, fs.spec_bytes() as int, runs), n),
                fs.spec_bytes() as int,
                addr,
            )),
        runs_disjoint(runs) ==> runs_disjoint(merge_result(runs + batch_of(m, fs, runs, n, ty)))
            && strictly_sorted(merge_result(runs + batch_of(m, fs, runs, n, ty))),
{
    let size = fs.spec_bytes() as int;
    let frames = first_n(free_frames(m, size, runs), n);
    let b = batch_of(m, fs, runs, n, ty);
    let joined = runs + b;
    lemma_free_frames(m, fs, runs);
    lemma_free_frames_apart(m, fs, runs);
    lemma_batch_runs_cover(frames, fs.spec_pages(), ty);
    lemma_batch_runs_wf(frames, fs.spec_pages(), ty);
    lemma_merge_result(joined);
    if runs_disjoint(runs) {
        lemma_batch_of_disjoint(m, fs, runs, n, ty);
    }
    assert forall|addr: int, t: FrameUsageType|
        #[trigger] covers(merge_result(joined), addr, t) <==> covers(runs, addr, t) || (t == ty && in_frames(
            frames,
            size,
            addr,
        )) by {
        assert(covers(merge_result(joined), addr, t) <==> covers(joined, addr, t));
        if covers(joined, addr, t) {
            let i = choose|i: int|
                0 <= i < joined.len() && (#[trigger] joined[i]).ty == t && joined[i].contains(addr);
            if i < runs.len() {
                assert(runs[i] == joined[i]);
            } else {
                assert(b[i - runs.len()] == joined[i]);
                assert(in_use(b, addr));
            }
        }
        if covers(runs, addr, t) {
            let i = choose|i: int|
                0 <= i < runs.len() && (#[trigger] runs[i]).ty == t && runs[i].contains(addr);
            assert(joined[i] == runs[i]);
        }
        if t == ty && in_frames(frames, size, addr) {
            assert(in_use(b, addr));
            let i = choose|i: int| 0 <= i < b.len() && (#[trigger] b[i]).contains(addr);
            assert(joined[runs.len() + i] == b[i]);
        }
    }
}

/// The allocator of the kernel.
pub struct KernelFrameAllocator<'a> {
    /// The inventory of the frames in use.
    pub frame_tracker: FrameTrackerArray,
    /// The memory map that the frames are taken from.
    pub mmap: &'a [MemoryRegion],
}

impl<'a> KernelFrameAllocator<'a> {
    /// The tracker is well formed and the usable regions of the map lie
    /// within the physical address space.
    pub open spec fn wf(&self) -> bool {
        &&& self.frame_tracker.wf()
        &&& usable_in_bounds(self.mmap@)
    }

    /// The free frames of `size` that the allocator can hand out, in the
    /// order in which it does.
    pub open spec fn free(&self, size: FrameSize) -> Seq<u64> {
        free_frames(self.mmap@, size.spec_bytes() as int, self.frame_tracker@)
    }

    /// Whether the allocator is well formed.
    pub fn is_wf(&self) -> (b: bool)
        ensures
            b == self.wf(),
    {
        self.frame_tracker.is_wf() && usable_regions_in_bounds(self.mmap)
    }

    /// A batch of `n` frames of `size` can be allocated: the tracker has
    /// room for the runs of the batch.
    pub open spec fn can_batch(&self, size: FrameSize, n: int, ty: FrameUsageType) -> bool {
        self.frame_tracker@.len() + batch_of(self.mmap@, size, self.frame_tracker@, n, ty).len()
            <= self.frame_tracker.spec_capacity()
    }

    /// The runs of the tracker once a batch of `n` frames of `size` is allocated.
    pub open spec fn after_batch(&self, size: FrameSize, n: int, ty: FrameUsageType) -> Seq<
        UsedFrame,
    > {
        merge_result(self.frame_tracker@ + batch_of(self.mmap@, size, self.frame_tracker@, n, ty))
    }

    /// The allocator that goes on with the tracker that the loader left.
    pub fn new(frame_tracker: FrameTrackerArray, mmap: &'a [MemoryRegion]) -> (a: Self)
        ensures
            a.frame_tracker == frame_tracker,
            a.mmap@ == mmap@,
    {
        KernelFrameAllocator { frame_tracker, mmap }
    }

    /// Whether the frame of `size` bytes at `addr` can be handed out.
    pub fn is_free(&self, size: FrameSize, addr: u64) -> (b: bool)
        requires
            self.frame_tracker.wf(),
            addr < 0x0010_0000_0000_0000,
        ensures
            b == frame_free(self.frame_tracker@, size.spec_bytes() as int, addr as int),
    {
        if addr == 0 {
            return false;
        }
        let bytes: u64 = size.bytes();
        let runs = self.frame_tracker.as_ref();
        let mut i: usize = 0;
        while i < runs.len()
            invariant
                i <= runs.len(),
                runs@ == self.frame_tracker@,
                runs_wf(runs@),
                bytes == size.spec_bytes(),
                addr < 0x0010_0000_0000_0000,
                forall|k: int|
                    0 <= k < i ==> !frame_meets_run(addr as int, bytes as int, #[trigger] runs@[k]),
            decreases runs.len() - i,
        {
            let run = runs[i];
            let run_end: u64 = run.frame + run.count as u64 * 4096;
            if run.frame < addr + bytes && addr < run_end {
                return false;
            }
            i = i + 1;
        }
        true
    }

    /// The first `limit` of the free frames of `size`, or all of them if
    /// there are fewer.
    pub fn usable_frames(&self, size: FrameSize, limit: usize) -> (frames: Vec<u64>)
        requires
            self.wf(),
        ensures
            frames@ == first_n(self.free(size), limit as int),
    {
        let bytes: u64 = size.bytes();
        let ghost runs = self.frame_tracker@;
        let ghost all = free_frames(self.mmap@, bytes as int, runs);
        let mut frames: Vec<u64> = Vec::new();
        if limit == 0 {
            return frames;
        }
        let mut i: usize = 0;
        while i < self.mmap.len()
            invariant
                i <= self.mmap.len(),
                self.wf(),
                bytes == size.spec_bytes(),
                is_pow2(bytes as int),
                runs == self.frame_tracker@,
                all == free_frames(self.mmap@, bytes as int, runs),
                frames@ == free_frames(self.mmap@.subrange(0, i as int), bytes as int, runs),
                frames@.len() < limit,
            decreases self.mmap.len() - i,
        {
            let region = self.mmap[i];
            proof {
                lemma_free_frames_step(self.mmap@, bytes as int, runs, i as int);
            }
            if region.usable() {
                let end: u64 = region.phys_start + region.page_count * 4096;
                let mut addr: u64 = x86_64::align_up(region.phys_start, bytes);
                let ghost upto = frames@ + free_frames_of(region, bytes as int, runs);
                while addr <= end && bytes <= end - addr
                    invariant
                        self.wf(),
                        bytes == size.spec_bytes(),
                        runs == self.frame_tracker@,
                        end <= 0x0010_0000_0000_0000,
                        frames@.len() < limit,
                        upto == frames@ + free_frames_from(
                            addr as int,
                            end as int,
                            bytes as int,
                            runs,
                        ),
                        upto.len() <= all.len(),
                        upto == all.subrange(0, upto.len() as int),
                        all == free_frames(self.mmap@, bytes as int, runs),
                    decreases end + bytes - addr,
                {
                    if self.is_free(size, addr) {
                        frames.push(addr);
                        proof {
                            let rest = free_frames_from(
                                addr as int + bytes as int,
                                end as int,
                                bytes as int,
                                runs,
                            );
                            assert(frames@ + rest =~= upto);
                        }
                        if frames.len() >= limit {
                            return frames;
                        }
                    }
                    addr = addr + bytes;
                }
            }
            i = i + 1;
        }
        proof {
            assert(self.mmap@.subrange(0, i as int) =~= self.mmap@);
        }
        frames
    }

    /// Hands out the first free frame of `size` and records it with the tag
    /// `ty`. Returns `None` when no frame of that size is free.
    pub fn allocate_frame_ty(&mut self, size: FrameSize, ty: FrameUsageType) -> (frame: Option<u64>)
        requires
            old(self).wf(),
            old(self).free(size).len() > 0 ==> old(self).frame_tracker@.len() < old(
                self,
            ).frame_tracker.spec_capacity(),
        ensures
            frame == if old(self).free(size).len() > 0 {
                Some(old(self).free(size)[0])
            } else {
                None
            },
            final(self).frame_tracker@ == match frame {
                Some(f) => old(self).frame_tracker@.push(
                    UsedFrame { frame: f, count: size.spec_pages(), ty },
                ),
                None => old(self).frame_tracker@,
            },
            final(self).mmap@ == old(self).mmap@,
            final(self).frame_tracker.spec_capacity() == old(self).frame_tracker.spec_capacity(),
            final(self).frame_tracker.spec_buffer() == old(self).frame_tracker.spec_buffer(),
            final(self).wf(),
            match frame {
                Some(f) => f != 0 && f % 4096 == 0 && frame_offered(
                    old(self).mmap@,
                    size.spec_bytes() as int,
                    f as int,
                ) && frame_free(old(self).frame_tracker@, size.spec_bytes() as int, f as int)
                    && !frame_free(final(self).frame_tracker@, size.spec_bytes() as int, f as int),
                None => true,
            },
            runs_disjoint(old(self).frame_tracker@) ==> runs_disjoint(final(self).frame_tracker@),
    {
        let found = self.usable_frames(size, 1);
        proof {
            lemma_free_frames(self.mmap@, size, self.frame_tracker@);
        }
        if found.len() == 0 {
            return None;
        }
        let f: u64 = found[0];
        let run = UsedFrame { frame: f, count: size.pages(), ty };
        proof {
            let runs = self.frame_tracker@;
            lemma_push_run(runs, run);
            assert(frame_meets_run(
                f as int,
                size.spec_bytes() as int,
                runs.push(run)[runs.len() as int],
            ));
        }
        self.frame_tracker.push_used_frame(run);
        Some(f)
    }

    /// Hands out the first free frame of 4 KiB for a page table, records it
    /// and sorts the tracker. Returns `None` when no frame is free.
    pub fn allocate_frame(&mut self) -> (frame: Option<u64>)
        requires
            old(self).wf(),
            old(self).free(FrameSize::Size4KiB).len() > 0 ==> old(self).frame_tracker@.len() < old(
                self,
            ).frame_tracker.spec_capacity(),
        ensures
            frame == if old(self).free(FrameSize::Size4KiB).len() > 0 {
                Some(old(self).free(FrameSize::Size4KiB)[0])
            } else {
                None
            },
            final(self).frame_tracker@ == match frame {
                Some(f) => sort_runs(
                    old(self).frame_tracker@.push(
                        UsedFrame { frame: f, count: 1, ty: FrameUsageType::PageTable },
                    ),
                ),
                None => old(self).frame_tracker@,
            },
            final(self).mmap@ == old(self).mmap@,
            final(self).frame_tracker.spec_capacity() == old(self).frame_tracker.spec_capacity(),
            final(self).frame_tracker.spec_buffer() == old(self).frame_tracker.spec_buffer(),
            final(self).wf(),
            match frame {
                Some(f) => f != 0 && f % 4096 == 0 && frame_offered(old(self).mmap@, 4096, f as int)
                    && frame_free(old(self).frame_tracker@, 4096, f as int) && !frame_free(
                    final(self).frame_tracker@,
                    4096,
                    f as int,
                ),
                None => true,
            },
            runs_disjoint(old(self).frame_tracker@) ==> runs_disjoint(final(self).frame_tracker@),
    {
        let frame = self.allocate_frame_ty(FrameSize::Size4KiB, FrameUsageType::PageTable);
        if let Some(f) = frame {
            let ghost pushed = self.frame_tracker@;
            proof {
                lemma_sort_runs_disjoint(pushed);
                lemma_sort_runs_wf(pushed);
                lemma_sort_runs_in_use(pushed);
                lemma_frame_free_same_use(pushed, sort_runs(pushed), 4096, f as int);
            }
            self.frame_tracker.sort_in_place();
        }
        frame
    }

    /// Hands out the first `n` free frames of `size`, or all free frames if
    /// there are fewer, and records them with the tag `ty`: each stretch of
    /// frames that follow one another in memory as one run, as far as 32
    /// bits count its frames. The tracker is merged once all runs are
    /// recorded.
    pub fn allocate_frames_ty(&mut self, size: FrameSize, n: usize, ty: FrameUsageType) -> (frames:
        Vec<u64>)
        requires
            old(self).wf(),
            ty != FrameUsageType::Unknown,
            old(self).can_batch(size, n as int, ty),
        ensures
            frames@ == first_n(old(self).free(size), n as int),
            final(self).frame_tracker@ == old(self).after_batch(size, n as int, ty),
            final(self).mmap@ == old(self).mmap@,
            final(self).frame_tracker.spec_capacity() == old(self).frame_tracker.spec_capacity(),
            final(self).frame_tracker.spec_buffer() == old(self).frame_tracker.spec_buffer(),
            final(self).wf(),
            sorted_by_frame(final(self).frame_tracker@),
            no_neighbours_joinable(final(self).frame_tracker@),
            valid_memory_map(old(self).mmap@) ==> forall|addr: int, t: FrameUsageType|
                #[trigger] covers(final(self).frame_tracker@, addr, t) <==> covers(
                    old(self).frame_tracker@,
                    addr,
                    t,
                ) || (t == ty && in_frames(frames@, size.spec_bytes() as int, addr)),
            forall|k: int|
                0 <= k < frames@.len() ==> (#[trigger] frames@[k]) != 0 && frames@[k] % 4096 == 0
                    && frame_offered(old(self).mmap@, size.spec_bytes() as int, frames@[k] as int)
                    && frame_free(
                    old(self).frame_tracker@,
                    size.spec_bytes() as int,
                    frames@[k] as int,
                ) && !frame_free(
                    final(self).frame_tracker@,
                    size.spec_bytes() as int,
                    frames@[k] as int,
                ),
            valid_memory_map(old(self).mmap@) && runs_disjoint(old(self).frame_tracker@)
                ==> runs_disjoint(final(self).frame_tracker@),
    {
        let frames = self.usable_frames(size, n);
        let pages: u32 = size.pages();
        let ghost before = self.frame_tracker@;
        let ghost all = self.free(size);
        let ghost batch = batch_runs(frames@, pages, ty);
        proof {
            lemma_free_frames(self.mmap@, size, before);
            assert forall|k: int| 0 <= k < frames@.len() implies frames@[k] == all[k] by {}
            lemma_batch_runs_wf(frames@, pages, ty);
            lemma_batch_prefix(frames@, pages, ty, 0);
            if valid_memory_map(self.mmap@) {
                lemma_after_batch(self.mmap@, size, before, n as int, ty);
            }
        }
        let mut curr: Option<UsedFrame> = None;
        let mut i: usize = 0;
        while i < frames.len()
            invariant
                i <= frames.len(),
                pages == size.spec_pages(),
                pages > 0,
                batch == batch_runs(frames@, pages, ty),
                frames_in_bounds(frames@, pages * 4096),
                before.len() + batch.len() <= self.frame_tracker.spec_capacity(),
                self.frame_tracker.wf(),
                self.frame_tracker.spec_capacity() == old(self).frame_tracker.spec_capacity(),
                self.frame_tracker.spec_buffer() == old(self).frame_tracker.spec_buffer(),
                self.mmap@ == old(self).mmap@,
                usable_in_bounds(self.mmap@),
                match curr {
                    Some(c) => batch_runs(frames@.subrange(0, i as int), pages, ty).len() > 0
                        && batch_runs(frames@.subrange(0, i as int), pages, ty).last() == c
                        && self.frame_tracker@ == before + batch_runs(
                        frames@.subrange(0, i as int),
                        pages,
                        ty,
                    ).drop_last(),
                    None => i == 0 && self.frame_tracker@ == before,
                },
            decreases frames.len() - i,
        {
            let frame: u64 = frames[i];
            proof {
                assert(frames@.subrange(0, i as int + 1).drop_last() =~= frames@.subrange(
                    0,
                    i as int,
                ));
                lemma_batch_prefix(frames@, pages, ty, i as int + 1);
                lemma_batch_prefix(frames@, pages, ty, i as int);
                lemma_batch_runs_wf(frames@.subrange(0, i as int + 1), pages, ty);
                lemma_batch_runs_wf(frames@.subrange(0, i as int), pages, ty);
            }
            match curr {
                Some(current) => {
                    assert(current.wf());
                    let next_expected: u64 = current.frame + current.count as u64 * 4096;
                    if frame == next_expected && current.count <= u32::MAX - pages {
                        curr = Some(
                            UsedFrame {
                                frame: current.frame,
                                count: current.count + pages,
                                ty: current.ty,
                            },
                        );
                    } else {
                        self.frame_tracker.push_used_frame(current);
                        curr = Some(UsedFrame { frame, count: pages, ty });
                    }
                },
                None => {
                    curr = Some(UsedFrame { frame, count: pages, ty });
                },
            }
            i = i + 1;
        }
        proof {
            assert(frames@.subrange(0, i as int) =~= frames@);
        }
        if let Some(current) = curr {
            proof {
                assert(before + batch =~= (before + batch.drop_last()).push(current));
            }
            self.frame_tracker.push_used_frame(current);
        }
        proof {
            let joined = before + batch;
            let merged = merge_result(joined);
            lemma_merge_result(joined);
            lemma_merge_result_in_use(joined);
            assert forall|k: int| 0 <= k < frames@.len() implies !frame_free(
                merged,
                size.spec_bytes() as int,
                (#[trigger] frames@[k]) as int,
            ) by {
                let addr = frames@[k] as int;
                lemma_batch_runs_hold(frames@, pages, ty, addr);
                let i = choose|i: int| 0 <= i < batch.len() && (#[trigger] batch[i]).contains(addr);
                assert(joined[before.len() + i] == batch[i]);
                assert(in_use(joined, addr));
                lemma_frame_free_by_use(merged, size.spec_bytes() as int, addr);
            }
        }
        self.frame_tracker.merge_all();
        frames
    }

    /// Whether a frame of `size` can be allocated: whether the tracker has
    /// room for its record if there is a free frame.
    pub fn can_allocate_frame(&self, size: FrameSize) -> (b: bool)
        requires
            self.wf(),
        ensures
            b == (self.free(size).len() > 0 ==> self.frame_tracker@.len()
                < self.frame_tracker.spec_capacity()),
    {
        self.frame_tracker.len() < self.frame_tracker.capacity() || self.usable_frames(
            size,
            1,
        ).len() == 0
    }

    /// Whether a batch of `n` frames of `size` can be allocated: whether
    /// the tracker has room for the runs of the batch.
    pub fn can_allocate_frames(&self, size: FrameSize, n: usize, ty: FrameUsageType) -> (b: bool)
        requires
            self.wf(),
        ensures
            b == self.can_batch(size, n as int, ty),
    {
        let frames = self.usable_frames(size, n);
        let pages: u32 = size.pages();
        proof {
            lemma_free_frames(self.mmap@, size, self.frame_tracker@);
            assert forall|k: int| 0 <= k < frames@.len() implies frames@[k] == self.free(
                size,
            )[k] by {}
        }
        let batch = batch_of_frames(frames.as_slice(), pages, ty);
        batch.len() <= self.frame_tracker.capacity() - self.frame_tracker.len()
    }
}

} // verus!
