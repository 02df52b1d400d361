//! The allocator of the loader: it hands out the frames that the firmware's
//! memory map offers, one after the other, and records each in the tracker.

use vstd::prelude::*;
use crate::addr::{canonical, frame_containing, is_canonical};
use crate::frame_tracker::FrameTrackerArray;
use crate::memory_map::{
    frame_in_map, is_usable, lemma_usable_frames_step, lemma_usable_frames_valid, usable_frame_at,
    usable_frames_spec, usable_in_bounds, usable_regions_in_bounds, valid_memory_map, MemoryRegion,
};
use crate::runs::{disjoint_from, in_use, lemma_push_run, runs_disjoint, runs_wf};
use crate::used_frame::{FrameUsageType, UsedFrame};

verus! {

/// The address `addr` lies in one of the first `cursor` frames that `m` offers.
pub open spec fn handed_out(m: Seq<MemoryRegion>, cursor: int, addr: int) -> bool {
    exists|k: int|
        0 <= k < cursor && k < usable_frames_spec(m).len() && (#[trigger] usable_frames_spec(
            m,
        )[k]) <= addr < usable_frames_spec(m)[k] + 4096
}

/// Each frame that a map with usable regions in bounds offers is not the
/// frame at address 0, starts on a frame boundary and lies within the
/// physical address space.
pub proof fn lemma_usable_frame_wf(m: Seq<MemoryRegion>, n: int)
    requires
        usable_in_bounds(m),
        0 <= n < usable_frames_spec(m).len(),
    ensures
        usable_frames_spec(m)[n] != 0,
        usable_frames_spec(m)[n] % 4096 == 0,
        usable_frames_spec(m)[n] + 4096 <= 0x0010_0000_0000_0000,
    decreases m.len(),
{
    let prev = m.drop_last();
    let fp = usable_frames_spec(prev);
    if n < fp.len() {
        lemma_usable_frame_wf(prev, n);
    } else {
        let k = n - fp.len();
        assert(usable_frames_spec(m)[n] == m.last().frames()[k]);
        assert(m[m.len() - 1].in_bounds());
    }
}

/// Handing out the next frame of a valid map keeps the account: the run of
/// the new frame shares no address with the runs recorded before, and the
/// addresses in use afterwards are those of the frames gone past.
pub proof fn lemma_next_frame_is_fresh(
    m: Seq<MemoryRegion>,
    cursor: int,
    s: Seq<UsedFrame>,
    ty: FrameUsageType,
)
    requires
        valid_memory_map(m),
        0 <= cursor < usable_frames_spec(m).len(),
        runs_wf(s),
        forall|addr: int| in_use(s, addr) <==> handed_out(m, cursor, addr),
    ensures
        disjoint_from(UsedFrame { frame: usable_frames_spec(m)[cursor], count: 1, ty }, s),
        forall|addr: int|
            in_use(s.push(UsedFrame { frame: usable_frames_spec(m)[cursor], count: 1, ty }), addr)
                <==> handed_out(m, cursor + 1, addr),
{
    let f = usable_frames_spec(m);
    let r = UsedFrame { frame: f[cursor], count: 1, ty };
    lemma_usable_frames_valid(m);
    assert forall|i: int| 0 <= i < s.len() implies !r.overlaps(#[trigger] s[i]) by {
        if r.overlaps(s[i]) {
            let addr: int = if r.frame >= s[i].frame { r.frame as int } else { s[i].frame as int };
            assert(in_use(s, addr));
        }
    }
    lemma_push_run(s, r);
    assert forall|addr: int| in_use(s.push(r), addr) <==> handed_out(m, cursor + 1, addr) by {
        if r.contains(addr) {
        }
    }
}

/// The allocator of the loader.
pub struct BootFrameAllocator<'a> {
    /// The inventory of the frames handed out.
    pub frame_tracker: FrameTrackerArray,
    /// The memory map that the frames are taken from.
    pub mmap: &'a [MemoryRegion],
    /// How many frames of the map the allocator has gone past.
    pub next_frame: usize,
}

impl<'a> BootFrameAllocator<'a> {
    /// The memory map that the allocator takes its frames from.
    pub open spec fn mmap(&self) -> Seq<MemoryRegion> {
        self.mmap@
    }

    /// How many frames of the map the allocator has gone past.
    pub open spec fn cursor(&self) -> int {
        self.next_frame as int
    }

    /// The frame that the next allocation returns, if the map offers one more.
    pub open spec fn next(&self) -> Option<u64> {
        if self.cursor() < usable_frames_spec(self.mmap()).len() {
            Some(usable_frames_spec(self.mmap())[self.cursor()])
        } else {
            None
        }
    }

    /// The tracker is well formed and the usable regions of the map lie
    /// within the physical address space.
    pub open spec fn wf(&self) -> bool {
        &&& self.frame_tracker.wf()
        &&& usable_in_bounds(self.mmap())
    }

    /// The next allocation can be made: where the map offers one more frame,
    /// the tracker has room for its record.
    pub open spec fn can_allocate(&self) -> bool {
        &&& self.cursor() < usize::MAX
        &&& self.next() is Some ==> self.frame_tracker@.len() < self.frame_tracker.spec_capacity()
    }

    /// The tracker accounts for the frames handed out, and for no others:
    /// the map is valid, no two runs of the tracker share an address, and
    /// the addresses in its runs are those of the frames that the
    /// allocator has gone past.
    pub open spec fn consistent(&self) -> bool {
        &&& valid_memory_map(self.mmap())
        &&& runs_disjoint(self.frame_tracker@)
        &&& forall|addr: int|
            in_use(self.frame_tracker@, addr) <==> handed_out(self.mmap(), self.cursor(), addr)
    }

    /// The frames that `mmap` offers, in the order in which they are handed out.
    pub fn usable_frames(mmap: &[MemoryRegion]) -> (frames: Vec<u64>)
        requires
            usable_in_bounds(mmap@),
        ensures
            frames@ == usable_frames_spec(mmap@),
    {
        let mut frames: Vec<u64> = Vec::new();
        let mut i: usize = 0;
        while i < mmap.len()
            invariant
                i <= mmap.len(),
                usable_in_bounds(mmap@),
                frames@ == usable_frames_spec(mmap@.subrange(0, i as int)),
            decreases mmap.len() - i,
        {
            let region = mmap[i];
            let ghost before = frames@;
            proof {
                lemma_usable_frames_step(mmap@, i as int);
            }
            if region.usable() {
                let first: u64 = if region.phys_start < 4096 && region.page_count > 0 {
                    1
                } else {
                    0
                };
                let count: u64 = region.page_count - first;
                let mut k: u64 = 0;
                while k < count
                    invariant
                        k <= count,
                        count == region.frame_count(),
                        first == region.page_count - count,
                        is_usable(region.ty),
                        region.in_bounds(),
                        frames@ == before + region.frames().subrange(0, k as int),
                    decreases count - k,
                {
                    let frame = frame_containing(region.phys_start + (k + first) * 4096);
                    frames.push(frame);
                    k = k + 1;
                }
            }
            i = i + 1;
        }
        proof {
            assert(mmap@.subrange(0, i as int) =~= mmap@);
        }
        frames
    }

    /// The allocator over `mmap`, with its tracker in the first frame that the
    /// map offers.
    ///
    /// All physical memory is reachable at `offset`: the tracker's records
    /// live at `offset` plus the address of that first frame, and the frame
    /// is the first that the tracker records.
    pub fn new(mmap: &'a [MemoryRegion], offset: u64) -> (a: BootFrameAllocator<'a>)
        requires
            usable_in_bounds(mmap@),
            usable_frames_spec(mmap@).len() > 0,
            canonical(offset as int),
            canonical(offset + usable_frames_spec(mmap@)[0]),
        ensures
            a.mmap@ == mmap@,
            a.next_frame == 1,
            a.frame_tracker@ == seq![
                UsedFrame {
                    frame: usable_frames_spec(mmap@)[0],
                    count: 1,
                    ty: FrameUsageType::FrameUsageBuffer,
                },
            ],
            a.frame_tracker.spec_buffer() == offset + usable_frames_spec(mmap@)[0],
            a.frame_tracker.spec_capacity() == 256,
            a.wf(),
            valid_memory_map(mmap@) ==> a.consistent(),
    {
        let frame: u64 = usable_frame_at(mmap, 0).unwrap();
        proof {
            lemma_usable_frame_wf(mmap@, 0);
        }
        let mut frame_tracker = FrameTrackerArray::new(offset + frame, 4096);
        let first = UsedFrame { frame, count: 1, ty: FrameUsageType::FrameUsageBuffer };
        frame_tracker.push_used_frame(first);
        proof {
            if valid_memory_map(mmap@) {
                let none = Seq::<UsedFrame>::empty();
                assert forall|addr: int| in_use(none, addr) <==> handed_out(mmap@, 0, addr) by {}
                lemma_next_frame_is_fresh(mmap@, 0, none, FrameUsageType::FrameUsageBuffer);
                lemma_push_run(none, first);
            }
        }
        BootFrameAllocator { frame_tracker, mmap, next_frame: 1 }
    }

    /// The allocator over `mmap` as `new` makes it, where it can be made:
    /// where the usable regions of the map lie within the physical address
    /// space, the map offers a frame, and `offset` and the address of the
    /// tracker's records are canonical. `None` otherwise.
    pub fn try_new(mmap: &'a [MemoryRegion], offset: u64) -> (a: Option<BootFrameAllocator<'a>>)
        ensures
            a is Some <==> usable_in_bounds(mmap@) && usable_frames_spec(mmap@).len() > 0
                && canonical(offset as int) && canonical(offset + usable_frames_spec(mmap@)[0]),
            a is Some ==> a->0.mmap@ == mmap@ && a->0.next_frame == 1 && a->0.frame_tracker@
                == seq![
                UsedFrame {
                    frame: usable_frames_spec(mmap@)[0],
                    count: 1,
                    ty: FrameUsageType::FrameUsageBuffer,
                },
            ] && a->0.frame_tracker.spec_buffer() == offset + usable_frames_spec(mmap@)[0]
                && a->0.frame_tracker.spec_capacity() == 256 && a->0.wf() && (valid_memory_map(
                mmap@,
            ) ==> a->0.consistent()),
    {
        if !usable_regions_in_bounds(mmap) || !is_canonical(offset) {
            return None;
        }
        match usable_frame_at(mmap, 0) {
            Some(frame) => {
                if frame > u64::MAX - offset || !is_canonical(offset + frame) {
                    return None;
                }
                Some(BootFrameAllocator::new(mmap, offset))
            },
            None => None,
        }
    }

    /// Whether the allocator is well formed.
    pub fn is_wf(&self) -> (b: bool)
        ensures
            b == self.wf(),
    {
        self.frame_tracker.is_wf() && usable_regions_in_bounds(self.mmap)
    }

    /// Whether the next allocation can be made.
    pub fn can_allocate_next(&self) -> (b: bool)
        requires
            self.wf(),
        ensures
            b == self.can_allocate(),
    {
        if self.next_frame == usize::MAX {
            return false;
        }
        match usable_frame_at(self.mmap, self.next_frame) {
            Some(_) => self.frame_tracker.len() < self.frame_tracker.capacity(),
            None => true,
        }
    }

    /// Hands out the next frame that the map offers and records it with the
    /// tag `Unknown`. Returns `None` when the map offers no more frames.
    pub fn allocate_frame(&mut self) -> (frame: Option<u64>)
        requires
            old(self).wf(),
            old(self).can_allocate(),
        ensures
            frame == old(self).next(),
            final(self).next_frame == old(self).next_frame + 1,
            final(self).mmap@ == old(self).mmap@,
            final(self).frame_tracker@ == match frame {
                Some(f) => old(self).frame_tracker@.push(
                    UsedFrame { frame: f, count: 1, ty: FrameUsageType::Unknown },
                ),
                None => old(self).frame_tracker@,
            },
            final(self).frame_tracker.spec_capacity() == old(self).frame_tracker.spec_capacity(),
            final(self).frame_tracker.spec_buffer() == old(self).frame_tracker.spec_buffer(),
            final(self).wf(),
            old(self).consistent() ==> final(self).consistent(),
            match frame {
                Some(f) => f != 0 && f % 4096 == 0,
                None => true,
            },
            valid_memory_map(old(self).mmap@) ==> match frame {
                Some(f) => frame_in_map(f, old(self).mmap@),
                None => true,
            },
    {
        self.allocate_frame_ty(FrameUsageType::Unknown)
    }

    /// Hands out the next frame that the map offers and records it with the
    /// tag `ty`. Returns `None` when the map offers no more frames.
    pub fn allocate_frame_ty(&mut self, ty: FrameUsageType) -> (frame: Option<u64>)
        requires
            old(self).wf(),
            old(self).can_allocate(),
        ensures
            frame == old(self).next(),
            final(self).next_frame == old(self).next_frame + 1,
            final(self).mmap@ == old(self).mmap@,
            final(self).frame_tracker@ == match frame {
                Some(f) => old(self).frame_tracker@.push(UsedFrame { frame: f, count: 1, ty }),
                None => old(self).frame_tracker@,
            },
            final(self).frame_tracker.spec_capacity() == old(self).frame_tracker.spec_capacity(),
            final(self).frame_tracker.spec_buffer() == old(self).frame_tracker.spec_buffer(),
            final(self).wf(),
            old(self).consistent() ==> final(self).consistent(),
            match frame {
                Some(f) => f != 0 && f % 4096 == 0,
                None => true,
            },
            valid_memory_map(old(self).mmap@) ==> match frame {
                Some(f) => frame_in_map(f, old(self).mmap@),
                None => true,
            },
    {
        let frame = usable_frame_at(self.mmap, self.next_frame);
        if let Some(f) = frame {
            proof {
                lemma_usable_frame_wf(self.mmap@, self.next_frame as int);
                if valid_memory_map(self.mmap@) {
                    lemma_usable_frames_valid(self.mmap@);
                }
                if self.consistent() {
                    lemma_next_frame_is_fresh(
                        self.mmap@,
                        self.next_frame as int,
                        self.frame_tracker@,
                        ty,
                    );
                    lemma_push_run(
                        self.frame_tracker@,
                        UsedFrame { frame: f, count: 1, ty },
                    );
                }
            }
            self.frame_tracker.push_used_frame(UsedFrame { frame: f, count: 1, ty });
        }
        self.next_frame = self.next_frame + 1;
        frame
    }
}

} // verus!
