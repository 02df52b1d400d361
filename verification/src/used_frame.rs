//! A run of consecutive physical frames that serve one purpose.

use vstd::prelude::*;

verus! {

/// What a run of frames is used for.
///
/// `Unknown` marks frames whose use was not known when they were handed out.
/// Such runs are never joined with their neighbours, so that each can be
/// given its real tag later.
#[derive(Debug, Clone, Copy, PartialEq, Eq, Structural)]
pub enum FrameUsageType {
    KernelCode,
    KernelHeap,
    PageTable,
    FrameUsageBuffer,
    Reusable,
    Unknown,
}

/// `count` consecutive 4 KiB frames that start at the physical address `frame`.
#[derive(Debug, Clone, Copy, PartialEq, Eq, Structural)]
pub struct UsedFrame {
    pub frame: u64,
    pub count: u32,
    pub ty: FrameUsageType,
}

impl UsedFrame {
    /// The first address past the run.
    pub open spec fn end(self) -> int {
        self.frame + self.count * 4096
    }

    /// A run holds at least one frame, starts on a frame boundary and lies
    /// within the 52 bits of the physical address space.
    pub open spec fn wf(self) -> bool {
        &&& self.count > 0
        &&& self.frame % 4096 == 0
        &&& self.end() <= 0x0010_0000_0000_0000
    }

    /// Whether the address `addr` lies in the run.
    pub open spec fn contains(self, addr: int) -> bool {
        self.frame <= addr < self.end()
    }

    /// Whether the two runs share an address.
    pub open spec fn overlaps(self, other: UsedFrame) -> bool {
        self.frame < other.end() && other.frame < self.end()
    }

    /// Whether one run ends where the other starts.
    pub open spec fn adjacent(self, other: UsedFrame) -> bool {
        self.end() == other.frame || self.frame == other.end()
    }

    /// The merge predicate: both runs carry the same tag, the tag is not
    /// `Unknown`, and one run ends where the other starts.
    pub open spec fn mergeable(self, other: UsedFrame) -> bool {
        &&& self.ty != FrameUsageType::Unknown
        &&& self.ty == other.ty
        &&& self.adjacent(other)
    }

    /// The two runs can be joined to one: they can merge, and the run that
    /// covers both has no more frames than 32 bits can count.
    pub open spec fn joinable(self, other: UsedFrame) -> bool {
        self.mergeable(other) && self.count + other.count <= u32::MAX
    }

    /// The run that covers both `self` and `other`, with the tag of `self`.
    pub open spec fn merged(self, other: UsedFrame) -> UsedFrame {
        UsedFrame {
            frame: if self.frame < other.frame { self.frame } else { other.frame },
            count: (self.count + other.count) as u32,
            ty: self.ty,
        }
    }

    /// Whether the run is well formed.
    pub fn is_wf(&self) -> (b: bool)
        ensures
            b == self.wf(),
    {
        if self.count == 0 || self.frame % 4096 != 0 || self.frame > crate::PHYS_ADDR_LIMIT {
            return false;
        }
        let bytes: u64 = self.count as u64 * 4096;
        bytes <= crate::PHYS_ADDR_LIMIT - self.frame
    }

    /// Makes the run of `count` frames at `frame`, if that is a well-formed run.
    pub fn new(frame: u64, count: u32, ty: FrameUsageType) -> (r: Option<UsedFrame>)
        ensures
            r is Some <==> (UsedFrame { frame, count, ty }).wf(),
            r is Some ==> r->0 == (UsedFrame { frame, count, ty }),
    {
        let run = UsedFrame { frame, count, ty };
        if run.is_wf() {
            Some(run)
        } else {
            None
        }
    }

    /// Decides the merge predicate.
    pub fn can_merge(&self, other: &UsedFrame) -> (b: bool)
        requires
            self.wf(),
            other.wf(),
        ensures
            b == self.mergeable(*other),
    {
        let self_end: u64 = self.frame + self.count as u64 * 4096;
        let other_end: u64 = other.frame + other.count as u64 * 4096;
        self.ty != FrameUsageType::Unknown && self.ty == other.ty && (self_end == other.frame
            || self.frame == other_end)
    }

    /// Decides whether the two runs can be joined to one.
    pub fn can_join(&self, other: &UsedFrame) -> (b: bool)
        requires
            self.wf(),
            other.wf(),
        ensures
            b == self.joinable(*other),
    {
        self.can_merge(other) && self.count <= u32::MAX - other.count
    }

    /// Extends the run over `other`, which it can merge with.
    pub fn merge(&mut self, other: UsedFrame)
        requires
            old(self).wf(),
            other.wf(),
            old(self).mergeable(other),
            old(self).count + other.count <= u32::MAX,
        ensures
            *final(self) == old(self).merged(other),
            final(self).frame == if old(self).frame < other.frame {
                old(self).frame
            } else {
                other.frame
            },
            final(self).count == old(self).count + other.count,
            final(self).ty == old(self).ty,
            final(self).end() == if old(self).frame < other.frame {
                other.end()
            } else {
                old(self).end()
            },
            final(self).wf(),
    {
        self.frame = if self.frame < other.frame { self.frame } else { other.frame };
        self.count = self.count + other.count;
    }
}

} // verus!
