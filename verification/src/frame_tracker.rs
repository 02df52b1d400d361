//! The inventory of used physical frames: a bounded list of runs that lives
//! in one page of memory.

use vstd::prelude::*;
use crate::runs::{
    coalesce, covers, in_use, lemma_coalesce_wf, lemma_insert_run_at, lemma_merge_result,
    lemma_merge_result_in_use, lemma_merge_result_starts, lemma_merge_result_total, lemma_merged, lemma_retagged, lemma_sort_runs,
    lemma_sort_runs_disjoint, lemma_sort_runs_in_use, lemma_sort_runs_wf, merge_result,
    no_neighbours_joinable, no_neighbours_mergeable, retagged, runs_disjoint, runs_wf, sort_runs,
    sorted_by_frame, starts_kept, strictly_sorted, total_count,
};
use crate::used_frame::{FrameUsageType, UsedFrame};

verus! {

/// Bytes that one record of the inventory takes in its page.
pub const USED_FRAME_BYTES: usize = 16;

/// A bounded list of runs of used frames.
///
/// The records live in a region of memory that the tracker is told of when it
/// is made: `buffer` is the address of that region and the capacity is the
/// number of records that fit in it.
pub struct FrameTrackerArray {
    used_frames: Vec<UsedFrame>,
    storage: u64,
    cap: usize,
}

impl View for FrameTrackerArray {
    type V = Seq<UsedFrame>;

    closed spec fn view(&self) -> Seq<UsedFrame> {
        self.used_frames@
    }
}

impl FrameTrackerArray {
    /// The number of records that fit in the tracker's storage.
    pub closed spec fn spec_capacity(&self) -> nat {
        self.cap as nat
    }

    /// The address of the tracker's storage.
    pub closed spec fn spec_buffer(&self) -> u64 {
        self.storage
    }

    /// The tracker holds no more runs than fit, and each of them is well formed.
    pub open spec fn wf(&self) -> bool {
        &&& self@.len() <= self.spec_capacity()
        &&& runs_wf(self@)
    }

    /// Whether the tracker is well formed.
    pub fn is_wf(&self) -> (b: bool)
        ensures
            b == self.wf(),
    {
        if self.used_frames.len() > self.cap {
            return false;
        }
        let mut i: usize = 0;
        while i < self.used_frames.len()
            invariant
                i <= self.used_frames@.len(),
                forall|k: int| 0 <= k < i ==> (#[trigger] self.used_frames@[k]).wf(),
            decreases self.used_frames@.len() - i,
        {
            if !self.used_frames[i].is_wf() {
                return false;
            }
            i = i + 1;
        }
        true
    }

    /// An empty tracker whose records are to live in the `bytes` bytes at `storage`.
    pub fn new(storage: u64, bytes: usize) -> (t: FrameTrackerArray)
        ensures
            t@ == Seq::<UsedFrame>::empty(),
            t.spec_capacity() == bytes / 16,
            t.spec_buffer() == storage,
            t.wf(),
    {
        FrameTrackerArray { used_frames: Vec::new(), storage, cap: bytes / USED_FRAME_BYTES }
    }

    /// A tracker over the `bytes` bytes at `storage`, which hold the records `runs`.
    pub fn new_existing(storage: u64, bytes: usize, runs: Vec<UsedFrame>) -> (t: FrameTrackerArray)
        requires
            runs@.len() <= bytes / 16,
            runs_wf(runs@),
        ensures
            t@ == runs@,
            t.spec_capacity() == bytes / 16,
            t.spec_buffer() == storage,
            t.wf(),
    {
        FrameTrackerArray { used_frames: runs, storage, cap: bytes / USED_FRAME_BYTES }
    }

    /// The number of runs in the tracker.
    pub fn len(&self) -> (n: usize)
        ensures
            n == self@.len(),
    {
        self.used_frames.len()
    }

    /// The number of runs that fit in the tracker.
    pub fn capacity(&self) -> (n: usize)
        ensures
            n == self.spec_capacity(),
    {
        self.cap
    }

    /// The address of the tracker's storage.
    pub fn buffer(&self) -> (a: u64)
        ensures
            a == self.spec_buffer(),
    {
        self.storage
    }

    /// The runs of the tracker, in the order in which it holds them.
    pub fn as_ref(&self) -> (s: &[UsedFrame])
        ensures
            s@ == self@,
    {
        self.used_frames.as_slice()
    }

    /// The runs of the tracker, to be changed in place.
    pub fn as_mut(&mut self) -> (s: &mut [UsedFrame])
        ensures
            s@ == old(self)@,
            final(self)@ == final(s)@,
            final(self).spec_capacity() == old(self).spec_capacity(),
            final(self).spec_buffer() == old(self).spec_buffer(),
    {
        self.used_frames.as_mut_slice()
    }

    /// Appends `used_frame`. The tracker must have room for it.
    pub fn push_used_frame(&mut self, used_frame: UsedFrame)
        requires
            old(self).wf(),
            old(self)@.len() < old(self).spec_capacity(),
            used_frame.wf(),
        ensures
            final(self)@ == old(self)@.push(used_frame),
            final(self).spec_capacity() == old(self).spec_capacity(),
            final(self).spec_buffer() == old(self).spec_buffer(),
            final(self).wf(),
    {
        self.used_frames.push(used_frame);
    }

    /// Sorts the runs by ascending start address. Runs that start at the same
    /// address keep their order.
    pub fn sort_in_place(&mut self)
        ensures
            final(self)@ == sort_runs(old(self)@),
            sorted_by_frame(final(self)@),
            final(self)@.to_multiset() == old(self)@.to_multiset(),
            final(self)@.len() == old(self)@.len(),
            final(self).spec_capacity() == old(self).spec_capacity(),
            final(self).spec_buffer() == old(self).spec_buffer(),
            old(self).wf() ==> final(self).wf(),
            runs_disjoint(old(self)@) ==> runs_disjoint(final(self)@),
            forall|addr: int| in_use(final(self)@, addr) <==> in_use(old(self)@, addr),
    {
        let ghost before = self.used_frames@;
        let len: usize = self.used_frames.len();
        proof {
            lemma_sort_runs(before);
            lemma_sort_runs_wf(before);
            lemma_sort_runs_disjoint(before);
            lemma_sort_runs_in_use(before);
        }
        if len == 0 {
            return ;
        }
        let mut i: usize = len - 1;
        proof {
            let tail = before.subrange(i as int, len as int);
            assert(sort_runs(tail.subrange(1, tail.len() as int)) =~= Seq::<UsedFrame>::empty());
        }
        while i > 0
            invariant
                len == before.len(),
                i < len,
                self.used_frames@ == before.subrange(0, i as int) + sort_runs(
                    before.subrange(i as int, len as int),
                ),
                self.storage == old(self).storage,
                self.cap == old(self).cap,
            decreases i,
        {
            i = i - 1;
            let ghost t = sort_runs(before.subrange(i as int + 1, len as int));
            proof {
                lemma_sort_runs(before.subrange(i as int + 1, len as int));
            }
            let key = self.used_frames[i];
            let mut j: usize = i + 1;
            while j < len && self.used_frames[j].frame < key.frame
                invariant
                    len == before.len(),
                    t.len() == len - i - 1,
                    i + 1 <= j <= len,
                    self.used_frames@.len() == len,
                    forall|k: int| 0 <= k < i ==> self.used_frames@[k] == before[k],
                    forall|k: int| i <= k < j - 1 ==> self.used_frames@[k] == t[k - i],
                    forall|k: int| j <= k < len ==> self.used_frames@[k] == t[k - i - 1],
                    forall|m: int| 0 <= m < j - 1 - i ==> t[m].frame < key.frame,
                    self.storage == old(self).storage,
                    self.cap == old(self).cap,
                decreases len - j,
            {
                let moved = self.used_frames[j];
                self.used_frames[j - 1] = moved;
                j = j + 1;
            }
            self.used_frames[j - 1] = key;
            proof {
                let k0 = j as int - 1 - i as int;
                lemma_insert_run_at(key, t, k0);
                let tail = before.subrange(i as int, len as int);
                assert(tail.subrange(1, tail.len() as int) =~= before.subrange(
                    i as int + 1,
                    len as int,
                ));
            }
        }
        proof {
            assert(before.subrange(0, len as int) =~= before);
        }
    }

    /// Sorts the runs and joins each run to the one before it where the two
    /// can merge and 32 bits can count the frames of both.
    ///
    /// Runs with the tag `Unknown` are sorted with the others and never
    /// joined. Two runs whose frames 32 bits cannot count together stay two
    /// runs. Where 32 bits can count the frames of all runs together, no run
    /// can merge with the run behind it afterwards.
    pub fn merge_all(&mut self)
        requires
            old(self).wf(),
        ensures
            final(self)@ == merge_result(old(self)@),
            final(self).wf(),
            final(self)@.len() <= old(self)@.len(),
            final(self).spec_capacity() == old(self).spec_capacity(),
            final(self).spec_buffer() == old(self).spec_buffer(),
            sorted_by_frame(final(self)@),
            no_neighbours_joinable(final(self)@),
            total_count(old(self)@) <= u32::MAX ==> no_neighbours_mergeable(final(self)@),
            starts_kept(old(self)@, final(self)@),
            forall|u: UsedFrame|
                u.ty == FrameUsageType::Unknown ==> final(self)@.to_multiset().count(u) == old(
                    self,
                )@.to_multiset().count(u),
            forall|addr: int, ty: FrameUsageType|
                covers(final(self)@, addr, ty) <==> covers(old(self)@, addr, ty),
            forall|addr: int| in_use(final(self)@, addr) <==> in_use(old(self)@, addr),
            runs_disjoint(old(self)@) ==> runs_disjoint(final(self)@) && strictly_sorted(
                final(self)@,
            ),
    {
        let ghost before = self.used_frames@;
        proof {
            lemma_merge_result(before);
            lemma_merge_result_in_use(before);
            lemma_merge_result_total(before);
            lemma_merge_result_starts(before);
        }
        self.sort_in_place();
        let ghost sorted = self.used_frames@;
        let len: usize = self.used_frames.len();
        let mut write_idx: usize = 0;
        let mut i: usize = 0;
        while i < len
            invariant
                len == sorted.len(),
                write_idx <= i <= len,
                self.used_frames@.len() == len,
                runs_wf(sorted),
                self.used_frames@.subrange(0, write_idx as int) == coalesce(
                    sorted.subrange(0, i as int),
                ),
                forall|k: int| i <= k < len ==> #[trigger] self.used_frames@[k] == sorted[k],
                write_idx > 0 && i < len ==> !self.used_frames@[write_idx as int - 1].joinable(
                    sorted[i as int],
                ),
                self.storage == old(self).storage,
                self.cap == old(self).cap,
            decreases len - i,
        {
            let ghost done = self.used_frames@.subrange(0, write_idx as int);
            let mut current = self.used_frames[i];
            proof {
                assert(sorted.subrange(0, i as int + 1).drop_last() =~= sorted.subrange(
                    0,
                    i as int,
                ));
            }
            let ghost picked: int = i as int;
            i = i + 1;
            while i < len && current.can_join(&self.used_frames[i])
                invariant
                    len == sorted.len(),
                    write_idx < i <= len,
                    picked < i,
                    self.used_frames@.len() == len,
                    runs_wf(sorted),
                        done == self.used_frames@.subrange(0, write_idx as int),
                    coalesce(sorted.subrange(0, i as int)) == done.push(current),
                    forall|k: int| i <= k < len ==> #[trigger] self.used_frames@[k] == sorted[k],
                    current.wf(),
                    self.storage == old(self).storage,
                    self.cap == old(self).cap,
                decreases len - i,
            {
                let next = self.used_frames[i];
                proof {
                    assert(sorted.subrange(0, i as int + 1).drop_last() =~= sorted.subrange(
                        0,
                        i as int,
                    ));
                    lemma_merged(current, next);
                }
                current.merge(next);
                i = i + 1;
            }
            self.used_frames[write_idx] = current;
            write_idx = write_idx + 1;
        }
        self.used_frames.truncate(write_idx);
        proof {
            assert(sorted.subrange(0, len as int) =~= sorted);
            lemma_coalesce_wf(sorted);
        }
    }

    /// Gives every run with the tag `Unknown` the tag `ty`.
    pub fn reclassify_unknown(&mut self, ty: FrameUsageType)
        ensures
            final(self)@ == retagged(old(self)@, ty),
            final(self)@.len() == old(self)@.len(),
            final(self).spec_capacity() == old(self).spec_capacity(),
            final(self).spec_buffer() == old(self).spec_buffer(),
            old(self).wf() ==> final(self).wf(),
            runs_disjoint(old(self)@) ==> runs_disjoint(final(self)@),
            forall|addr: int| in_use(final(self)@, addr) <==> in_use(old(self)@, addr),
    {
        let ghost before = self.used_frames@;
        let len: usize = self.used_frames.len();
        let mut i: usize = 0;
        proof {
            lemma_retagged(before, ty);
        }
        while i < len
            invariant
                i <= len,
                len == before.len(),
                self.used_frames@.len() == len,
                forall|k: int| 0 <= k < i ==> self.used_frames@[k] == retagged(before, ty)[k],
                forall|k: int| i <= k < len ==> self.used_frames@[k] == before[k],
                self.storage == old(self).storage,
                self.cap == old(self).cap,
            decreases len - i,
        {
            let run = self.used_frames[i];
            if run.ty == FrameUsageType::Unknown {
                self.used_frames[i] = UsedFrame { frame: run.frame, count: run.count, ty };
            }
            i = i + 1;
        }
    }

    /// Whether the tracker is merged: whether no run can merge with the run
    /// behind it.
    pub fn is_merged(&self) -> (b: bool)
        requires
            self.wf(),
        ensures
            b == no_neighbours_mergeable(self@),
    {
        let len: usize = self.used_frames.len();
        let mut i: usize = 1;
        while i < len
            invariant
                1 <= i,
                len == self.used_frames@.len(),
                runs_wf(self.used_frames@),
                forall|k: int|
                    0 <= k < i - 1 ==> !(#[trigger] self.used_frames@[k]).mergeable(
                        self.used_frames@[k + 1],
                    ),
            decreases len - i,
        {
            let left = self.used_frames[i - 1];
            let right = self.used_frames[i];
            if left.can_merge(&right) {
                return false;
            }
            i = i + 1;
        }
        true
    }
}

} // verus!
