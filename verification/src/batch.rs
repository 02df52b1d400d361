//! How a batch of frames, allocated in one go, is written down as runs.

use vstd::prelude::*;
use crate::used_frame::{FrameUsageType, UsedFrame};
use crate::runs::{disjoint_from, in_use, lemma_push_run, runs_disjoint, runs_wf};

verus! {

/// The run of one frame of `pages` pages at `frame`.
pub open spec fn single(frame: u64, pages: u32, ty: FrameUsageType) -> UsedFrame {
    UsedFrame { frame, count: pages, ty }
}

/// The run `r`, longer by `pages` pages.
pub open spec fn grown(r: UsedFrame, pages: u32) -> UsedFrame {
    UsedFrame { frame: r.frame, count: (r.count + pages) as u32, ty: r.ty }
}

/// The frame of `pages` pages at `frame` goes on the run `r`: the run ends
/// where the frame starts, and 32 bits can count the frames of both.
pub open spec fn follows(r: UsedFrame, frame: u64, pages: u32) -> bool {
    r.end() == frame && r.count + pages <= u32::MAX
}

/// The runs `acc` with the frame at `frame` taken in: the last run grows by
/// the frame where the frame goes on it, else the frame starts a run of its
/// own.
pub open spec fn extend_batch(acc: Seq<UsedFrame>, frame: u64, pages: u32, ty: FrameUsageType) -> Seq<
    UsedFrame,
> {
    if acc.len() > 0 && follows(acc.last(), frame, pages) {
        acc.drop_last().push(grown(acc.last(), pages))
    } else {
        acc.push(single(frame, pages, ty))
    }
}

/// The runs that the frames `frames` of `pages` pages each are recorded as:
/// each stretch of frames that follow one another in memory is one run.
pub open spec fn batch_runs(frames: Seq<u64>, pages: u32, ty: FrameUsageType) -> Seq<UsedFrame>
    decreases frames.len(),
{
    if frames.len() == 0 {
        Seq::empty()
    } else {
        extend_batch(batch_runs(frames.drop_last(), pages, ty), frames.last(), pages, ty)
    }
}

/// Each frame of `frames` starts on a frame boundary and lies, with its
/// `size` bytes, within the physical address space.
pub open spec fn frames_in_bounds(frames: Seq<u64>, size: int) -> bool {
    forall|k: int|
        0 <= k < frames.len() ==> (#[trigger] frames[k]) % 4096 == 0 && frames[k] + size
            <= 0x0010_0000_0000_0000
}

/// No two frames of `frames`, of `size` bytes each, share an address.
pub open spec fn frames_apart(frames: Seq<u64>, size: int) -> bool {
    forall|a: int, b: int|
        0 <= a < b < frames.len() ==> frames[a] + size <= frames[b] || frames[b] + size
            <= frames[a]
}

/// The address `addr` lies in one of the frames `frames` of `size` bytes.
pub open spec fn in_frames(frames: Seq<u64>, size: int, addr: int) -> bool {
    exists|k: int| 0 <= k < frames.len() && (#[trigger] frames[k]) <= addr < frames[k] + size
}

/// A batch has no more runs than any longer batch that starts with it.
pub proof fn lemma_batch_prefix(frames: Seq<u64>, pages: u32, ty: FrameUsageType, i: int)
    requires
        0 <= i <= frames.len(),
    ensures
        batch_runs(frames.subrange(0, i), pages, ty).len() <= batch_runs(frames, pages, ty).len(),
        batch_runs(frames, pages, ty).len() <= frames.len(),
        frames.len() > 0 ==> batch_runs(frames, pages, ty).len() > 0,
    decreases frames.len(),
{
    if frames.len() > 0 {
        lemma_batch_prefix(frames.drop_last(), pages, ty, 0);
    }
    if i == frames.len() {
        assert(frames.subrange(0, i) =~= frames);
    } else {
        lemma_batch_prefix(frames.drop_last(), pages, ty, i);
        assert(frames.drop_last().subrange(0, i) =~= frames.subrange(0, i));
    }
}

/// The runs of a batch are well formed, carry the batch's tag, and the last
/// of them ends where the last frame ends.
pub proof fn lemma_batch_runs_wf(frames: Seq<u64>, pages: u32, ty: FrameUsageType)
    requires
        pages > 0,
        frames_in_bounds(frames, pages * 4096),
    ensures
        runs_wf(batch_runs(frames, pages, ty)),
        forall|i: int|
            0 <= i < batch_runs(frames, pages, ty).len() ==> (#[trigger] batch_runs(
                frames,
                pages,
                ty,
            )[i]).ty == ty,
        frames.len() > 0 ==> batch_runs(frames, pages, ty).len() > 0 && batch_runs(
            frames,
            pages,
            ty,
        ).last().end() == frames.last() + pages * 4096,
    decreases frames.len(),
{
    if frames.len() > 0 {
        let prev = frames.drop_last();
        lemma_batch_runs_wf(prev, pages, ty);
    }
}

/// The runs of a batch of frames that share no address are disjoint, and
/// they hold the addresses of the frames and no others.
pub proof fn lemma_batch_runs_cover(frames: Seq<u64>, pages: u32, ty: FrameUsageType)
    requires
        pages > 0,
        frames_in_bounds(frames, pages * 4096),
        frames_apart(frames, pages * 4096),
    ensures
        runs_disjoint(batch_runs(frames, pages, ty)),
        forall|addr: int|
            in_use(batch_runs(frames, pages, ty), addr) <==> in_frames(
                frames,
                pages * 4096,
                addr,
            ),
    decreases frames.len(),
{
    let size = pages * 4096;
    let b = batch_runs(frames, pages, ty);
    if frames.len() == 0 {
        assert forall|addr: int| in_use(b, addr) <==> in_frames(frames, size, addr) by {}
    } else {
        let prev = frames.drop_last();
        let acc = batch_runs(prev, pages, ty);
        let f = frames.last();
        assert forall|k: int| 0 <= k < prev.len() implies prev[k] == frames[k] by {}
        assert(frames_in_bounds(prev, size));
        assert(frames_apart(prev, size)) by {
            assert forall|x: int, y: int| 0 <= x < y < prev.len() implies prev[x] + size
                <= prev[y] || prev[y] + size <= prev[x] by {
                assert(prev[x] == frames[x] && prev[y] == frames[y]);
            }
        }
        lemma_batch_runs_cover(prev, pages, ty);
        lemma_batch_runs_wf(prev, pages, ty);
        lemma_batch_runs_wf(frames, pages, ty);
        assert(frames[frames.len() - 1] == f);
        let one = single(f, pages, ty);
        // no address of the new frame is in use so far
        assert forall|addr: int| f <= addr < f + size implies !in_use(acc, addr) by {
            if in_use(acc, addr) {
                assert(in_frames(prev, size, addr));
                let k = choose|k: int|
                    0 <= k < prev.len() && (#[trigger] prev[k]) <= addr < prev[k] + size;
                assert(frames[k] == prev[k]);
                assert(frames[k] + size <= frames[frames.len() - 1] || frames[frames.len() - 1]
                    + size <= frames[k]);
            }
        }
        assert(disjoint_from(one, acc)) by {
            assert forall|i: int| 0 <= i < acc.len() implies !one.overlaps(#[trigger] acc[i]) by {
                if one.overlaps(acc[i]) {
                    assert(acc[i].wf());
                    let addr: int = if one.frame >= acc[i].frame {
                        one.frame as int
                    } else {
                        acc[i].frame as int
                    };
                    assert(acc[i].contains(addr));
                    assert(in_use(acc, addr));
                }
            }
        }
        // with the frame appended as a run of its own
        let pushed = acc.push(one);
        lemma_push_run(acc, one);
        assert forall|addr: int| in_use(pushed, addr) <==> in_frames(frames, size, addr) by {
            if in_frames(frames, size, addr) {
                let k = choose|k: int|
                    0 <= k < frames.len() && (#[trigger] frames[k]) <= addr < frames[k] + size;
                if k < prev.len() {
                    assert(prev[k] == frames[k]);
                    assert(in_frames(prev, size, addr));
                }
            }
            if in_frames(prev, size, addr) {
                let k = choose|k: int|
                    0 <= k < prev.len() && (#[trigger] prev[k]) <= addr < prev[k] + size;
                assert(frames[k] == prev[k]);
            }
            if one.contains(addr) {
                assert(frames[frames.len() - 1] <= addr < frames[frames.len() - 1] + size);
            }
        }
        if acc.len() > 0 && follows(acc.last(), f, pages) {
            let last = acc.last();
            let g = grown(last, pages);
            let front = acc.drop_last();
            assert(b =~= front.push(g));
            assert(acc[acc.len() - 1].wf());
            assert forall|i: int, j: int| 0 <= i < j < b.len() implies !b[i].overlaps(b[j]) by {
                assert(b[i] == acc[i]);
                if j < b.len() - 1 {
                    assert(b[j] == acc[j]);
                } else {
                    assert(b[j] == g);
                    assert(!acc[i].overlaps(acc[acc.len() - 1]));
                    assert(!one.overlaps(acc[i]));
                }
            }
            assert forall|addr: int| in_use(b, addr) <==> in_use(pushed, addr) by {
                if in_use(b, addr) {
                    let i = choose|i: int| 0 <= i < b.len() && (#[trigger] b[i]).contains(addr);
                    if i < b.len() - 1 {
                        assert(pushed[i] == b[i]);
                    } else {
                        assert(b[i] == g);
                        if last.contains(addr) {
                            assert(pushed[acc.len() - 1] == last);
                        } else {
                            assert(pushed[pushed.len() - 1] == one);
                            assert(one.contains(addr));
                        }
                    }
                }
                if in_use(pushed, addr) {
                    let i = choose|i: int|
                        0 <= i < pushed.len() && (#[trigger] pushed[i]).contains(addr);
                    if i < acc.len() - 1 {
                        assert(b[i] == pushed[i]);
                    } else {
                        assert(b[b.len() - 1] == g);
                        assert(g.contains(addr));
                    }
                }
            }
        } else {
            assert(b =~= pushed);
        }
    }
}

/// Each address of a frame of a batch lies in a run of the batch.
pub proof fn lemma_batch_runs_hold(frames: Seq<u64>, pages: u32, ty: FrameUsageType, addr: int)
    requires
        pages > 0,
        frames_in_bounds(frames, pages * 4096),
        in_frames(frames, pages * 4096, addr),
    ensures
        in_use(batch_runs(frames, pages, ty), addr),
    decreases frames.len(),
{
    let size = pages * 4096;
    let b = batch_runs(frames, pages, ty);
    let prev = frames.drop_last();
    let acc = batch_runs(prev, pages, ty);
    let f = frames.last();
    lemma_batch_runs_wf(prev, pages, ty);
    let k = choose|k: int|
        0 <= k < frames.len() && (#[trigger] frames[k]) <= addr < frames[k] + size;
    if k < prev.len() {
        assert(prev[k] == frames[k]);
        lemma_batch_runs_hold(prev, pages, ty, addr);
        let i = choose|i: int| 0 <= i < acc.len() && (#[trigger] acc[i]).contains(addr);
        if acc.len() > 0 && follows(acc.last(), f, pages) {
            if i < acc.len() - 1 {
                assert(b[i] == acc[i]);
            } else {
                assert(b[b.len() - 1] == grown(acc.last(), pages));
            }
        } else {
            assert(b[i] == acc[i]);
        }
    }
}

/// The runs that the frames `frames` of `pages` pages each are recorded as.
pub fn batch_of_frames(frames: &[u64], pages: u32, ty: FrameUsageType) -> (batch: Vec<UsedFrame>)
    requires
        pages > 0,
        frames_in_bounds(frames@, pages * 4096),
    ensures
        batch@ == batch_runs(frames@, pages, ty),
{
    let mut batch: Vec<UsedFrame> = Vec::new();
    let mut i: usize = 0;
    while i < frames.len()
        invariant
            i <= frames.len(),
            pages > 0,
            frames_in_bounds(frames@, pages * 4096),
            batch@ == batch_runs(frames@.subrange(0, i as int), pages, ty),
        decreases frames.len() - i,
    {
        let frame: u64 = frames[i];
        let n: usize = batch.len();
        proof {
            assert(frames@.subrange(0, i as int + 1).drop_last() =~= frames@.subrange(0, i as int));
            assert forall|k: int| 0 <= k < i implies (#[trigger] frames@.subrange(0, i as int)[k])
                % 4096 == 0 && frames@.subrange(0, i as int)[k] + pages * 4096
                <= 0x0010_0000_0000_0000 by {
                assert(frames@.subrange(0, i as int)[k] == frames@[k]);
            }
            lemma_batch_runs_wf(frames@.subrange(0, i as int), pages, ty);
        }
        let mut extended: bool = false;
        if n > 0 {
            let last = batch[n - 1];
            assert(last.wf());
            if last.frame + last.count as u64 * 4096 == frame && last.count <= u32::MAX - pages {
                batch[n - 1] = UsedFrame {
                    frame: last.frame,
                    count: last.count + pages,
                    ty: last.ty,
                };
                extended = true;
            }
        }
        if !extended {
            batch.push(UsedFrame { frame, count: pages, ty });
        }
        i = i + 1;
    }
    proof {
        assert(frames@.subrange(0, i as int) =~= frames@);
    }
    batch
}

} // verus!
