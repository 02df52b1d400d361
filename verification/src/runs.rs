//! Sequences of runs: what it means for them to be sorted, disjoint and
//! coalesced, and the facts that relate these notions.

use vstd::prelude::*;
use crate::used_frame::{FrameUsageType, UsedFrame};

verus! {

/// Every run of `s` is well formed.
pub open spec fn runs_wf(s: Seq<UsedFrame>) -> bool {
    forall|i: int| 0 <= i < s.len() ==> (#[trigger] s[i]).wf()
}

/// The runs of `s` come in ascending order of their start address.
pub open spec fn sorted_by_frame(s: Seq<UsedFrame>) -> bool {
    forall|i: int, j: int| 0 <= i < j < s.len() ==> s[i].frame <= s[j].frame
}

/// The start addresses of the runs of `s` strictly ascend.
pub open spec fn strictly_sorted(s: Seq<UsedFrame>) -> bool {
    forall|i: int, j: int| 0 <= i < j < s.len() ==> s[i].frame < s[j].frame
}

/// No two runs of `s` share an address.
pub open spec fn runs_disjoint(s: Seq<UsedFrame>) -> bool {
    forall|i: int, j: int| 0 <= i < j < s.len() ==> !s[i].overlaps(s[j])
}

/// The run `x` shares no address with any run of `s`.
pub open spec fn disjoint_from(x: UsedFrame, s: Seq<UsedFrame>) -> bool {
    forall|i: int| 0 <= i < s.len() ==> !x.overlaps(#[trigger] s[i])
}

/// `t` with `x` put in front of the first run that does not start below it.
pub open spec fn insert_run(x: UsedFrame, t: Seq<UsedFrame>) -> Seq<UsedFrame>
    decreases t.len(),
{
    if t.len() == 0 || x.frame <= t[0].frame {
        seq![x] + t
    } else {
        seq![t[0]] + insert_run(x, t.subrange(1, t.len() as int))
    }
}

/// The runs of `s` in ascending order of their start address. Runs with the
/// same start keep the order they have in `s`.
pub open spec fn sort_runs(s: Seq<UsedFrame>) -> Seq<UsedFrame>
    decreases s.len(),
{
    if s.len() == 0 {
        s
    } else {
        insert_run(s[0], sort_runs(s.subrange(1, s.len() as int)))
    }
}

/// Where `insert_run` puts `x`: behind the `k` runs that start below it.
pub proof fn lemma_insert_run_at(x: UsedFrame, t: Seq<UsedFrame>, k: int)
    requires
        0 <= k <= t.len(),
        forall|m: int| 0 <= m < k ==> t[m].frame < x.frame,
        k == t.len() || x.frame <= t[k].frame,
    ensures
        insert_run(x, t) == t.subrange(0, k).push(x) + t.subrange(k, t.len() as int),
    decreases k,
{
    if k > 0 {
        let rest = t.subrange(1, t.len() as int);
        lemma_insert_run_at(x, rest, k - 1);
    }
}

/// `insert_run` adds one run and keeps the others.
pub proof fn lemma_insert_run_members(x: UsedFrame, t: Seq<UsedFrame>)
    ensures
        insert_run(x, t).len() == t.len() + 1,
        insert_run(x, t).to_multiset() == t.to_multiset().insert(x),
        forall|i: int|
            0 <= i < t.len() + 1 ==> #[trigger] insert_run(x, t)[i] == x || t.contains(
                insert_run(x, t)[i],
            ),
    decreases t.len(),
{
    broadcast use vstd::seq_lib::group_to_multiset_ensures;

    if t.len() == 0 || x.frame <= t[0].frame {
        vstd::seq_lib::lemma_multiset_commutative(seq![x], t);
    } else {
        let rest = t.subrange(1, t.len() as int);
        let inner = insert_run(x, rest);
        lemma_insert_run_members(x, rest);
        assert(t =~= seq![t[0]] + rest);
        vstd::seq_lib::lemma_multiset_commutative(seq![t[0]], rest);
        vstd::seq_lib::lemma_multiset_commutative(seq![t[0]], inner);
    }
}

/// `insert_run` keeps a sorted sequence sorted.
pub proof fn lemma_insert_run_sorted(x: UsedFrame, t: Seq<UsedFrame>)
    requires
        sorted_by_frame(t),
    ensures
        sorted_by_frame(insert_run(x, t)),
    decreases t.len(),
{
    if t.len() > 0 && x.frame > t[0].frame {
        let rest = t.subrange(1, t.len() as int);
        lemma_insert_run_sorted(x, rest);
        lemma_insert_run_members(x, rest);
    }
}

/// `sort_runs` gives a sorted sequence that holds each run as often as `s` does.
pub proof fn lemma_sort_runs(s: Seq<UsedFrame>)
    ensures
        sort_runs(s).len() == s.len(),
        sorted_by_frame(sort_runs(s)),
        sort_runs(s).to_multiset() == s.to_multiset(),
        forall|i: int| 0 <= i < s.len() ==> s.contains(#[trigger] sort_runs(s)[i]),
    decreases s.len(),
{
    broadcast use vstd::seq_lib::group_to_multiset_ensures;

    if s.len() > 0 {
        let rest = s.subrange(1, s.len() as int);
        let t = sort_runs(rest);
        lemma_sort_runs(rest);
        lemma_insert_run_sorted(s[0], t);
        lemma_insert_run_members(s[0], t);
        assert(s =~= seq![s[0]] + rest);
        vstd::seq_lib::lemma_multiset_commutative(seq![s[0]], rest);
    }
}

/// Sorting keeps every run as it is, so well-formed runs stay well formed.
pub proof fn lemma_sort_runs_wf(s: Seq<UsedFrame>)
    ensures
        runs_wf(s) ==> runs_wf(sort_runs(s)),
{
    lemma_sort_runs(s);
}

/// Some run of `s` with the tag `ty` holds the address `addr`.
pub open spec fn covers(s: Seq<UsedFrame>, addr: int, ty: FrameUsageType) -> bool {
    exists|i: int| 0 <= i < s.len() && (#[trigger] s[i]).ty == ty && s[i].contains(addr)
}

/// `acc` with the run `r` taken in: joined to the last run of `acc` where
/// the two can merge and the joined run can be counted in 32 bits, appended
/// otherwise.
pub open spec fn absorb(acc: Seq<UsedFrame>, r: UsedFrame) -> Seq<UsedFrame> {
    if acc.len() > 0 && acc.last().joinable(r) {
        acc.drop_last().push(acc.last().merged(r))
    } else {
        acc.push(r)
    }
}

/// The runs of `s` taken in one after the other, from the first to the last:
/// each run is joined to the run before it where the two can be joined.
pub open spec fn coalesce(s: Seq<UsedFrame>) -> Seq<UsedFrame>
    decreases s.len(),
{
    if s.len() == 0 {
        Seq::empty()
    } else {
        absorb(coalesce(s.drop_last()), s.last())
    }
}

/// The runs of `s` with the tag `Unknown` changed to `ty`.
pub open spec fn retagged(s: Seq<UsedFrame>, ty: FrameUsageType) -> Seq<UsedFrame> {
    Seq::new(
        s.len(),
        |i: int|
            if s[i].ty == FrameUsageType::Unknown {
                UsedFrame { frame: s[i].frame, count: s[i].count, ty }
            } else {
                s[i]
            },
    )
}

/// The run that two well-formed runs merge to is well formed, and it covers
/// the addresses of both and no others.
pub proof fn lemma_merged(a: UsedFrame, r: UsedFrame)
    requires
        a.wf(),
        r.wf(),
        a.joinable(r),
    ensures
        a.merged(r).wf(),
        a.merged(r).ty == a.ty,
        a.merged(r).ty == r.ty,
        a.frame <= r.frame ==> a.merged(r).frame == a.frame && a.merged(r).end() == r.end() && a.end()
            == r.frame,
        forall|addr: int| a.merged(r).contains(addr) <==> a.contains(addr) || r.contains(addr),
{
}

/// Coalescing well-formed runs gives well-formed runs, and no more of them.
pub proof fn lemma_coalesce_wf(s: Seq<UsedFrame>)
    requires
        runs_wf(s),
    ensures
        runs_wf(coalesce(s)),
        coalesce(s).len() <= s.len(),
        s.len() > 0 ==> coalesce(s).len() > 0,
    decreases s.len(),
{
    if s.len() > 0 {
        let acc = coalesce(s.drop_last());
        let r = s.last();
        lemma_coalesce_wf(s.drop_last());
        if acc.len() > 0 && acc.last().joinable(r) {
            lemma_merged(acc.last(), r);
        }
    }
}

/// Coalescing keeps what is covered: an address lies in a run with the tag
/// `ty` afterwards exactly if it did before.
pub proof fn lemma_coalesce_covers(s: Seq<UsedFrame>, addr: int, ty: FrameUsageType)
    requires
        runs_wf(s),
    ensures
        covers(coalesce(s), addr, ty) <==> covers(s, addr, ty),
    decreases s.len(),
{
    if s.len() > 0 {
        let prev = s.drop_last();
        let acc = coalesce(prev);
        let r = s.last();
        let c = coalesce(s);
        lemma_coalesce_wf(prev);
        lemma_coalesce_covers(prev, addr, ty);
        // what `s` covers is what `prev` covers, and what its last run holds
        if covers(s, addr, ty) {
            let i = choose|i: int|
                0 <= i < s.len() && (#[trigger] s[i]).ty == ty && s[i].contains(addr);
            if i < s.len() - 1 {
                assert(prev[i] == s[i]);
            }
        }
        if acc.len() > 0 && acc.last().joinable(r) {
            let m = acc.last().merged(r);
            lemma_merged(acc.last(), r);
            if covers(acc, addr, ty) {
                let i = choose|i: int|
                    0 <= i < acc.len() && (#[trigger] acc[i]).ty == ty && acc[i].contains(addr);
                if i < acc.len() - 1 {
                    assert(c[i] == acc[i]);
                } else {
                    assert(c[c.len() - 1] == m);
                }
            }
        } else {
            if covers(acc, addr, ty) {
                let i = choose|i: int|
                    0 <= i < acc.len() && (#[trigger] acc[i]).ty == ty && acc[i].contains(addr);
                assert(c[i] == acc[i]);
            }
        }
    }
}

/// Coalescing keeps each run with the tag `Unknown` as it is, and as often as it occurs.
pub proof fn lemma_coalesce_keeps_unknown(s: Seq<UsedFrame>, u: UsedFrame)
    requires
        u.ty == FrameUsageType::Unknown,
    ensures
        coalesce(s).to_multiset().count(u) == s.to_multiset().count(u),
    decreases s.len(),
{
    broadcast use vstd::seq_lib::group_to_multiset_ensures;

    if s.len() > 0 {
        let prev = s.drop_last();
        let acc = coalesce(prev);
        let r = s.last();
        lemma_coalesce_keeps_unknown(prev, u);
        assert(s =~= prev.push(r));
        if acc.len() > 0 && acc.last().joinable(r) {
            assert(acc =~= acc.drop_last().push(acc.last()));
        }
    }
}

/// Coalescing sorted runs gives sorted runs of which no two neighbours can
/// be joined.
pub proof fn lemma_coalesce_sorted(s: Seq<UsedFrame>)
    requires
        runs_wf(s),
        sorted_by_frame(s),
    ensures
        sorted_by_frame(coalesce(s)),
        forall|i: int|
            0 <= i < coalesce(s).len() - 1 ==> !(#[trigger] coalesce(s)[i]).joinable(
                coalesce(s)[i + 1],
            ),
        s.len() > 0 ==> coalesce(s).len() > 0 && coalesce(s).last().frame <= s.last().frame
            && coalesce(s).last().end() == s.last().end(),
    decreases s.len(),
{
    if s.len() > 0 {
        let prev = s.drop_last();
        let acc = coalesce(prev);
        let r = s.last();
        lemma_coalesce_sorted(prev);
        lemma_coalesce_wf(prev);
        lemma_coalesce_wf(s);
        if acc.len() > 0 && acc.last().joinable(r) {
            lemma_merged(acc.last(), r);
        }
    }
}

/// Some run of `s` starts where `r` starts and has the tag of `r`.
pub open spec fn starts_in(s: Seq<UsedFrame>, r: UsedFrame) -> bool {
    exists|j: int| 0 <= j < s.len() && (#[trigger] s[j]).frame == r.frame && s[j].ty == r.ty
}

/// Each run of `t` starts where some run of `s` starts, and has its tag.
pub open spec fn starts_kept(s: Seq<UsedFrame>, t: Seq<UsedFrame>) -> bool {
    forall|i: int| 0 <= i < t.len() ==> starts_in(s, #[trigger] t[i])
}

/// Each run that comes of coalescing sorted runs starts where one of them
/// starts and has its tag.
pub proof fn lemma_coalesce_starts(s: Seq<UsedFrame>)
    requires
        runs_wf(s),
        sorted_by_frame(s),
    ensures
        forall|i: int| 0 <= i < coalesce(s).len() ==> starts_in(s, #[trigger] coalesce(s)[i]),
    decreases s.len(),
{
    if s.len() > 0 {
        let prev = s.drop_last();
        let acc = coalesce(prev);
        let r = s.last();
        let c = coalesce(s);
        lemma_coalesce_starts(prev);
        lemma_coalesce_sorted(prev);
        lemma_coalesce_wf(prev);
        assert forall|i: int| 0 <= i < c.len() implies starts_in(s, #[trigger] c[i]) by {
            if i < acc.len() && !(i == acc.len() - 1 && acc.last().joinable(r)) {
                assert(c[i] == acc[i]);
                assert(starts_in(prev, acc[i]));
                let j = choose|j: int|
                    0 <= j < prev.len() && (#[trigger] prev[j]).frame == acc[i].frame && prev[j].ty
                        == acc[i].ty;
                assert(s[j] == prev[j]);
            } else if i < acc.len() {
                lemma_merged(acc.last(), r);
                assert(prev.last() == s[s.len() - 2]);
                assert(c[i] == acc.last().merged(r));
                assert(starts_in(prev, acc[i]));
                let j = choose|j: int|
                    0 <= j < prev.len() && (#[trigger] prev[j]).frame == acc[i].frame && prev[j].ty
                        == acc[i].ty;
                assert(s[j] == prev[j]);
            } else {
                assert(c[i] == r);
                assert(s[s.len() - 1] == r);
            }
        }
    }
}

/// Each run of `s` ends before the next one starts.
pub open spec fn runs_ordered(s: Seq<UsedFrame>) -> bool {
    forall|i: int, j: int| 0 <= i < j < s.len() ==> s[i].end() <= s[j].frame
}

/// Sorted runs that share no address lie one behind the other, and the other way round.
pub proof fn lemma_ordered_iff(s: Seq<UsedFrame>)
    requires
        runs_wf(s),
    ensures
        runs_ordered(s) <==> sorted_by_frame(s) && runs_disjoint(s),
        runs_ordered(s) ==> strictly_sorted(s),
{
    if sorted_by_frame(s) && runs_disjoint(s) {
        assert forall|i: int, j: int| 0 <= i < j < s.len() implies s[i].end() <= s[j].frame by {
            assert(!s[i].overlaps(s[j]));
        }
    }
}

/// Putting a run among runs that it shares no address with keeps them disjoint.
pub proof fn lemma_insert_run_disjoint(x: UsedFrame, t: Seq<UsedFrame>)
    requires
        runs_disjoint(t),
        disjoint_from(x, t),
    ensures
        runs_disjoint(insert_run(x, t)),
    decreases t.len(),
{
    lemma_insert_run_members(x, t);
    if t.len() > 0 && x.frame > t[0].frame {
        let rest = t.subrange(1, t.len() as int);
        lemma_insert_run_disjoint(x, rest);
        lemma_insert_run_members(x, rest);
    }
}

/// Sorting keeps disjoint runs disjoint.
pub proof fn lemma_sort_runs_disjoint(s: Seq<UsedFrame>)
    ensures
        runs_disjoint(s) ==> runs_disjoint(sort_runs(s)),
    decreases s.len(),
{
    if runs_disjoint(s) && s.len() > 0 {
        let rest = s.subrange(1, s.len() as int);
        let t = sort_runs(rest);
        lemma_sort_runs_disjoint(rest);
        lemma_sort_runs(rest);
        lemma_insert_run_disjoint(s[0], t);
    }
}

/// Coalescing runs that lie one behind the other keeps them so.
pub proof fn lemma_coalesce_ordered(s: Seq<UsedFrame>)
    requires
        runs_wf(s),
        runs_ordered(s),
    ensures
        runs_ordered(coalesce(s)),
    decreases s.len(),
{
    if s.len() > 0 {
        let prev = s.drop_last();
        let acc = coalesce(prev);
        let r = s.last();
        lemma_ordered_iff(s);
        lemma_ordered_iff(prev);
        lemma_coalesce_ordered(prev);
        lemma_coalesce_sorted(prev);
        lemma_coalesce_wf(prev);
        if acc.len() > 0 && acc.last().joinable(r) {
            lemma_merged(acc.last(), r);
        }
    }
}

/// What `merge_all` leaves of the runs `s`: the sorted runs, coalesced.
pub open spec fn merge_result(s: Seq<UsedFrame>) -> Seq<UsedFrame> {
    coalesce(sort_runs(s))
}

/// Each run of the merged tracker starts where a run started before, and
/// has its tag.
pub proof fn lemma_merge_result_starts(s: Seq<UsedFrame>)
    requires
        runs_wf(s),
    ensures
        starts_kept(s, merge_result(s)),
{
    let t = sort_runs(s);
    lemma_sort_runs(s);
    lemma_sort_runs_wf(s);
    lemma_coalesce_starts(t);
    assert forall|i: int| 0 <= i < merge_result(s).len() implies starts_in(
        s,
        #[trigger] merge_result(s)[i],
    ) by {
        let r = merge_result(s)[i];
        let j = choose|j: int|
            0 <= j < t.len() && (#[trigger] t[j]).frame == r.frame && t[j].ty == r.ty;
        assert(s.contains(t[j]));
        let k = choose|k: int| 0 <= k < s.len() && s[k] == t[j];
        assert(s[k].frame == r.frame && s[k].ty == r.ty);
    }
}

/// No run of `s` can be joined with the run behind it: where two
/// neighbours can merge, the run that covers both has more frames than 32
/// bits can count.
pub open spec fn no_neighbours_joinable(s: Seq<UsedFrame>) -> bool {
    forall|i: int| 0 <= i < s.len() - 1 ==> !(#[trigger] s[i]).joinable(s[i + 1])
}

/// No run of `s` can merge with the run behind it.
pub open spec fn no_neighbours_mergeable(s: Seq<UsedFrame>) -> bool {
    forall|i: int| 0 <= i < s.len() - 1 ==> !(#[trigger] s[i]).mergeable(s[i + 1])
}

/// The number of frames that the runs of `s` count together.
pub open spec fn total_count(s: Seq<UsedFrame>) -> int
    decreases s.len(),
{
    if s.len() == 0 {
        0
    } else {
        total_count(s.drop_last()) + s.last().count
    }
}

/// Runs put behind other runs count the frames of both.
pub proof fn lemma_total_count_concat(a: Seq<UsedFrame>, b: Seq<UsedFrame>)
    ensures
        total_count(a + b) == total_count(a) + total_count(b),
    decreases b.len(),
{
    if b.len() == 0 {
        assert(a + b =~= a);
    } else {
        lemma_total_count_concat(a, b.drop_last());
        assert((a + b).drop_last() =~= a + b.drop_last());
    }
}

/// A single run counts its own frames.
pub proof fn lemma_total_count_one(x: UsedFrame)
    ensures
        total_count(seq![x]) == x.count,
{
    assert(seq![x].drop_last() =~= Seq::<UsedFrame>::empty());
    assert(total_count(Seq::<UsedFrame>::empty()) == 0);
    assert(total_count(seq![x]) == total_count(seq![x].drop_last()) + seq![x].last().count);
}

/// No run of `s` has more frames than all runs of `s` together.
pub proof fn lemma_run_within_total(s: Seq<UsedFrame>, i: int)
    requires
        0 <= i < s.len(),
    ensures
        s[i].count <= total_count(s),
        0 <= total_count(s.drop_last()),
    decreases s.len(),
{
    if s.len() > 1 {
        lemma_run_within_total(s.drop_last(), if i < s.len() - 1 { i } else { 0 });
    } else {
        assert(total_count(s.drop_last()) == 0);
    }
}

/// Two runs of `s` have no more frames together than all runs of `s`.
pub proof fn lemma_pair_within_total(s: Seq<UsedFrame>, i: int, j: int)
    requires
        0 <= i < j < s.len(),
    ensures
        s[i].count + s[j].count <= total_count(s),
    decreases s.len(),
{
    if j == s.len() - 1 {
        lemma_run_within_total(s.drop_last(), i);
    } else {
        lemma_pair_within_total(s.drop_last(), i, j);
    }
}

/// Putting a run in its place adds its frames to the count.
pub proof fn lemma_insert_run_total(x: UsedFrame, t: Seq<UsedFrame>)
    ensures
        total_count(insert_run(x, t)) == total_count(t) + x.count,
    decreases t.len(),
{
    lemma_total_count_one(x);
    if t.len() == 0 || x.frame <= t[0].frame {
        lemma_total_count_concat(seq![x], t);
    } else {
        let rest = t.subrange(1, t.len() as int);
        lemma_insert_run_total(x, rest);
        lemma_total_count_one(t[0]);
        lemma_total_count_concat(seq![t[0]], insert_run(x, rest));
        lemma_total_count_concat(seq![t[0]], rest);
        assert(seq![t[0]] + rest =~= t);
    }
}

/// Sorting keeps the number of frames that the runs count together.
pub proof fn lemma_sort_runs_total(s: Seq<UsedFrame>)
    ensures
        total_count(sort_runs(s)) == total_count(s),
    decreases s.len(),
{
    if s.len() > 0 {
        let rest = s.subrange(1, s.len() as int);
        lemma_sort_runs_total(rest);
        lemma_insert_run_total(s[0], sort_runs(rest));
        lemma_total_count_one(s[0]);
        lemma_total_count_concat(seq![s[0]], rest);
        assert(seq![s[0]] + rest =~= s);
    }
}

/// Coalescing keeps the number of frames that the runs count together.
pub proof fn lemma_coalesce_total(s: Seq<UsedFrame>)
    ensures
        total_count(coalesce(s)) == total_count(s),
    decreases s.len(),
{
    if s.len() > 0 {
        let acc = coalesce(s.drop_last());
        let r = s.last();
        lemma_coalesce_total(s.drop_last());
        if acc.len() > 0 && acc.last().joinable(r) {
            assert(acc.drop_last().push(acc.last().merged(r)).drop_last() =~= acc.drop_last());
        } else {
            assert(acc.push(r).drop_last() =~= acc);
        }
    }
}

/// Merging keeps the number of frames that the runs count together. Where
/// 32 bits can count the frames of all runs together, no run can merge with
/// the run behind it once the runs are merged.
pub proof fn lemma_merge_result_total(s: Seq<UsedFrame>)
    requires
        runs_wf(s),
    ensures
        total_count(merge_result(s)) == total_count(s),
        total_count(s) <= u32::MAX ==> no_neighbours_mergeable(merge_result(s)),
{
    let m = merge_result(s);
    lemma_sort_runs_total(s);
    lemma_coalesce_total(sort_runs(s));
    lemma_merge_result(s);
    if total_count(s) <= u32::MAX {
        assert forall|i: int| 0 <= i < m.len() - 1 implies !(#[trigger] m[i]).mergeable(
            m[i + 1],
        ) by {
            lemma_pair_within_total(m, i, i + 1);
        }
    }
}

/// Among merged runs that shared no address before, no two runs at all can
/// be joined, in whatever places they stand; and where 32 bits can count
/// the frames of all runs together, no two can merge.
pub proof fn lemma_merge_result_no_pair(s: Seq<UsedFrame>)
    requires
        runs_wf(s),
        runs_disjoint(s),
    ensures
        forall|i: int, j: int|
            0 <= i < merge_result(s).len() && 0 <= j < merge_result(s).len() && i != j
                ==> !(#[trigger] merge_result(s)[i]).joinable(#[trigger] merge_result(s)[j]),
        total_count(s) <= u32::MAX ==> forall|i: int, j: int|
            0 <= i < merge_result(s).len() && 0 <= j < merge_result(s).len() && i != j
                ==> !(#[trigger] merge_result(s)[i]).mergeable(#[trigger] merge_result(s)[j]),
{
    let m = merge_result(s);
    lemma_merge_result(s);
    lemma_merge_result_total(s);
    lemma_ordered_iff(m);
    assert forall|i: int, j: int| 0 <= i < m.len() && 0 <= j < m.len() && i != j implies (
    #[trigger] m[i]).mergeable(#[trigger] m[j]) ==> (i == j + 1 || j == i + 1) by {
        if i + 1 < j {
            assert(m[i].end() <= m[i + 1].frame && m[i + 1].end() <= m[j].frame);
        }
        if j + 1 < i {
            assert(m[j].end() <= m[j + 1].frame && m[j + 1].end() <= m[i].frame);
        }
    }
}

/// Sorting keeps what is covered.
pub proof fn lemma_sort_runs_covers(s: Seq<UsedFrame>, addr: int, ty: FrameUsageType)
    ensures
        covers(sort_runs(s), addr, ty) <==> covers(s, addr, ty),
{
    broadcast use vstd::seq_lib::group_to_multiset_ensures;

    lemma_sort_runs(s);
    if covers(s, addr, ty) {
        let i = choose|i: int|
            0 <= i < s.len() && (#[trigger] s[i]).ty == ty && s[i].contains(addr);
        assert(s.to_multiset().count(s[i]) > 0);
    }
}

/// What holds of the merged runs of a well-formed inventory.
///
/// The merged runs are sorted, and no run can be joined with the run behind
/// it. Each of them starts where a run started before and has the tag of
/// that run. They cover each address under the tags under which it was
/// covered before.
/// A run with the tag `Unknown` occurs as often as before. If the runs shared
/// no address before, they share none afterwards, and their start addresses
/// strictly ascend.
pub proof fn lemma_merge_result(s: Seq<UsedFrame>)
    requires
        runs_wf(s),
    ensures
        runs_wf(merge_result(s)),
        merge_result(s).len() <= s.len(),
        sorted_by_frame(merge_result(s)),
        no_neighbours_joinable(merge_result(s)),
        forall|u: UsedFrame|
            u.ty == FrameUsageType::Unknown ==> merge_result(s).to_multiset().count(u)
                == s.to_multiset().count(u),
        forall|addr: int, ty: FrameUsageType|
            covers(merge_result(s), addr, ty) <==> covers(s, addr, ty),
        runs_disjoint(s) ==> runs_disjoint(merge_result(s)) && strictly_sorted(merge_result(s)),
{
    let t = sort_runs(s);
    lemma_sort_runs(s);
    lemma_sort_runs_wf(s);
    lemma_coalesce_wf(t);
    lemma_coalesce_sorted(t);
    assert forall|u: UsedFrame| u.ty == FrameUsageType::Unknown implies merge_result(
        s,
    ).to_multiset().count(u) == s.to_multiset().count(u) by {
        lemma_coalesce_keeps_unknown(t, u);
    }
    assert forall|addr: int, ty: FrameUsageType|
        covers(merge_result(s), addr, ty) <==> covers(s, addr, ty) by {
        lemma_coalesce_covers(t, addr, ty);
        lemma_sort_runs_covers(s, addr, ty);
    }
    if runs_disjoint(s) {
        lemma_sort_runs_disjoint(s);
        lemma_ordered_iff(t);
        lemma_coalesce_ordered(t);
        lemma_ordered_iff(merge_result(s));
    }
}

/// Some run of `s` holds the address `addr`.
pub open spec fn in_use(s: Seq<UsedFrame>, addr: int) -> bool {
    exists|i: int| 0 <= i < s.len() && (#[trigger] s[i]).contains(addr)
}

/// An address is in use exactly if it is covered under some tag.
pub proof fn lemma_in_use_covers(s: Seq<UsedFrame>, addr: int)
    ensures
        in_use(s, addr) <==> exists|ty: FrameUsageType| covers(s, addr, ty),
{
    if in_use(s, addr) {
        let i = choose|i: int| 0 <= i < s.len() && (#[trigger] s[i]).contains(addr);
        assert(covers(s, addr, s[i].ty));
    }
}

/// Merging keeps what is in use.
pub proof fn lemma_merge_result_in_use(s: Seq<UsedFrame>)
    requires
        runs_wf(s),
    ensures
        forall|addr: int| in_use(merge_result(s), addr) <==> in_use(s, addr),
{
    lemma_merge_result(s);
    assert forall|addr: int| in_use(merge_result(s), addr) <==> in_use(s, addr) by {
        lemma_in_use_covers(s, addr);
        lemma_in_use_covers(merge_result(s), addr);
        if in_use(merge_result(s), addr) {
            let ty = choose|ty: FrameUsageType| covers(merge_result(s), addr, ty);
            assert(covers(s, addr, ty));
        }
    }
}

/// A run appended to runs that it shares no address with keeps them disjoint,
/// and what is in use then is what was in use before and what the run holds.
pub proof fn lemma_push_run(s: Seq<UsedFrame>, r: UsedFrame)
    ensures
        runs_wf(s) && r.wf() ==> runs_wf(s.push(r)),
        runs_disjoint(s) && disjoint_from(r, s) ==> runs_disjoint(s.push(r)),
        forall|addr: int| in_use(s.push(r), addr) <==> in_use(s, addr) || r.contains(addr),
{
    let t = s.push(r);
    assert forall|addr: int| in_use(t, addr) <==> in_use(s, addr) || r.contains(addr) by {
        if in_use(s, addr) {
            let i = choose|i: int| 0 <= i < s.len() && (#[trigger] s[i]).contains(addr);
            assert(t[i] == s[i]);
        }
        if r.contains(addr) {
            assert(t[t.len() - 1] == r);
        }
    }
}

/// Changing tags changes neither where the runs lie nor what is in use.
pub proof fn lemma_retagged(s: Seq<UsedFrame>, ty: FrameUsageType)
    ensures
        retagged(s, ty).len() == s.len(),
        runs_wf(s) ==> runs_wf(retagged(s, ty)),
        runs_disjoint(s) ==> runs_disjoint(retagged(s, ty)),
        forall|addr: int| in_use(retagged(s, ty), addr) <==> in_use(s, addr),
        ty != FrameUsageType::Unknown ==> forall|i: int|
            0 <= i < s.len() ==> (#[trigger] retagged(s, ty)[i]).ty != FrameUsageType::Unknown,
{
    let t = retagged(s, ty);
    if runs_disjoint(s) {
        assert forall|i: int, j: int| 0 <= i < j < t.len() implies !t[i].overlaps(t[j]) by {
            assert(!s[i].overlaps(s[j]));
        }
    }
    assert forall|addr: int| in_use(t, addr) <==> in_use(s, addr) by {
        if in_use(s, addr) {
            let i = choose|i: int| 0 <= i < s.len() && (#[trigger] s[i]).contains(addr);
            assert(t[i].contains(addr));
        }
    }
}

/// Sorting keeps what is in use.
pub proof fn lemma_sort_runs_in_use(s: Seq<UsedFrame>)
    ensures
        forall|addr: int| in_use(sort_runs(s), addr) <==> in_use(s, addr),
{
    assert forall|addr: int| in_use(sort_runs(s), addr) <==> in_use(s, addr) by {
        lemma_in_use_covers(s, addr);
        lemma_in_use_covers(sort_runs(s), addr);
        if in_use(s, addr) {
            let ty = choose|ty: FrameUsageType| covers(s, addr, ty);
            lemma_sort_runs_covers(s, addr, ty);
        }
        if in_use(sort_runs(s), addr) {
            let ty = choose|ty: FrameUsageType| covers(sort_runs(s), addr, ty);
            lemma_sort_runs_covers(s, addr, ty);
        }
    }
}

/// No run of `s` has the tag `Unknown`.
pub open spec fn all_known(s: Seq<UsedFrame>) -> bool {
    forall|i: int| 0 <= i < s.len() ==> (#[trigger] s[i]).ty != FrameUsageType::Unknown
}

/// Merging runs of which none has the tag `Unknown` gives no run with that tag.
pub proof fn lemma_merge_result_known(s: Seq<UsedFrame>)
    requires
        runs_wf(s),
        all_known(s),
    ensures
        all_known(merge_result(s)),
{
    let m = merge_result(s);
    lemma_merge_result(s);
    assert forall|i: int| 0 <= i < m.len() implies (#[trigger] m[i]).ty
        != FrameUsageType::Unknown by {
        if m[i].ty == FrameUsageType::Unknown {
            assert(covers(s, m[i].frame as int, FrameUsageType::Unknown));
        }
    }
}

} // verus!
