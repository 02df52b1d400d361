use uefi_kernel::frame_tracker::FrameTrackerArray;
use uefi_kernel::used_frame::{FrameUsageType, UsedFrame};

fn run(frame: u64, count: u32, ty: FrameUsageType) -> UsedFrame {
    UsedFrame { frame, count, ty }
}

fn tracker(runs: &[UsedFrame]) -> FrameTrackerArray {
    let mut t = FrameTrackerArray::new(0x10_0000, 4096);
    for r in runs {
        assert!(t.len() < t.capacity());
        t.push_used_frame(*r);
    }
    t
}

#[test]
fn adjacent_runs_with_one_tag_merge() {
    let mut t = tracker(&[
        run(0x1000, 1, FrameUsageType::KernelHeap),
        run(0x2000, 3, FrameUsageType::KernelHeap),
    ]);
    t.merge_all();
    assert_eq!(t.len(), 1);
    assert_eq!(t.as_ref(), &[run(0x1000, 4, FrameUsageType::KernelHeap)]);
}

#[test]
fn unknown_runs_do_not_merge() {
    let mut t = tracker(&[
        run(0x1000, 1, FrameUsageType::Unknown),
        run(0x2000, 1, FrameUsageType::Unknown),
    ]);
    t.merge_all();
    assert_eq!(t.len(), 2);
    assert_eq!(
        t.as_ref(),
        &[run(0x1000, 1, FrameUsageType::Unknown), run(0x2000, 1, FrameUsageType::Unknown)]
    );
}

#[test]
fn runs_with_different_tags_do_not_merge() {
    let mut t = tracker(&[
        run(0x1000, 1, FrameUsageType::KernelCode),
        run(0x2000, 1, FrameUsageType::KernelHeap),
    ]);
    t.merge_all();
    assert_eq!(t.len(), 2);
    assert_eq!(
        t.as_ref(),
        &[run(0x1000, 1, FrameUsageType::KernelCode), run(0x2000, 1, FrameUsageType::KernelHeap)]
    );
}

#[test]
fn new_tracker_is_empty_and_holds_a_page_of_records() {
    let t = FrameTrackerArray::new(0xdead_b000, 4096);
    assert_eq!(t.len(), 0);
    assert_eq!(t.capacity(), 256);
    assert_eq!(t.buffer(), 0xdead_b000);
    assert!(t.as_ref().is_empty());
}

#[test]
fn capacity_is_bytes_over_record_size_rounded_down() {
    assert_eq!(FrameTrackerArray::new(0, 0).capacity(), 0);
    assert_eq!(FrameTrackerArray::new(0, 15).capacity(), 0);
    assert_eq!(FrameTrackerArray::new(0, 16).capacity(), 1);
    assert_eq!(FrameTrackerArray::new(0, 47).capacity(), 2);
}

#[test]
fn new_existing_adopts_the_records() {
    let runs = vec![
        run(0x3000, 2, FrameUsageType::PageTable),
        run(0x1000, 1, FrameUsageType::FrameUsageBuffer),
    ];
    let t = FrameTrackerArray::new_existing(0xffff_ffff_0000_1000, 0x1000, runs.clone());
    assert_eq!(t.len(), 2);
    assert_eq!(t.capacity(), 256);
    assert_eq!(t.buffer(), 0xffff_ffff_0000_1000);
    assert_eq!(t.as_ref(), &runs[..]);
}

#[test]
fn push_appends_in_order() {
    let mut t = FrameTrackerArray::new(0, 64);
    t.push_used_frame(run(0x5000, 1, FrameUsageType::Reusable));
    t.push_used_frame(run(0x1000, 2, FrameUsageType::KernelCode));
    assert_eq!(t.len(), 2);
    assert_eq!(
        t.as_ref(),
        &[run(0x5000, 1, FrameUsageType::Reusable), run(0x1000, 2, FrameUsageType::KernelCode)]
    );
    assert_eq!(t.capacity(), 4);
}

#[test]
fn sort_orders_by_start_address() {
    let mut t = tracker(&[
        run(0x9000, 1, FrameUsageType::KernelHeap),
        run(0x1000, 1, FrameUsageType::Unknown),
        run(0x5000, 2, FrameUsageType::PageTable),
        run(0x3000, 1, FrameUsageType::KernelCode),
    ]);
    t.sort_in_place();
    assert_eq!(
        t.as_ref(),
        &[
            run(0x1000, 1, FrameUsageType::Unknown),
            run(0x3000, 1, FrameUsageType::KernelCode),
            run(0x5000, 2, FrameUsageType::PageTable),
            run(0x9000, 1, FrameUsageType::KernelHeap),
        ]
    );
}

#[test]
fn sort_keeps_the_order_of_runs_with_one_start() {
    let mut t = tracker(&[
        run(0x2000, 1, FrameUsageType::KernelHeap),
        run(0x1000, 7, FrameUsageType::KernelCode),
        run(0x1000, 3, FrameUsageType::PageTable),
    ]);
    t.sort_in_place();
    assert_eq!(
        t.as_ref(),
        &[
            run(0x1000, 7, FrameUsageType::KernelCode),
            run(0x1000, 3, FrameUsageType::PageTable),
            run(0x2000, 1, FrameUsageType::KernelHeap),
        ]
    );
}

#[test]
fn sort_of_empty_and_single_tracker_changes_nothing() {
    let mut empty = FrameTrackerArray::new(0, 4096);
    empty.sort_in_place();
    assert_eq!(empty.len(), 0);
    let mut one = tracker(&[run(0x4000, 2, FrameUsageType::Reusable)]);
    one.sort_in_place();
    assert_eq!(one.as_ref(), &[run(0x4000, 2, FrameUsageType::Reusable)]);
}

#[test]
fn merge_sorts_before_it_joins() {
    let mut t = tracker(&[
        run(0x3000, 1, FrameUsageType::PageTable),
        run(0x1000, 1, FrameUsageType::PageTable),
        run(0x2000, 1, FrameUsageType::PageTable),
    ]);
    t.merge_all();
    assert_eq!(t.as_ref(), &[run(0x1000, 3, FrameUsageType::PageTable)]);
}

#[test]
fn merge_joins_each_chain_and_keeps_the_rest() {
    let mut t = tracker(&[
        run(0x1000, 1, FrameUsageType::FrameUsageBuffer),
        run(0x2000, 1, FrameUsageType::KernelCode),
        run(0x3000, 2, FrameUsageType::KernelCode),
        run(0x5000, 1, FrameUsageType::Unknown),
        run(0x6000, 1, FrameUsageType::KernelCode),
        run(0x8000, 1, FrameUsageType::KernelCode),
        run(0x9000, 1, FrameUsageType::KernelHeap),
        run(0xa000, 4, FrameUsageType::KernelHeap),
    ]);
    t.merge_all();
    assert_eq!(
        t.as_ref(),
        &[
            run(0x1000, 1, FrameUsageType::FrameUsageBuffer),
            run(0x2000, 3, FrameUsageType::KernelCode),
            run(0x5000, 1, FrameUsageType::Unknown),
            run(0x6000, 1, FrameUsageType::KernelCode),
            run(0x8000, 1, FrameUsageType::KernelCode),
            run(0x9000, 5, FrameUsageType::KernelHeap),
        ]
    );
    assert_eq!(t.capacity(), 256);
    assert_eq!(t.buffer(), 0x10_0000);
}

#[test]
fn merged_tracker_is_sorted_disjoint_and_maximal() {
    let mut t = tracker(&[
        run(0x7000, 2, FrameUsageType::KernelHeap),
        run(0x2000, 1, FrameUsageType::Unknown),
        run(0x1000, 1, FrameUsageType::KernelHeap),
        run(0x3000, 4, FrameUsageType::KernelHeap),
        run(0x9000, 1, FrameUsageType::PageTable),
    ]);
    t.merge_all();
    let runs = t.as_ref();
    for pair in runs.windows(2) {
        assert!(pair[0].frame < pair[1].frame);
        assert!(pair[0].frame + pair[0].count as u64 * 4096 <= pair[1].frame);
        assert!(!pair[0].can_merge(&pair[1]));
        assert!(!pair[1].can_merge(&pair[0]));
    }
    assert_eq!(
        runs,
        &[
            run(0x1000, 1, FrameUsageType::KernelHeap),
            run(0x2000, 1, FrameUsageType::Unknown),
            run(0x3000, 6, FrameUsageType::KernelHeap),
            run(0x9000, 1, FrameUsageType::PageTable),
        ]
    );
}

#[test]
fn merge_of_empty_tracker_leaves_it_empty() {
    let mut t = FrameTrackerArray::new(0, 4096);
    t.merge_all();
    assert_eq!(t.len(), 0);
}

#[test]
fn merge_twice_changes_nothing_more() {
    let mut t = tracker(&[
        run(0x2000, 1, FrameUsageType::KernelCode),
        run(0x1000, 1, FrameUsageType::KernelCode),
        run(0x4000, 1, FrameUsageType::Unknown),
    ]);
    t.merge_all();
    let once = t.as_ref().to_vec();
    t.merge_all();
    assert_eq!(t.as_ref(), &once[..]);
}

#[test]
fn reclassify_retags_unknown_runs_only() {
    let mut t = tracker(&[
        run(0x1000, 1, FrameUsageType::FrameUsageBuffer),
        run(0x2000, 1, FrameUsageType::Unknown),
        run(0x3000, 1, FrameUsageType::KernelCode),
        run(0x4000, 1, FrameUsageType::Unknown),
    ]);
    t.reclassify_unknown(FrameUsageType::PageTable);
    assert_eq!(
        t.as_ref(),
        &[
            run(0x1000, 1, FrameUsageType::FrameUsageBuffer),
            run(0x2000, 1, FrameUsageType::PageTable),
            run(0x3000, 1, FrameUsageType::KernelCode),
            run(0x4000, 1, FrameUsageType::PageTable),
        ]
    );
}

#[test]
fn reclassified_page_tables_merge() {
    let mut t = tracker(&[
        run(0x2000, 1, FrameUsageType::Unknown),
        run(0x3000, 1, FrameUsageType::Unknown),
        run(0x4000, 1, FrameUsageType::Unknown),
    ]);
    t.reclassify_unknown(FrameUsageType::PageTable);
    t.merge_all();
    assert_eq!(t.as_ref(), &[run(0x2000, 3, FrameUsageType::PageTable)]);
}

#[test]
fn runs_too_long_to_join_stay_two_runs() {
    let behind = 0x1000 + u32::MAX as u64 * 4096;
    let mut long = tracker(&[
        run(behind, 1, FrameUsageType::KernelHeap),
        run(0x1000, u32::MAX, FrameUsageType::KernelHeap),
    ]);
    long.merge_all();
    assert_eq!(
        long.as_ref(),
        &[run(0x1000, u32::MAX, FrameUsageType::KernelHeap), run(behind, 1, FrameUsageType::KernelHeap)]
    );
    assert!(!long.is_merged());
    assert!(long.is_wf());
}

#[test]
fn runs_join_up_to_the_longest_run_that_can_be_counted() {
    let mut fits = tracker(&[
        run(0x1000 + (u32::MAX as u64 - 1) * 4096, 1, FrameUsageType::KernelHeap),
        run(0x1000, u32::MAX - 1, FrameUsageType::KernelHeap),
    ]);
    fits.merge_all();
    assert_eq!(fits.as_ref(), &[run(0x1000, u32::MAX, FrameUsageType::KernelHeap)]);
    assert!(fits.is_merged());
}

#[test]
fn a_run_that_cannot_join_the_one_before_joins_the_one_behind() {
    let second = 0x1000 + u32::MAX as u64 * 4096;
    let mut t = tracker(&[
        run(second + 0x2000, 3, FrameUsageType::PageTable),
        run(second, 2, FrameUsageType::PageTable),
        run(0x1000, u32::MAX, FrameUsageType::PageTable),
    ]);
    t.merge_all();
    assert_eq!(
        t.as_ref(),
        &[run(0x1000, u32::MAX, FrameUsageType::PageTable), run(second, 5, FrameUsageType::PageTable)]
    );
    assert!(!t.is_merged());
}

#[test]
fn is_merged_looks_at_each_pair_of_neighbours() {
    assert!(FrameTrackerArray::new(0, 4096).is_merged());
    assert!(tracker(&[run(0x1000, 1, FrameUsageType::KernelCode)]).is_merged());
    assert!(tracker(&[
        run(0x1000, 1, FrameUsageType::KernelCode),
        run(0x2000, 1, FrameUsageType::KernelHeap),
        run(0x4000, 1, FrameUsageType::KernelHeap),
    ])
    .is_merged());
    assert!(tracker(&[
        run(0x1000, 1, FrameUsageType::Unknown),
        run(0x2000, 1, FrameUsageType::Unknown),
    ])
    .is_merged());
    assert!(!tracker(&[
        run(0x1000, 1, FrameUsageType::KernelCode),
        run(0x3000, 1, FrameUsageType::KernelHeap),
        run(0x4000, 1, FrameUsageType::KernelHeap),
    ])
    .is_merged());
    assert!(!tracker(&[
        run(0x2000, 1, FrameUsageType::KernelHeap),
        run(0x1000, 1, FrameUsageType::KernelHeap),
    ])
    .is_merged());
}

#[test]
fn can_join_wants_a_count_that_fits() {
    let long = run(0x1000, u32::MAX, FrameUsageType::KernelHeap);
    let behind = run(0x1000 + u32::MAX as u64 * 4096, 1, FrameUsageType::KernelHeap);
    assert!(long.can_merge(&behind));
    assert!(!long.can_join(&behind));
    let shorter = run(0x1000, u32::MAX - 1, FrameUsageType::KernelHeap);
    let next = run(0x1000 + (u32::MAX as u64 - 1) * 4096, 1, FrameUsageType::KernelHeap);
    assert!(shorter.can_join(&next));
    assert!(!shorter.can_join(&behind));
    assert!(next.can_join(&shorter));
    assert!(!behind.can_join(&long));
    let other = run(0x1000 + (u32::MAX as u64 - 1) * 4096, 1, FrameUsageType::KernelCode);
    assert!(!shorter.can_join(&other));
}

#[test]
fn runs_can_be_changed_in_place() {
    let mut t = tracker(&[
        run(0x1000, 1, FrameUsageType::Unknown),
        run(0x2000, 1, FrameUsageType::KernelCode),
    ]);
    for r in t.as_mut().iter_mut() {
        if r.ty == FrameUsageType::Unknown {
            r.ty = FrameUsageType::PageTable;
        }
    }
    assert_eq!(
        t.as_ref(),
        &[run(0x1000, 1, FrameUsageType::PageTable), run(0x2000, 1, FrameUsageType::KernelCode)]
    );
    assert_eq!(t.len(), 2);
    assert_eq!(t.capacity(), 256);
}

#[test]
fn merge_all_leaves_no_pair_to_merge_where_the_frames_can_be_counted() {
    let mut t = tracker(&[
        run(0x9000, 2, FrameUsageType::KernelHeap),
        run(0x3000, 1, FrameUsageType::PageTable),
        run(0x1000, 2, FrameUsageType::PageTable),
        run(0x4000, 1, FrameUsageType::Unknown),
        run(0x5000, 4, FrameUsageType::KernelHeap),
        run(0xb000, 1, FrameUsageType::KernelCode),
    ]);
    t.merge_all();
    assert_eq!(
        t.as_ref(),
        &[
            run(0x1000, 3, FrameUsageType::PageTable),
            run(0x4000, 1, FrameUsageType::Unknown),
            run(0x5000, 6, FrameUsageType::KernelHeap),
            run(0xb000, 1, FrameUsageType::KernelCode),
        ]
    );
    assert!(t.is_merged());
    let runs = t.as_ref();
    for i in 0..runs.len() {
        for j in 0..runs.len() {
            if i != j {
                assert!(!runs[i].can_merge(&runs[j]));
            }
        }
    }
    assert_eq!(runs.iter().map(|r| r.count as u64).sum::<u64>(), 11);
}
