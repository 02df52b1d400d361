use uefi_kernel::used_frame::{FrameUsageType, UsedFrame};

fn run(frame: u64, count: u32, ty: FrameUsageType) -> UsedFrame {
    UsedFrame { frame, count, ty }
}

#[test]
fn new_accepts_a_run_in_the_address_space() {
    assert_eq!(
        UsedFrame::new(0x1000, 3, FrameUsageType::KernelCode),
        Some(run(0x1000, 3, FrameUsageType::KernelCode))
    );
    assert_eq!(
        UsedFrame::new(0x000f_ffff_ffff_f000, 1, FrameUsageType::Reusable),
        Some(run(0x000f_ffff_ffff_f000, 1, FrameUsageType::Reusable))
    );
}

#[test]
fn new_refuses_what_is_no_run() {
    assert_eq!(UsedFrame::new(0x1000, 0, FrameUsageType::KernelCode), None);
    assert_eq!(UsedFrame::new(0x1001, 1, FrameUsageType::KernelCode), None);
    assert_eq!(UsedFrame::new(0x000f_ffff_ffff_f000, 2, FrameUsageType::KernelCode), None);
    assert_eq!(UsedFrame::new(0x0010_0000_0000_0000, 1, FrameUsageType::KernelCode), None);
    assert_eq!(UsedFrame::new(0xffff_ffff_ffff_f000, 1, FrameUsageType::KernelCode), None);
}

#[test]
fn runs_merge_when_one_ends_where_the_other_starts() {
    let a = run(0x1000, 2, FrameUsageType::KernelHeap);
    let b = run(0x3000, 1, FrameUsageType::KernelHeap);
    assert!(a.can_merge(&b));
    assert!(b.can_merge(&a));
}

#[test]
fn runs_with_a_gap_or_an_overlap_do_not_merge() {
    let a = run(0x1000, 2, FrameUsageType::KernelHeap);
    assert!(!a.can_merge(&run(0x4000, 1, FrameUsageType::KernelHeap)));
    assert!(!a.can_merge(&run(0x2000, 1, FrameUsageType::KernelHeap)));
    assert!(!a.can_merge(&a));
}

#[test]
fn runs_with_different_tags_cannot_merge() {
    let a = run(0x1000, 1, FrameUsageType::KernelCode);
    let b = run(0x2000, 1, FrameUsageType::PageTable);
    assert!(!a.can_merge(&b));
    assert!(!b.can_merge(&a));
}

#[test]
fn unknown_runs_cannot_merge() {
    let a = run(0x1000, 1, FrameUsageType::Unknown);
    let b = run(0x2000, 1, FrameUsageType::Unknown);
    assert!(!a.can_merge(&b));
    assert!(!b.can_merge(&a));
}

#[test]
fn merge_extends_forward() {
    let mut a = run(0x1000, 2, FrameUsageType::KernelHeap);
    a.merge(run(0x3000, 5, FrameUsageType::KernelHeap));
    assert_eq!(a, run(0x1000, 7, FrameUsageType::KernelHeap));
}

#[test]
fn merge_extends_backward() {
    let mut a = run(0x3000, 5, FrameUsageType::PageTable);
    a.merge(run(0x1000, 2, FrameUsageType::PageTable));
    assert_eq!(a, run(0x1000, 7, FrameUsageType::PageTable));
}

#[test]
fn is_wf_tells_well_formed_runs() {
    assert!(run(0x1000, 1, FrameUsageType::Unknown).is_wf());
    assert!(run(0, 1, FrameUsageType::Unknown).is_wf());
    assert!(run(0, u32::MAX, FrameUsageType::Unknown).is_wf());
    assert!(run(0x000f_ffff_ffff_e000, 2, FrameUsageType::Unknown).is_wf());
    assert!(!run(0x000f_ffff_ffff_e000, 3, FrameUsageType::Unknown).is_wf());
    assert!(!run(0x1000, 0, FrameUsageType::Unknown).is_wf());
    assert!(!run(0x1234, 1, FrameUsageType::Unknown).is_wf());
    assert!(!run(u64::MAX - 4095, 1, FrameUsageType::Unknown).is_wf());
}
