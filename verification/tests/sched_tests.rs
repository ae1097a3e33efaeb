use kavimo::sched::{DispatchStep, Progress, Scheduler};
use kavimo::segment::SegmentOutcome;

#[test]
fn fifty_segments_never_exceed_ten_in_flight() {
    // drive fifty synthetic segments through the scheduler and watch the
    // observed in-flight maximum
    let mut sched = Scheduler::new(10, 50);
    let mut observed_max: usize = 0;
    let mut dispatched: Vec<usize> = Vec::new();
    loop {
        match sched.try_dispatch(true) {
            DispatchStep::Dispatch(i) => {
                dispatched.push(i);
                if sched.active > observed_max {
                    observed_max = sched.active;
                }
            }
            DispatchStep::Wait => {
                // one in-flight fetch finishes
                assert!(sched.active >= 1);
                sched.complete();
            }
            DispatchStep::Done => break,
            DispatchStep::Stopped => unreachable!(),
        }
        assert!(sched.active <= 10);
    }
    assert_eq!(observed_max, 10);
    assert_eq!(dispatched.len(), 50);
    for (k, i) in dispatched.iter().enumerate() {
        assert_eq!(*i, k);
    }
}

#[test]
fn closed_window_stops_dispatch_for_good() {
    let mut sched = Scheduler::new(10, 5);
    assert_eq!(sched.try_dispatch(true), DispatchStep::Dispatch(0));
    assert_eq!(sched.try_dispatch(false), DispatchStep::Stopped);
    // even a reopened window dispatches nothing more
    assert_eq!(sched.try_dispatch(true), DispatchStep::Stopped);
    // the in-flight fetch still completes
    sched.complete();
    assert_eq!(sched.active, 0);
}

#[test]
fn all_dispatched_is_done() {
    let mut sched = Scheduler::new(10, 2);
    assert_eq!(sched.try_dispatch(true), DispatchStep::Dispatch(0));
    assert_eq!(sched.try_dispatch(true), DispatchStep::Dispatch(1));
    assert_eq!(sched.try_dispatch(true), DispatchStep::Done);
}

#[test]
fn progress_counts_bytes_and_corruption() {
    let mut p = Progress::new(3000);
    p.record(&SegmentOutcome::Persisted(1000));
    assert_eq!(p.done_bytes, 1000);
    assert!(!p.reached_target());
    p.record(&SegmentOutcome::SkippedAlreadyPresent(1500));
    assert_eq!(p.done_bytes, 2500);
    p.record(&SegmentOutcome::Corrupted);
    assert_eq!(p.done_bytes, 2500);
    assert_eq!(p.corrupted, 1);
    p.record(&SegmentOutcome::Persisted(500));
    assert_eq!(p.done_bytes, 3000);
    assert!(p.reached_target());
}

#[test]
fn progress_saturates_instead_of_wrapping() {
    let mut p = Progress::new(u64::MAX);
    p.record(&SegmentOutcome::Persisted(u64::MAX - 1));
    p.record(&SegmentOutcome::Persisted(u64::MAX - 1));
    assert_eq!(p.done_bytes, u64::MAX);
}
