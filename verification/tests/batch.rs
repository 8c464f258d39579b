use dlrs::downloader::{Batch, BatchResult, TaskOutcome};

#[test]
fn batch_empty_run_reports_zero_without_work() {
    let b = Batch::new(0, 100);
    assert!(!b.can_launch());
    assert!(b.is_done());
    let r = b.result();
    assert_eq!(r, BatchResult { attempted: 0, succeeded: 0 });
}

#[test]
fn batch_all_tasks_succeed() {
    let mut b = Batch::new(3, 2);
    while !b.is_done() {
        while b.can_launch() {
            b.launch();
        }
        b.complete(TaskOutcome::Written);
    }
    let r = b.result();
    assert_eq!(r, BatchResult { attempted: 3, succeeded: 3 });
}

#[test]
fn batch_single_failure_leaves_other_tasks_alone() {
    let n = 5;
    let mut b = Batch::new(n, 100);
    while b.can_launch() {
        b.launch();
    }
    for i in 0..n {
        if i == 2 {
            b.complete(TaskOutcome::FetchFailed);
        } else {
            b.complete(TaskOutcome::Written);
        }
    }
    assert!(b.is_done());
    let r = b.result();
    assert_eq!(r, BatchResult { attempted: n, succeeded: n - 1 });
}

#[test]
fn batch_write_failure_counts_as_non_success() {
    let mut b = Batch::new(2, 2);
    b.launch();
    b.launch();
    b.complete(TaskOutcome::WriteFailed);
    b.complete(TaskOutcome::Written);
    let r = b.result();
    assert_eq!(r, BatchResult { attempted: 2, succeeded: 1 });
}

#[test]
fn batch_bound_one_degenerates_to_sequential() {
    let mut b = Batch::new(3, 1);
    for _ in 0..3 {
        assert!(b.can_launch());
        b.launch();
        // the single slot is taken: nothing else may enter flight
        assert!(!b.can_launch());
        b.complete(TaskOutcome::Written);
    }
    assert!(b.is_done());
    let r = b.result();
    assert_eq!(r, BatchResult { attempted: 3, succeeded: 3 });
}

#[test]
fn batch_bound_never_exceeded() {
    let k = 4;
    let mut b = Batch::new(10, k);
    let mut launched = 0;
    while b.can_launch() {
        b.launch();
        launched += 1;
    }
    // admission stops exactly at the concurrency bound
    assert_eq!(launched, k);
    b.complete(TaskOutcome::Written);
    // one completion frees exactly one slot
    assert!(b.can_launch());
    b.launch();
    assert!(!b.can_launch());
}

#[test]
fn batch_bound_above_work_list_degenerates_to_full_parallelism() {
    let mut b = Batch::new(2, 10);
    assert!(b.can_launch());
    b.launch();
    assert!(b.can_launch());
    b.launch();
    // the work list, not the bound, is what stops admission here
    assert!(!b.can_launch());
    b.complete(TaskOutcome::Written);
    b.complete(TaskOutcome::Written);
    assert!(b.is_done());
    let r = b.result();
    assert_eq!(r, BatchResult { attempted: 2, succeeded: 2 });
}

#[test]
fn batch_attempted_always_equals_work_list_len() {
    for n in [0usize, 1, 7] {
        let mut b = Batch::new(n, 3);
        while !b.is_done() {
            while b.can_launch() {
                b.launch();
            }
            if !b.is_done() {
                b.complete(TaskOutcome::FetchFailed);
            }
        }
        let r = b.result();
        assert_eq!(r.attempted, n);
        assert!(r.succeeded <= r.attempted);
    }
}
