use sdb_signal::buffer::{Buffer, DEFAULT_CAPACITY, SEPARATOR};
use sdb_signal::profiler::{Profiler, TargetOutcome, ThreadCapture, MAX_STACK_DEPTH};
use sdb_signal::scheduler::{choose_wait_kind, WaitKind, ONE_MILLISECOND_NS};

#[test]
fn new_buffer_is_empty() {
    let b = Buffer::new();
    assert_eq!(b.cursor, 0);
    assert_eq!(b.data.len(), DEFAULT_CAPACITY);
    assert_eq!(b.data[0], 0);
    assert_eq!(b.data[DEFAULT_CAPACITY - 1], 0);
}

#[test]
fn push_stores_and_advances() {
    let mut b = Buffer::with_capacity(4);
    b.push(5);
    assert_eq!(b.data[0], 5);
    assert_eq!(b.cursor, 1);
}

#[test]
fn wraparound_keeps_most_recent_values() {
    let mut b = Buffer::with_capacity(4);
    for v in 10..16u64 {
        b.push(v);
    }
    assert_eq!(b.cursor, 6);
    // The four most recent pushes (12, 13, 14, 15) each sit in their slot.
    assert_eq!(b.data[2], 12);
    assert_eq!(b.data[3], 13);
    assert_eq!(b.data[0], 14);
    assert_eq!(b.data[1], 15);
}

#[test]
fn wraparound_at_default_capacity() {
    let mut b = Buffer::new();
    for v in 0..(DEFAULT_CAPACITY as u64 + 5) {
        b.push(v);
    }
    // Slots 0..5 were overwritten by the wrap; the rest still hold the
    // first round of values, which are also the most recent for their slot.
    assert_eq!(b.data[0], DEFAULT_CAPACITY as u64);
    assert_eq!(b.data[4], DEFAULT_CAPACITY as u64 + 4);
    assert_eq!(b.data[5], 5);
    assert_eq!(b.data[DEFAULT_CAPACITY - 1], DEFAULT_CAPACITY as u64 - 1);
}

#[test]
fn push_seperator_writes_two_consecutive_sentinels() {
    let mut b = Buffer::with_capacity(8);
    b.push(1);
    b.push(2);
    b.push_seperator();
    assert_eq!(b.cursor, 4);
    assert_eq!(b.data[2], SEPARATOR);
    assert_eq!(b.data[3], SEPARATOR);
}

#[test]
fn push_seperator_across_the_wrap() {
    let mut b = Buffer::with_capacity(2);
    b.push(9);
    b.push_seperator();
    assert_eq!(b.cursor, 3);
    assert_eq!(b.data[1], SEPARATOR);
    assert_eq!(b.data[0], SEPARATOR);
}

#[test]
fn new_profiler_defaults() {
    let p = Profiler::new();
    assert_eq!(p.get_sampling_interval(), ONE_MILLISECOND_NS);
    assert_eq!(p.sample_count(), 0);
    assert!(p.snapshot_targets().is_empty());
    assert_eq!(p.buffer.cursor, 0);
}

#[test]
fn set_and_get_sampling_interval() {
    let mut p = Profiler::new();
    p.set_sampling_interval(250_000);
    assert_eq!(p.get_sampling_interval(), 250_000);
}

#[test]
fn register_keeps_target_order() {
    let mut p = Profiler::new();
    p.register(11, 101);
    p.register(22, 202);
    assert_eq!(p.snapshot_targets(), vec![11, 22]);
}

#[test]
fn sub_millisecond_interval_busy_waits() {
    assert_eq!(choose_wait_kind(0), WaitKind::BusyWait);
    assert_eq!(choose_wait_kind(999_999), WaitKind::BusyWait);
    assert_eq!(choose_wait_kind(ONE_MILLISECOND_NS - 1), WaitKind::BusyWait);
}

#[test]
fn millisecond_and_above_blocks_in_sleep() {
    assert_eq!(choose_wait_kind(ONE_MILLISECOND_NS), WaitKind::BlockingSleep);
    assert_eq!(choose_wait_kind(5_000_000), WaitKind::BlockingSleep);
    assert_eq!(choose_wait_kind(u64::MAX), WaitKind::BlockingSleep);
}

#[test]
fn capture_of_three_frames() {
    let mut p = Profiler::new();
    let frames = vec![5u64, 7, 9];
    p.record_capture(&frames, 3);
    assert_eq!(p.buffer.cursor, 6);
    assert_eq!(
        &p.buffer.data[0..6],
        &[3, 5, 7, 9, SEPARATOR, SEPARATOR][..]
    );
    assert_eq!(p.sample_count(), 1);
}

#[test]
fn capture_of_zero_frames() {
    let mut p = Profiler::new();
    // A failed capture is handed in as zero frames; the scratch buffer's
    // leftover contents must not leak into the record.
    let scratch = vec![42u64, 43];
    p.record_capture(&scratch, 0);
    assert_eq!(p.buffer.cursor, 3);
    assert_eq!(&p.buffer.data[0..3], &[0, SEPARATOR, SEPARATOR][..]);
    assert_eq!(p.sample_count(), 1);
}

#[test]
fn capture_at_maximum_depth() {
    let mut p = Profiler::new();
    let frames: Vec<u64> = (0..MAX_STACK_DEPTH as u64).collect();
    p.record_capture(&frames, MAX_STACK_DEPTH);
    assert_eq!(p.buffer.cursor, MAX_STACK_DEPTH + 3);
    assert_eq!(p.buffer.data[0], MAX_STACK_DEPTH as u64);
    assert_eq!(p.buffer.data[1], 0);
    assert_eq!(p.buffer.data[MAX_STACK_DEPTH], MAX_STACK_DEPTH as u64 - 1);
    assert_eq!(p.buffer.data[MAX_STACK_DEPTH + 1], SEPARATOR);
    assert_eq!(p.buffer.data[MAX_STACK_DEPTH + 2], SEPARATOR);
}

#[test]
fn registering_twice_yields_two_capture_runs() {
    let mut p = Profiler::new();
    p.register(7, 70);
    p.register(7, 70);
    assert_eq!(p.snapshot_targets(), vec![7, 7]);
    let outcomes = vec![
        TargetOutcome { delivered: true, capture: ThreadCapture { frame_count: 1, frames: vec![1] } },
        TargetOutcome { delivered: true, capture: ThreadCapture { frame_count: 1, frames: vec![2] } },
    ];
    p.run_round(&outcomes);
    assert_eq!(
        &p.buffer.data[0..8],
        &[1, 1, SEPARATOR, SEPARATOR, 1, 2, SEPARATOR, SEPARATOR][..]
    );
    assert_eq!(p.sample_count(), 2);
}

#[test]
fn counter_ignores_delivery_failures() {
    let mut p = Profiler::new();
    p.register(1, 10);
    p.register(2, 20);
    p.register(3, 30);
    let outcomes = vec![
        TargetOutcome { delivered: true, capture: ThreadCapture { frame_count: 1, frames: vec![5] } },
        TargetOutcome { delivered: false, capture: ThreadCapture { frame_count: 0, frames: vec![] } },
        TargetOutcome { delivered: true, capture: ThreadCapture { frame_count: 1, frames: vec![6] } },
    ];
    p.run_round(&outcomes);
    assert_eq!(p.sample_count(), 2);
    // The failed delivery left no record behind.
    assert_eq!(
        &p.buffer.data[0..8],
        &[1, 5, SEPARATOR, SEPARATOR, 1, 6, SEPARATOR, SEPARATOR][..]
    );
    assert_eq!(p.buffer.cursor, 8);
}

#[test]
fn multi_target_capture_writes_one_run_per_thread() {
    let mut p = Profiler::new();
    let captures = vec![
        ThreadCapture { frame_count: 3, frames: vec![5, 7, 9] },
        ThreadCapture { frame_count: 0, frames: vec![42] },
        ThreadCapture { frame_count: 1, frames: vec![8] },
    ];
    p.record_capture_multi(&captures);
    // One concatenated sub-run per sampled thread, one trailing separator.
    assert_eq!(
        &p.buffer.data[0..9],
        &[3, 5, 7, 9, 0, 1, 8, SEPARATOR, SEPARATOR][..]
    );
    assert_eq!(p.buffer.cursor, 9);
    // One handler invocation, one completed capture.
    assert_eq!(p.sample_count(), 1);
}

#[test]
fn multi_target_capture_of_no_threads_still_separates() {
    let mut p = Profiler::new();
    let captures: Vec<ThreadCapture> = Vec::new();
    p.record_capture_multi(&captures);
    assert_eq!(&p.buffer.data[0..2], &[SEPARATOR, SEPARATOR][..]);
    assert_eq!(p.buffer.cursor, 2);
    assert_eq!(p.sample_count(), 1);
}

#[test]
fn round_with_no_targets_leaves_buffer_unmodified() {
    let mut p = Profiler::new();
    let frames = vec![5u64];
    p.record_capture(&frames, 1);
    let cursor_before = p.buffer.cursor;
    let outcomes: Vec<TargetOutcome> = Vec::new();
    p.run_round(&outcomes);
    assert_eq!(p.buffer.cursor, cursor_before);
    assert_eq!(p.sample_count(), 1);
    assert_eq!(&p.buffer.data[0..4], &[1, 5, SEPARATOR, SEPARATOR][..]);
}
