use buddhabrot::batch::Batch;
use buddhabrot::trace::{Trace, TraceStatus};

#[test]
fn new_batch_is_empty() {
    let batch = Batch::new(20, 100);
    assert_eq!(batch.trace_length, 20);
    assert_eq!(batch.size, 100);
    assert!(batch.coords.is_empty());
}

#[test]
fn reset_batch_forgets_hits() {
    let mut batch = Batch::new(5, 10);
    batch.coords.push((1, 2, 3));
    batch.reset();
    assert!(batch.coords.is_empty());
    assert_eq!(batch.trace_length, 5);
    assert_eq!(batch.size, 10);
}

#[test]
fn trace_grows_to_its_limit() {
    let mut trace = Trace::new(2, (0i64, 0i64));
    assert_eq!(trace.len(), 0);
    assert_eq!(*trace.tail(), (0, 0));
    assert_eq!(trace.status(false), TraceStatus::NotDone);
    trace.extend((1, 1));
    assert_eq!(*trace.tail(), (1, 1));
    assert_eq!(trace.status(false), TraceStatus::NotDone);
    trace.extend((2, 3));
    assert!(trace.is_at_max_length());
    assert_eq!(trace.status(false), TraceStatus::Inside);
    assert_eq!(trace.status(true), TraceStatus::Outside);
    assert_eq!(trace.iter(), vec![(0, 0), (1, 1), (2, 3)]);
}

#[test]
fn reset_trace_restarts_from_new_origin() {
    let mut trace = Trace::new(3, 0u8);
    trace.extend(4);
    trace.reset(9);
    assert_eq!(*trace.origin(), 9);
    assert_eq!(*trace.origin_mut(), 9);
    assert_eq!(trace.len(), 0);
    assert_eq!(*trace.tail(), 9);
}

#[test]
fn next_point_is_filled_in_place() {
    let mut trace = Trace::new(3, 0u8);
    *trace.get_next_point(0) = 7;
    assert_eq!(trace.iter(), vec![0, 7]);
}

#[test]
fn iter_mut_lists_the_same_points() {
    let mut trace = Trace::new(3, 1u8);
    trace.extend(2);
    assert_eq!(trace.iter_mut(), vec![1, 2]);
    assert_eq!(trace.iter(), vec![1, 2]);
}

#[test]
fn checked_constructors_refuse_overflowing_room() {
    let batch = Batch::checked_new(20, 100).unwrap();
    assert_eq!(batch.size, 100);
    assert_eq!(batch.trace_length, 20);
    assert!(Batch::checked_new(usize::MAX, 4).is_none());
    assert!(Batch::checked_new(usize::MAX / 4, 2).is_none());
    let trace = Trace::checked_new(5, 0u64).unwrap();
    assert_eq!(trace.len(), 0);
    assert!(Trace::checked_new(usize::MAX / 4, 0u64).is_none());
}
