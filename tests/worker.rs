use html_saver::{BatchWorker, WorkerEvent, WorkerState};

fn feed(worker: &mut BatchWorker<u32>, items: &[u32]) -> Vec<Vec<u32>> {
    let mut flushed = Vec::new();
    for &i in items {
        if let Some(b) = worker.step(WorkerEvent::Item(i)) {
            flushed.push(b);
        }
    }
    flushed
}

#[test]
fn no_flush_before_batch_size_or_tick() {
    let mut worker = BatchWorker::new(5);
    let flushed = feed(&mut worker, &[1, 2, 3, 4]);
    assert!(flushed.is_empty());
    assert_eq!(worker.pending(), 4);
    assert_eq!(worker.state(), WorkerState::Running);
}

#[test]
fn batch_size_items_flush_once_with_exactly_those_items() {
    let mut worker = BatchWorker::new(2);
    let flushed = feed(&mut worker, &[10, 20]);
    assert_eq!(flushed, vec![vec![10, 20]]);
    assert_eq!(worker.pending(), 0);
}

#[test]
fn tick_flushes_an_idle_batch_below_threshold() {
    let mut worker = BatchWorker::new(100);
    assert!(feed(&mut worker, &[7]).is_empty());
    assert_eq!(worker.step(WorkerEvent::Tick), Some(vec![7]));
    assert_eq!(worker.step(WorkerEvent::Tick), None);
}

#[test]
fn tick_on_empty_batch_flushes_nothing() {
    let mut worker: BatchWorker<u32> = BatchWorker::new(3);
    assert_eq!(worker.step(WorkerEvent::Tick), None);
    assert_eq!(worker.state(), WorkerState::Running);
}

#[test]
fn shutdown_drains_and_flushes_all_items_once() {
    let mut worker = BatchWorker::new(100);
    assert!(feed(&mut worker, &[1, 2, 3]).is_empty());
    assert_eq!(worker.step(WorkerEvent::Shutdown), None);
    assert_eq!(worker.state(), WorkerState::Draining);
    // Items still queued at shutdown are collected without a size bound.
    assert!(feed(&mut worker, &[4, 5]).is_empty());
    assert_eq!(worker.step(WorkerEvent::Tick), None);
    assert_eq!(worker.step(WorkerEvent::Drained), Some(vec![1, 2, 3, 4, 5]));
    assert_eq!(worker.state(), WorkerState::Stopped);
    assert_eq!(worker.pending(), 0);
}

#[test]
fn draining_ignores_batch_size() {
    let mut worker = BatchWorker::new(2);
    worker.step(WorkerEvent::Shutdown);
    assert!(feed(&mut worker, &[1, 2, 3]).is_empty());
    assert_eq!(worker.step(WorkerEvent::Drained), Some(vec![1, 2, 3]));
}

#[test]
fn shutdown_with_empty_batch_skips_final_flush() {
    let mut worker: BatchWorker<u32> = BatchWorker::new(4);
    worker.step(WorkerEvent::Shutdown);
    assert_eq!(worker.step(WorkerEvent::Drained), None);
    assert_eq!(worker.state(), WorkerState::Stopped);
}

#[test]
fn stopped_worker_processes_nothing() {
    let mut worker = BatchWorker::new(1);
    worker.step(WorkerEvent::Shutdown);
    worker.step(WorkerEvent::Drained);
    assert_eq!(worker.step(WorkerEvent::Item(9)), None);
    assert_eq!(worker.step(WorkerEvent::Tick), None);
    assert_eq!(worker.pending(), 0);
    assert_eq!(worker.state(), WorkerState::Stopped);
}

#[test]
fn worker_keeps_accepting_after_a_flush() {
    // Flush results never reach the worker: after a flush it runs on.
    let mut worker = BatchWorker::new(1);
    assert_eq!(feed(&mut worker, &[1]), vec![vec![1]]);
    assert_eq!(worker.state(), WorkerState::Running);
    assert_eq!(feed(&mut worker, &[2]), vec![vec![2]]);
}

#[test]
fn batch_size_zero_flushes_every_item() {
    let mut worker = BatchWorker::new(0);
    assert_eq!(feed(&mut worker, &[1, 2]), vec![vec![1], vec![2]]);
}

#[test]
fn items_are_kept_in_arrival_order_across_flushes() {
    let mut worker = BatchWorker::new(3);
    let mut flushed = feed(&mut worker, &[1, 2, 3, 4, 5, 6, 7]);
    worker.step(WorkerEvent::Shutdown);
    if let Some(b) = worker.step(WorkerEvent::Drained) {
        flushed.push(b);
    }
    assert_eq!(flushed, vec![vec![1, 2, 3], vec![4, 5, 6], vec![7]]);
}
