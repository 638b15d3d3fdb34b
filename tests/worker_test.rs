use xfinder::indexer::IndexerSlot;
use xfinder::background::{BatchWorker, IndexingMessage, IndexingStats, WorkerAction, WorkerInput};
use xfinder::indexer::{control_step, per_root_budget, should_yield, Control, IndexProgress, IndexRun};
use xfinder::database::FileRecord;

#[test]
fn test_indexing_stats_default() {
    let stats = IndexingStats::default();
    assert_eq!(stats.files_indexed, 0);
    assert_eq!(stats.chunks_created, 0);
    assert_eq!(stats.errors, 0);
    assert!(!stats.is_indexing);
    assert!(stats.current_file.is_none());
}

#[test]
fn stats_count_outcomes() {
    let mut s = IndexingStats::default();
    s.record(Ok(3));
    s.record(Err(()));
    s.record(Ok(2));
    assert_eq!((s.files_indexed, s.chunks_created, s.errors), (2, 5, 1));
    s.reset();
    assert_eq!((s.files_indexed, s.chunks_created, s.errors), (0, 0, 0));
}

fn file(p: &str, id: i64) -> WorkerInput {
    WorkerInput::Message(IndexingMessage::IndexFile(p.to_string(), id))
}

#[test]
fn worker_batches_and_flushes() {
    let mut w = BatchWorker::new(2);
    assert!(matches!(w.step(file("/a", 1)), WorkerAction::Wait));
    assert!(w.waits_with_timeout());
    match w.step(file("/b", 2)) {
        WorkerAction::IndexBatch(b) => assert_eq!(b, vec![("/a".to_string(), 1), ("/b".to_string(), 2)]),
        _ => panic!("expected a batch"),
    }
    assert!(!w.waits_with_timeout());
    assert!(matches!(w.step(WorkerInput::Timeout), WorkerAction::Wait));
    let _ = w.step(file("/c", 3));
    match w.step(WorkerInput::Timeout) {
        WorkerAction::IndexBatch(b) => assert_eq!(b.len(), 1),
        _ => panic!("expected the idle flush"),
    }
    let _ = w.step(file("/d", 4));
    match w.step(WorkerInput::Message(IndexingMessage::Stop)) {
        WorkerAction::Finish(b) => assert_eq!(b, vec![("/d".to_string(), 4)]),
        _ => panic!("expected finish"),
    }
    let mut now = BatchWorker::new(0);
    assert!(matches!(now.step(file("/e", 5)), WorkerAction::IndexOne(_, 5)));
    assert!(matches!(now.step(WorkerInput::Message(IndexingMessage::BuildIndex)), WorkerAction::Build(b) if b.is_empty()));
}

#[test]
fn run_flushes_every_five_thousand_records() {
    let mut run = IndexRun::new();
    let mut flushed = 0;
    for i in 0..5001 {
        let rec = FileRecord::for_file(&format!("/f{}", i), "f", 1, 1, 1, None, 1);
        if let Some(batch) = run.record_indexed(Some(rec)) {
            assert_eq!(batch.len(), 5000);
            flushed += 1;
        }
    }
    assert!(run.record_indexed(None).is_none());
    assert_eq!(flushed, 1);
    assert_eq!(run.total_indexed(), 5002);
    assert_eq!(run.finish().len(), 1);
}

#[test]
fn budgets_controls_and_progress() {
    assert_eq!(per_root_budget(100, 0), 100);
    assert_eq!(per_root_budget(100, 3), 33);
    assert_eq!(control_step(true, true), Control::Stop);
    assert_eq!(control_step(true, false), Control::Wait);
    assert_eq!(control_step(false, false), Control::Proceed);
    assert!(!should_yield(0));
    assert!(should_yield(2000));
    assert!(!should_yield(1500));
    let d = IndexProgress::done(7);
    assert_eq!((d.indexed_count, d.total_files, d.current_path.as_str()), (7, 7, "Done"));
}

#[test]
fn one_indexing_run_at_a_time() {
    let mut slot = IndexerSlot::new();
    assert!(!slot.is_busy());
    assert!(slot.try_start());
    assert!(!slot.try_start());
    assert!(slot.is_busy());
    slot.finish();
    assert!(slot.try_start());
}
