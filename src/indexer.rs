//! The decisions of a full indexing run: budgets, pause and cancel, batched
//! store writes and the progress stream.
use vstd::prelude::*;
use crate::database::FileRecord;

verus! {

/// Records gathered before one batched write to the store.
pub const DB_BATCH_SIZE: usize = 5000;

/// Files between two cooperative yields.
pub const YIELD_EVERY: usize = 1000;

/// One message of the progress stream.
pub struct IndexProgress {
    pub indexed_count: usize,
    pub total_files: usize,
    pub current_path: String,
}

/// The last message of a run carries this in place of a path.
pub open spec fn done_marker() -> Seq<char> {
    "Done"@
}

impl IndexProgress {
    /// Progress after `indexed_count` files of the `total_files` of a root,
    /// the last one being `current`.
    pub fn step(indexed_count: usize, total_files: usize, current: &str) -> (r: IndexProgress)
        ensures
            r.indexed_count == indexed_count,
            r.total_files == total_files,
            r.current_path@ == current@,
    {
        IndexProgress { indexed_count, total_files, current_path: current.to_owned() }
    }

    /// The message that ends a run of `total` files.
    pub fn done(total: usize) -> (r: IndexProgress)
        ensures
            r.indexed_count == total,
            r.total_files == total,
            r.current_path@ == done_marker(),
    {
        IndexProgress { indexed_count: total, total_files: total, current_path: "Done".to_owned() }
    }
}

/// The share of the file budget that each scan root gets.
pub fn per_root_budget(total_budget: usize, roots: usize) -> (r: usize)
    ensures
        r == total_budget / (if roots == 0 {
            1
        } else {
            roots
        }),
{
    let d = if roots == 0 {
        1
    } else {
        roots
    };
    total_budget / d
}

/// What the worker does before its next file.
#[derive(Debug, Clone, Copy, PartialEq, Eq, Structural)]
pub enum Control {
    /// Index the next file.
    Proceed,
    /// Sleep a while and look again.
    Wait,
    /// Commit what was done and end the run.
    Stop,
}

/// The control decision from the two shared flags: cancel wins over pause.
pub fn control_step(paused: bool, cancelled: bool) -> (r: Control)
    ensures
        r == if cancelled {
            Control::Stop
        } else if paused {
            Control::Wait
        } else {
            Control::Proceed
        },
{
    if cancelled {
        Control::Stop
    } else if paused {
        Control::Wait
    } else {
        Control::Proceed
    }
}

/// Whether the worker yields before the file at `position` of a root.
pub fn should_yield(position: usize) -> (r: bool)
    ensures
        r == (position > 0 && position % YIELD_EVERY == 0),
{
    position > 0 && position % YIELD_EVERY == 0
}

/// The state of an indexing run: files indexed so far and the records not
/// yet written to the store.
pub struct IndexRun {
    total_indexed: usize,
    pending: Vec<FileRecord>,
}

impl IndexRun {
    /// Fewer than `DB_BATCH_SIZE` records wait between two writes.
    pub closed spec fn wf(&self) -> bool {
        self.pending@.len() < DB_BATCH_SIZE
    }

    /// Files indexed so far.
    pub closed spec fn indexed(&self) -> usize {
        self.total_indexed
    }

    /// The records waiting for the next write.
    pub closed spec fn pending_view(&self) -> Seq<FileRecord> {
        self.pending@
    }

    /// A run that has indexed nothing.
    pub fn new() -> (r: IndexRun)
        ensures
            r.wf(),
            r.indexed() == 0,
            r.pending_view() == Seq::<FileRecord>::empty(),
    {
        IndexRun { total_indexed: 0, pending: Vec::new() }
    }

    /// Counts one more indexed file and keeps its record, if it has one. When
    /// `DB_BATCH_SIZE` records wait, they are handed back to be written and
    /// the run starts a new batch.
    pub fn record_indexed(&mut self, record: Option<FileRecord>) -> (flush: Option<Vec<FileRecord>>)
        requires
            old(self).wf(),
            old(self).indexed() < usize::MAX,
        ensures
            final(self).wf(),
            final(self).indexed() == old(self).indexed() + 1,
            match record {
                None => flush is None && final(self).pending_view() == old(self).pending_view(),
                Some(rec) => {
                    let all = old(self).pending_view().push(rec);
                    if all.len() >= DB_BATCH_SIZE {
                        flush is Some && flush->0@ == all && final(self).pending_view() == Seq::<FileRecord>::empty()
                    } else {
                        flush is None && final(self).pending_view() == all
                    }
                },
            },
    {
        self.total_indexed = self.total_indexed + 1;
        match record {
            None => None,
            Some(rec) => {
                self.pending.push(rec);
                if self.pending.len() >= DB_BATCH_SIZE {
                    let batch = self.pending.split_off(0);
                    Some(batch)
                } else {
                    None
                }
            },
        }
    }

    /// Files indexed so far.
    pub fn total_indexed(&self) -> (r: usize)
        ensures
            r == self.indexed(),
    {
        self.total_indexed
    }

    /// Ends the run: the records still waiting, to be written last.
    pub fn finish(self) -> (r: Vec<FileRecord>)
        ensures
            r@ == self.pending_view(),
    {
        self.pending
    }
}

/// Admits at most one indexing run at a time.
pub struct IndexerSlot {
    busy: bool,
}

impl IndexerSlot {
    /// Whether a run holds the slot.
    pub closed spec fn busy_spec(&self) -> bool {
        self.busy
    }

    pub fn new() -> (r: IndexerSlot)
        ensures
            !r.busy_spec(),
    {
        IndexerSlot { busy: false }
    }

    /// Takes the slot for a new run; while a run holds it, nothing changes
    /// and the result is `false`.
    pub fn try_start(&mut self) -> (started: bool)
        ensures
            started == !old(self).busy_spec(),
            final(self).busy_spec(),
    {
        if self.busy {
            false
        } else {
            self.busy = true;
            true
        }
    }

    /// Releases the slot at the end of a run.
    pub fn finish(&mut self)
        ensures
            !final(self).busy_spec(),
    {
        self.busy = false;
    }

    pub fn is_busy(&self) -> (r: bool)
        ensures
            r == self.busy_spec(),
    {
        self.busy
    }
}

} // verus!
