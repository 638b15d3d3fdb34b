//! The decisions of the semantic indexing worker: batching of queued files,
//! idle flushes, and its statistics.
use vstd::prelude::*;

verus! {

/// Seconds without a message after which pending files are indexed.
pub const IDLE_FLUSH_SECS: u64 = 2;

/// A request to the semantic indexing worker.
pub enum IndexingMessage {
    /// Index one file, given its path and file id.
    IndexFile(String, i64),
    /// Index these files now.
    IndexBatch(Vec<(String, i64)>),
    /// Index what waits, then build the vector index.
    BuildIndex,
    /// Index what waits, then end.
    Stop,
}

/// What the worker received: a message, or nothing before the idle timeout.
pub enum WorkerInput {
    Message(IndexingMessage),
    Timeout,
}

/// What the worker does next.
pub enum WorkerAction {
    /// Nothing to do yet.
    Wait,
    /// Index one file at once.
    IndexOne(String, i64),
    /// Index these files.
    IndexBatch(Vec<(String, i64)>),
    /// Index these files, then build the vector index.
    Build(Vec<(String, i64)>),
    /// Index these files, then end.
    Finish(Vec<(String, i64)>),
}

/// Counters of the semantic indexing worker.
pub struct IndexingStats {
    pub files_indexed: usize,
    pub chunks_created: usize,
    pub errors: usize,
    pub is_indexing: bool,
    pub current_file: Option<String>,
}

impl Default for IndexingStats {
    fn default() -> (r: IndexingStats)
        ensures
            r.files_indexed == 0,
            r.chunks_created == 0,
            r.errors == 0,
            !r.is_indexing,
            r.current_file is None,
    {
        IndexingStats { files_indexed: 0, chunks_created: 0, errors: 0, is_indexing: false, current_file: None }
    }
}

pub open spec fn sat(a: int, b: int) -> int {
    if a + b > usize::MAX {
        usize::MAX as int
    } else {
        a + b
    }
}

impl IndexingStats {
    /// Counts the outcome of one file: its chunks on success, an error otherwise.
    pub fn record(&mut self, outcome: Result<usize, ()>)
        ensures
            match outcome {
                Ok(n) => final(self).files_indexed == sat(old(self).files_indexed as int, 1)
                    && final(self).chunks_created == sat(old(self).chunks_created as int, n as int)
                    && final(self).errors == old(self).errors,
                Err(_) => final(self).errors == sat(old(self).errors as int, 1)
                    && final(self).files_indexed == old(self).files_indexed
                    && final(self).chunks_created == old(self).chunks_created,
            },
            final(self).is_indexing == old(self).is_indexing,
    {
        match outcome {
            Ok(n) => {
                self.files_indexed = self.files_indexed.saturating_add(1);
                self.chunks_created = self.chunks_created.saturating_add(n);
            },
            Err(_) => {
                self.errors = self.errors.saturating_add(1);
            },
        }
    }

    /// Clears the counters, keeping the activity state.
    pub fn reset(&mut self)
        ensures
            final(self).files_indexed == 0,
            final(self).chunks_created == 0,
            final(self).errors == 0,
            final(self).is_indexing == old(self).is_indexing,
    {
        self.files_indexed = 0;
        self.chunks_created = 0;
        self.errors = 0;
    }
}

/// The worker's queue of files waiting to be indexed together.
pub struct BatchWorker {
    pending: Vec<(String, i64)>,
    batch_size: usize,
}

pub open spec fn jobs_view(v: Seq<(String, i64)>) -> Seq<(Seq<char>, i64)> {
    v.map_values(|j: (String, i64)| (j.0@, j.1))
}

impl BatchWorker {
    /// With a batch size, fewer files than it wait.
    pub closed spec fn wf(&self) -> bool {
        &&& (self.batch_size == 0 ==> self.pending@.len() == 0)
        &&& (self.batch_size > 0 ==> self.pending@.len() < self.batch_size)
    }

    /// How many files make a batch.
    pub closed spec fn size(&self) -> usize {
        self.batch_size
    }

    /// The files waiting, oldest first.
    pub closed spec fn pending_view(&self) -> Seq<(Seq<char>, i64)> {
        jobs_view(self.pending@)
    }

    /// A worker that indexes files `batch_size` at a time (at once for 0).
    pub fn new(batch_size: usize) -> (r: BatchWorker)
        ensures
            r.wf(),
            r.size() == batch_size,
            r.pending_view() == Seq::<(Seq<char>, i64)>::empty(),
    {
        let r = BatchWorker { pending: Vec::new(), batch_size };
        assert(jobs_view(r.pending@) =~= Seq::<(Seq<char>, i64)>::empty());
        r
    }

    /// Whether the next receive waits at most the idle timeout.
    pub fn waits_with_timeout(&self) -> (r: bool)
        ensures
            r == (self.pending_view().len() > 0),
    {
        self.pending.len() > 0
    }

    /// The action for one input. A queued file waits until the batch is full
    /// (or is indexed at once with batch size 0); a batch is indexed at once;
    /// build, stop and an idle timeout take every waiting file along.
    pub fn step(&mut self, input: WorkerInput) -> (r: WorkerAction)
        requires
            old(self).wf(),
        ensures
            final(self).wf(),
            final(self).size() == old(self).size(),
            match (input, r) {
                (WorkerInput::Message(IndexingMessage::IndexFile(p, id)), WorkerAction::IndexOne(q, jd)) =>
                    old(self).size() == 0 && q@ == p@ && jd == id && final(self).pending_view() == old(self).pending_view(),
                (WorkerInput::Message(IndexingMessage::IndexFile(p, id)), WorkerAction::IndexBatch(b)) =>
                    old(self).size() > 0 && jobs_view(b@) == old(self).pending_view().push((p@, id))
                        && jobs_view(b@).len() >= old(self).size()
                        && final(self).pending_view().len() == 0,
                (WorkerInput::Message(IndexingMessage::IndexFile(p, id)), WorkerAction::Wait) =>
                    old(self).size() > 0 && final(self).pending_view() == old(self).pending_view().push((p@, id)),
                (WorkerInput::Message(IndexingMessage::IndexFile(_, _)), _) => false,
                (WorkerInput::Message(IndexingMessage::IndexBatch(files)), WorkerAction::IndexBatch(b)) =>
                    b == files && final(self).pending_view() == old(self).pending_view(),
                (WorkerInput::Message(IndexingMessage::IndexBatch(_)), _) => false,
                (WorkerInput::Message(IndexingMessage::BuildIndex), WorkerAction::Build(b)) =>
                    jobs_view(b@) == old(self).pending_view() && final(self).pending_view().len() == 0,
                (WorkerInput::Message(IndexingMessage::BuildIndex), _) => false,
                (WorkerInput::Message(IndexingMessage::Stop), WorkerAction::Finish(b)) =>
                    jobs_view(b@) == old(self).pending_view() && final(self).pending_view().len() == 0,
                (WorkerInput::Message(IndexingMessage::Stop), _) => false,
                (WorkerInput::Timeout, WorkerAction::IndexBatch(b)) =>
                    old(self).pending_view().len() > 0 && jobs_view(b@) == old(self).pending_view()
                        && final(self).pending_view().len() == 0,
                (WorkerInput::Timeout, WorkerAction::Wait) =>
                    old(self).pending_view().len() == 0 && final(self).pending_view().len() == 0,
                (WorkerInput::Timeout, _) => false,
            },
    {
        match input {
            WorkerInput::Message(IndexingMessage::IndexFile(p, id)) => {
                if self.batch_size == 0 {
                    WorkerAction::IndexOne(p, id)
                } else {
                    let ghost before = jobs_view(self.pending@);
                    self.pending.push((p, id));
                    assert(jobs_view(self.pending@) =~= before.push((p@, id)));
                    if self.pending.len() >= self.batch_size {
                        let b = self.pending.split_off(0);
                        assert(jobs_view(self.pending@) =~= Seq::<(Seq<char>, i64)>::empty());
                        WorkerAction::IndexBatch(b)
                    } else {
                        WorkerAction::Wait
                    }
                }
            },
            WorkerInput::Message(IndexingMessage::IndexBatch(files)) => WorkerAction::IndexBatch(files),
            WorkerInput::Message(IndexingMessage::BuildIndex) => {
                let b = self.pending.split_off(0);
                assert(jobs_view(self.pending@) =~= Seq::<(Seq<char>, i64)>::empty());
                WorkerAction::Build(b)
            },
            WorkerInput::Message(IndexingMessage::Stop) => {
                let b = self.pending.split_off(0);
                assert(jobs_view(self.pending@) =~= Seq::<(Seq<char>, i64)>::empty());
                WorkerAction::Finish(b)
            },
            WorkerInput::Timeout => {
                if self.pending.len() > 0 {
                    let b = self.pending.split_off(0);
                    assert(jobs_view(self.pending@) =~= Seq::<(Seq<char>, i64)>::empty());
                    WorkerAction::IndexBatch(b)
                } else {
                    WorkerAction::Wait
                }
            },
        }
    }
}

} // verus!
