//! Filesystem change events: how OS notifications map to them,
//! the bounded queue that holds them, and the plan that applies a batch of
//! them to the index and the store.
use vstd::prelude::*;
use std::collections::VecDeque;
use crate::filter::{excluded, should_exclude};
use crate::text::{file_name_of, file_name_start, from_chars, slice_chars, strings_view, to_chars};

verus! {

/// How many events the queue holds before it drops the oldest.
pub const EVENT_QUEUE_CAPACITY: usize = 1000;

/// A change to one file, as the index sees it.
#[derive(Debug, Clone, PartialEq, Eq)]
pub enum FileEvent {
    Created(String),
    Modified(String),
    Removed(String),
    Renamed { from: String, to: String },
}

/// The kind of an OS notification, as the watcher reports it.
#[derive(Debug, Clone, Copy, PartialEq, Eq, Structural)]
pub enum NotifyKind {
    Create,
    Modify,
    /// A rename reported as one event carrying the old and the new path.
    RenameBoth,
    Remove,
    /// An access-class event; a rename on some platforms when it carries two paths.
    Access,
    Other,
}

/// The event that a notification stands for: creations and modifications of
/// files (not directories), every removal, and renames carrying two paths.
pub open spec fn translated(kind: NotifyKind, paths: Seq<String>, first_is_file: bool) -> Option<FileEvent> {
    match kind {
        NotifyKind::Create => if paths.len() > 0 && first_is_file {
            Some(FileEvent::Created(paths[0]))
        } else {
            None
        },
        NotifyKind::Modify => if paths.len() > 0 && first_is_file {
            Some(FileEvent::Modified(paths[0]))
        } else {
            None
        },
        NotifyKind::Remove => if paths.len() > 0 {
            Some(FileEvent::Removed(paths[0]))
        } else {
            None
        },
        NotifyKind::RenameBoth | NotifyKind::Access => if paths.len() == 2 {
            Some(FileEvent::Renamed { from: paths[0], to: paths[1] })
        } else {
            None
        },
        NotifyKind::Other => None,
    }
}

/// The event for a notification of kind `kind` on `paths`, where
/// `first_is_file` tells whether the first path is a regular file.
pub fn translate_event(kind: NotifyKind, paths: &Vec<String>, first_is_file: bool) -> (r: Option<FileEvent>)
    ensures
        r == translated(kind, paths@, first_is_file),
{
    match kind {
        NotifyKind::Create => if paths.len() > 0 && first_is_file {
            Some(FileEvent::Created(paths[0].clone()))
        } else {
            None
        },
        NotifyKind::Modify => if paths.len() > 0 && first_is_file {
            Some(FileEvent::Modified(paths[0].clone()))
        } else {
            None
        },
        NotifyKind::Remove => if paths.len() > 0 {
            Some(FileEvent::Removed(paths[0].clone()))
        } else {
            None
        },
        NotifyKind::RenameBoth | NotifyKind::Access => if paths.len() == 2 {
            Some(FileEvent::Renamed { from: paths[0].clone(), to: paths[1].clone() })
        } else {
            None
        },
        NotifyKind::Other => None,
    }
}

/// Events waiting to be applied, at most `EVENT_QUEUE_CAPACITY` of them.
pub struct EventQueue {
    events: VecDeque<FileEvent>,
}

impl View for EventQueue {
    type V = Seq<FileEvent>;

    closed spec fn view(&self) -> Seq<FileEvent> {
        self.events@
    }
}

impl EventQueue {
    /// The queue never holds more than its capacity.
    pub closed spec fn wf(&self) -> bool {
        self.events@.len() <= EVENT_QUEUE_CAPACITY
    }

    /// An empty queue.
    pub fn new() -> (r: EventQueue)
        ensures
            r.wf(),
            r@ == Seq::<FileEvent>::empty(),
    {
        EventQueue { events: VecDeque::new() }
    }

    /// Adds `e` at the back; a full queue first drops its oldest event, and
    /// then the result is `true`.
    pub fn push(&mut self, e: FileEvent) -> (dropped: bool)
        requires
            old(self).wf(),
        ensures
            final(self).wf(),
            dropped == (old(self)@.len() == EVENT_QUEUE_CAPACITY),
            dropped ==> final(self)@ == old(self)@.drop_first().push(e),
            !dropped ==> final(self)@ == old(self)@.push(e),
    {
        let dropped = self.events.len() >= EVENT_QUEUE_CAPACITY;
        if dropped {
            let _ = self.events.pop_front();
        }
        self.events.push_back(e);
        dropped
    }

    /// How many events wait.
    pub fn len(&self) -> (r: usize)
        ensures
            r == self@.len(),
    {
        self.events.len()
    }

    /// Puts `events` back in front of the waiting ones, as the oldest, so that
    /// a later batch retries them. Where the queue would overflow, the oldest
    /// of them are dropped: what remains is the newest `EVENT_QUEUE_CAPACITY`
    /// of the whole sequence.
    pub fn requeue(&mut self, events: Vec<FileEvent>)
        requires
            old(self).wf(),
        ensures
            final(self).wf(),
            ({
                let all = events@ + old(self)@;
                final(self)@ == if all.len() > EVENT_QUEUE_CAPACITY {
                    all.skip(all.len() - EVENT_QUEUE_CAPACITY)
                } else {
                    all
                }
            }),
    {
        let ghost all = events@ + self.events@;
        let mut rest = events;
        while rest.len() > 0 && self.events.len() < EVENT_QUEUE_CAPACITY
            invariant
                self.events@.len() <= EVENT_QUEUE_CAPACITY,
                all == rest@ + self.events@,
            decreases rest@.len(),
        {
            let ghost before = rest@;
            match rest.pop() {
                Some(e) => {
                    let ghost q = self.events@;
                    self.events.push_front(e);
                    assert(before == rest@.push(e));
                    assert(all =~= rest@ + self.events@);
                },
                None => {},
            }
        }
        proof {
            let all_len = all.len();
            if rest@.len() == 0 {
                assert(all =~= self.events@);
            } else {
                assert(self.events@.len() == EVENT_QUEUE_CAPACITY);
                assert(all.skip(all_len - EVENT_QUEUE_CAPACITY) =~= self.events@);
            }
        }
    }

    /// Takes every waiting event, oldest first, and leaves the queue empty.
    pub fn poll_events(&mut self) -> (r: Vec<FileEvent>)
        requires
            old(self).wf(),
        ensures
            final(self).wf(),
            r@ == old(self)@,
            final(self)@ == Seq::<FileEvent>::empty(),
    {
        let mut r: Vec<FileEvent> = Vec::new();
        while self.events.len() > 0
            invariant
                r@ + self.events@ == old(self)@,
            decreases self.events@.len(),
        {
            match self.events.pop_front() {
                Some(e) => {
                    r.push(e);
                    assert(r@ + self.events@ =~= old(self)@);
                },
                None => {},
            }
        }
        assert(r@ =~= old(self)@);
        r
    }
}

/// The stage of a batch that applies an event: creations, then
/// modifications, then removals, then renames.
pub open spec fn stage_of(e: FileEvent) -> u8 {
    match e {
        FileEvent::Created(_) => 0,
        FileEvent::Modified(_) => 1,
        FileEvent::Removed(_) => 2,
        FileEvent::Renamed { .. } => 3,
    }
}

/// The events among the first `n` of `events` whose stage is `stage` or later.
pub open spec fn from_stage(events: Seq<FileEvent>, stage: u8, n: nat) -> Seq<FileEvent>
    decreases n,
{
    if n == 0 || n > events.len() {
        Seq::empty()
    } else if stage_of(events[n - 1]) >= stage {
        from_stage(events, stage, (n - 1) as nat).push(events[n - 1])
    } else {
        from_stage(events, stage, (n - 1) as nat)
    }
}

/// The events of a batch that a failed stage leaves unapplied: those of that
/// stage and of the later ones, in arrival order.
pub fn events_from_stage(events: Vec<FileEvent>, stage: u8) -> (r: Vec<FileEvent>)
    ensures
        r@ == from_stage(events@, stage, events@.len()),
{
    let ghost orig = events@;
    let mut rest = events;
    let total = rest.len();
    let mut rev: Vec<FileEvent> = Vec::new();
    while rest.len() > 0
        invariant
            rest@ + rev@.reverse() == orig,
        decreases rest@.len(),
    {
        match rest.pop() {
            Some(e) => {
                rev.push(e);
                assert(rest@ + rev@.reverse() =~= orig);
            },
            None => {},
        }
    }
    assert(rev@.reverse() =~= orig);
    let mut kept: Vec<FileEvent> = Vec::new();
    let mut i: usize = 0;
    while rev.len() > 0
        invariant
            i + rev@.len() == orig.len(),
            orig.len() == total,
            rev@.reverse() == orig.skip(i as int),
            kept@ == from_stage(orig, stage, i as nat),
        decreases rev@.len(),
    {
        let ghost old_rev = rev@;
        match rev.pop() {
            Some(e) => {
                proof {
                    assert(old_rev.reverse()[0] == old_rev.last());
                    assert(orig.skip(i as int)[0] == orig[i as int]);
                    assert(rev@ =~= old_rev.drop_last());
                    assert(old_rev.drop_last().reverse() =~= old_rev.reverse().drop_first());
                    assert(orig.skip(i as int).drop_first() =~= orig.skip(i as int + 1));
                }
                let st: u8 = match &e {
                    FileEvent::Created(_) => 0,
                    FileEvent::Modified(_) => 1,
                    FileEvent::Removed(_) => 2,
                    FileEvent::Renamed { .. } => 3,
                };
                if st >= stage {
                    kept.push(e);
                }
                i = i + 1;
            },
            None => {},
        }
    }
    kept
}

/// What a rename does to the index.
#[derive(Debug, Clone, PartialEq, Eq)]
pub enum RenameOp {
    /// The destination is excluded: the source leaves the index.
    DeleteSource(String),
    /// The document moves from one path to the other.
    Move { from: String, to: String, filename: String },
}

/// What a modification does, once the content hashes are known.
#[derive(Debug, Clone, Copy, PartialEq, Eq, Structural)]
pub enum ModifiedAction {
    /// The content did not change: nothing is written.
    Skip,
    /// The file is indexed again and its record refreshed.
    Update,
}

/// The work that one batch of events asks for, grouped by kind in arrival
/// order: additions of created files, modified files whose hash must be
/// checked, modified files that left the indexed set, removals and renames.
pub struct BatchPlan {
    pub added: Vec<(String, String)>,
    pub modified: Vec<(String, String)>,
    pub excluded_modified: Vec<String>,
    pub removed: Vec<String>,
    pub renamed: Vec<RenameOp>,
}

/// A rename as the contracts see it: whether the document moves, the source,
/// and for a move the destination and its file name.
pub type RenameView = (bool, Seq<char>, Seq<char>, Seq<char>);

pub open spec fn rename_view(op: RenameOp) -> RenameView {
    match op {
        RenameOp::DeleteSource(from) => (false, from@, Seq::empty(), Seq::empty()),
        RenameOp::Move { from, to, filename } => (true, from@, to@, filename@),
    }
}

pub type PlanView = (
    Seq<(Seq<char>, Seq<char>)>,
    Seq<(Seq<char>, Seq<char>)>,
    Seq<Seq<char>>,
    Seq<Seq<char>>,
    Seq<RenameView>,
);

pub open spec fn pairs_view(v: Seq<(String, String)>) -> Seq<(Seq<char>, Seq<char>)> {
    v.map_values(|p: (String, String)| (p.0@, p.1@))
}

pub open spec fn plan_view(p: BatchPlan) -> PlanView {
    (
        pairs_view(p.added@),
        pairs_view(p.modified@),
        strings_view(p.excluded_modified@),
        strings_view(p.removed@),
        p.renamed@.map_values(|o: RenameOp| rename_view(o)),
    )
}

/// The plan for a sequence of events under the given exclusion policy. An
/// event on a path without a file name is ignored, except a removal.
pub open spec fn plan_of(
    events: Seq<FileEvent>,
    exts: Seq<Seq<char>>,
    pats: Seq<Seq<char>>,
    dirs: Seq<Seq<char>>,
) -> PlanView
    decreases events.len(),
{
    if events.len() == 0 {
        (Seq::empty(), Seq::empty(), Seq::empty(), Seq::empty(), Seq::empty())
    } else {
        let (a, m, x, d, n) = plan_of(events.drop_last(), exts, pats, dirs);
        match events.last() {
            FileEvent::Created(p) => {
                let name = file_name_of(p@);
                if name.len() > 0 && !excluded(p@, name, exts, pats, dirs) {
                    (a.push((p@, name)), m, x, d, n)
                } else {
                    (a, m, x, d, n)
                }
            },
            FileEvent::Modified(p) => {
                let name = file_name_of(p@);
                if name.len() == 0 {
                    (a, m, x, d, n)
                } else if excluded(p@, name, exts, pats, dirs) {
                    (a, m, x.push(p@), d, n)
                } else {
                    (a, m.push((p@, name)), x, d, n)
                }
            },
            FileEvent::Removed(p) => (a, m, x, d.push(p@), n),
            FileEvent::Renamed { from, to } => {
                let name = file_name_of(to@);
                if name.len() == 0 {
                    (a, m, x, d, n)
                } else if excluded(to@, name, exts, pats, dirs) {
                    (a, m, x, d, n.push((false, from@, Seq::empty(), Seq::empty())))
                } else {
                    (a, m, x, d, n.push((true, from@, to@, name)))
                }
            },
        }
    }
}

/// Whether a modification must be written: unless the stored record's hash
/// equals the fresh one. `stored` is `None` where no record exists.
pub open spec fn modified_action_for(stored: Option<Option<Seq<char>>>, fresh: Option<Seq<char>>) -> ModifiedAction {
    if stored == Some(fresh) {
        ModifiedAction::Skip
    } else {
        ModifiedAction::Update
    }
}

pub open spec fn opt_view(o: Option<String>) -> Option<Seq<char>> {
    match o {
        Some(s) => Some(s@),
        None => None,
    }
}

pub open spec fn stored_view(o: Option<Option<String>>) -> Option<Option<Seq<char>>> {
    match o {
        Some(h) => Some(opt_view(h)),
        None => None,
    }
}

/// Decides a modification from the stored record's hash (`None` where the
/// store has no record of the path) and the freshly computed fast hash
/// (`None` where it could not be computed).
pub fn decide_modified(stored: &Option<Option<String>>, fresh: &Option<String>) -> (r: ModifiedAction)
    ensures
        r == modified_action_for(stored_view(*stored), opt_view(*fresh)),
{
    match stored {
        None => ModifiedAction::Update,
        Some(h) => match h {
            Some(a) => match fresh {
                Some(b) => if a.eq(b) {
                    ModifiedAction::Skip
                } else {
                    ModifiedAction::Update
                },
                None => ModifiedAction::Update,
            },
            None => match fresh {
                Some(_) => ModifiedAction::Update,
                None => ModifiedAction::Skip,
            },
        },
    }
}

fn name_of(p: &Vec<char>) -> (r: Vec<char>)
    ensures
        r@ == file_name_of(p@),
{
    let start = file_name_start(p);
    slice_chars(p, start, p.len())
}

/// The plan for a batch of events: each event, in arrival order, goes to
/// the group of its kind, with the exclusion policy applied again to created
/// and modified files and to rename destinations.
pub fn plan_batch(
    events: &Vec<FileEvent>,
    excluded_extensions: &Vec<String>,
    excluded_patterns: &Vec<String>,
    excluded_dirs: &Vec<String>,
) -> (r: BatchPlan)
    ensures
        plan_view(r) == plan_of(
            events@,
            excluded_extensions.deep_view(),
            excluded_patterns.deep_view(),
            excluded_dirs.deep_view(),
        ),
{
    let ghost exts = excluded_extensions.deep_view();
    let ghost pats = excluded_patterns.deep_view();
    let ghost dirs = excluded_dirs.deep_view();
    let mut plan = BatchPlan {
        added: Vec::new(),
        modified: Vec::new(),
        excluded_modified: Vec::new(),
        removed: Vec::new(),
        renamed: Vec::new(),
    };
    let mut i: usize = 0;
    while i < events.len()
        invariant
            i <= events@.len(),
            exts == excluded_extensions.deep_view(),
            pats == excluded_patterns.deep_view(),
            dirs == excluded_dirs.deep_view(),
            plan_view(plan) == plan_of(events@.take(i as int), exts, pats, dirs),
        decreases events@.len() - i,
    {
        let ghost before = plan_view(plan);
        proof {
            assert(events@.take(i as int + 1).drop_last() =~= events@.take(i as int));
            assert(events@.take(i as int + 1).last() == events@[i as int]);
        }
        match &events[i] {
            FileEvent::Created(p) => {
                let pc = to_chars(p.as_str());
                let name = name_of(&pc);
                if name.len() > 0 {
                    let n = from_chars(&name);
                    if !should_exclude(p.as_str(), n.as_str(), excluded_extensions, excluded_patterns, excluded_dirs) {
                        plan.added.push((p.clone(), n));
                        assert(pairs_view(plan.added@) =~= before.0.push((p@, name@)));
                    }
                }
            },
            FileEvent::Modified(p) => {
                let pc = to_chars(p.as_str());
                let name = name_of(&pc);
                if name.len() > 0 {
                    let n = from_chars(&name);
                    if should_exclude(p.as_str(), n.as_str(), excluded_extensions, excluded_patterns, excluded_dirs) {
                        plan.excluded_modified.push(p.clone());
                        assert(strings_view(plan.excluded_modified@) =~= before.2.push(p@));
                    } else {
                        plan.modified.push((p.clone(), n));
                        assert(pairs_view(plan.modified@) =~= before.1.push((p@, name@)));
                    }
                }
            },
            FileEvent::Removed(p) => {
                plan.removed.push(p.clone());
                assert(strings_view(plan.removed@) =~= before.3.push(p@));
            },
            FileEvent::Renamed { from, to } => {
                let tc = to_chars(to.as_str());
                let name = name_of(&tc);
                if name.len() > 0 {
                    let n = from_chars(&name);
                    if should_exclude(to.as_str(), n.as_str(), excluded_extensions, excluded_patterns, excluded_dirs) {
                        let op = RenameOp::DeleteSource(from.clone());
                        plan.renamed.push(op);
                        assert(plan.renamed@.map_values(|o: RenameOp| rename_view(o)) =~= before.4.push(
                            (false, from@, Seq::empty(), Seq::empty()),
                        ));
                    } else {
                        let op = RenameOp::Move { from: from.clone(), to: to.clone(), filename: n };
                        plan.renamed.push(op);
                        assert(plan.renamed@.map_values(|o: RenameOp| rename_view(o)) =~= before.4.push(
                            (true, from@, to@, name@),
                        ));
                    }
                }
            },
        }
        i = i + 1;
    }
    assert(events@.take(events@.len() as int) =~= events@);
    plan
}

} // verus!
