//! Indexing a directory tree in chunks.
//!
//! An [`IndexingRun`] holds what a run has still to do. The caller reads the
//! directories and feeds the index; the run decides, event by event, which
//! directory comes next, which entries are kept and which paths go into the
//! index when.
use crate::text;
use std::collections::VecDeque;
use vstd::prelude::*;

verus! {

/// How deep below the root directories are opened.
pub const MAX_DEPTH: usize = 25;

/// Once more files than this are discovered, no further directory is opened.
pub const MAX_FILES: usize = 500000;

/// How many paths go into the index at once.
pub const SUB_BATCH_SIZE: usize = 25;

/// After every so many files the walk reports its progress.
pub const REPORT_INTERVAL: usize = 10;

/// After a directory at every so many levels the walk pauses.
pub const PAUSE_INTERVAL: usize = 10;

/// What follows when a batch has been handed over.
#[derive(Debug, Clone, Copy, PartialEq, Eq, Structural)]
pub enum AfterBatch {
    /// The next entry of the directory that is open at this depth.
    Directory { depth: usize },
    /// The end of the run.
    Finish,
}

/// Where a run stands.
#[derive(Debug, Clone, Copy, PartialEq, Eq, Structural)]
pub enum RunPhase {
    /// The next directory has to be chosen.
    NextDirectory,
    /// A directory at this depth is open.
    Directory { depth: usize },
    /// The batch is being handed over; the paths before `offset` are through.
    Batch { offset: usize, then: AfterBatch },
    /// Nothing is left to do.
    Finished,
}

/// What the caller tells a run.
#[derive(Debug)]
pub enum RunEvent {
    /// The last action is carried out. `stop` tells whether the index has been
    /// asked to stop.
    Ready { stop: bool },
    /// The open directory has this entry. The path is given where it is
    /// Unicode text.
    Entry { stop: bool, path: Option<String>, is_dir: bool },
    /// The open directory has no more entries.
    DirectoryEnd,
}

/// What the caller is to do next.
#[derive(Debug)]
pub enum RunAction {
    /// Open this directory, then send its entries and its end.
    OpenDirectory(String),
    /// Send the next entry of the open directory, or its end.
    ReadEntry,
    /// Hand these paths to the index, then send `Ready`.
    AddPaths(Vec<String>),
    /// Pause where asked to, then send `Ready`.
    Continue { pause: bool },
    /// The run is over.
    Finished,
}

/// The progress of a walk, for the user to see.
#[derive(Debug)]
pub struct ProgressReport {
    pub discovered: usize,
    pub indexed: usize,
    pub path: String,
}

/// The answer of a run to an event: a report to be published first, where
/// there is one, and what to do next.
#[derive(Debug)]
pub struct RunStep {
    pub report: Option<ProgressReport>,
    pub action: RunAction,
}

/// An indexing run over a directory tree.
#[derive(Debug)]
pub struct IndexingRun {
    queue: VecDeque<(String, usize)>,
    excluded_patterns: Vec<String>,
    chunk_size: usize,
    discovered_files: usize,
    indexed_files: usize,
    current_batch: Vec<String>,
    phase: RunPhase,
}

/// The contents of a [`RunEvent`].
pub enum EventModel {
    Ready { stop: bool },
    Entry { stop: bool, path: Option<Seq<char>>, is_dir: bool },
    DirectoryEnd,
}

/// The contents of a [`RunAction`].
pub enum ActionModel {
    OpenDirectory(Seq<char>),
    ReadEntry,
    AddPaths(Seq<Seq<char>>),
    Continue { pause: bool },
    Finished,
}

/// The contents of a [`ProgressReport`].
pub struct ReportModel {
    pub discovered: usize,
    pub indexed: usize,
    pub path: Seq<char>,
}

/// The contents of an [`IndexingRun`].
pub struct RunModel {
    /// The directories to be opened, each with its depth.
    pub queue: Seq<(Seq<char>, usize)>,
    pub excluded_patterns: Seq<Seq<char>>,
    pub chunk_size: usize,
    pub discovered: usize,
    pub indexed: usize,
    /// The paths that were kept and are not yet handed over.
    pub batch: Seq<Seq<char>>,
    pub phase: RunPhase,
}

/// The contents of a [`RunStep`], with the run after it.
pub struct StepModel {
    pub next: RunModel,
    pub report: Option<ReportModel>,
    pub action: ActionModel,
}

impl View for RunEvent {
    type V = EventModel;

    open spec fn view(&self) -> EventModel {
        match *self {
            RunEvent::Ready { stop } => EventModel::Ready { stop },
            RunEvent::Entry { stop, path, is_dir } => EventModel::Entry {
                stop,
                path: text::opt_text(path),
                is_dir,
            },
            RunEvent::DirectoryEnd => EventModel::DirectoryEnd,
        }
    }
}

impl View for RunAction {
    type V = ActionModel;

    open spec fn view(&self) -> ActionModel {
        match *self {
            RunAction::OpenDirectory(path) => ActionModel::OpenDirectory(path@),
            RunAction::ReadEntry => ActionModel::ReadEntry,
            RunAction::AddPaths(paths) => ActionModel::AddPaths(text::texts(paths@)),
            RunAction::Continue { pause } => ActionModel::Continue { pause },
            RunAction::Finished => ActionModel::Finished,
        }
    }
}

impl View for ProgressReport {
    type V = ReportModel;

    open spec fn view(&self) -> ReportModel {
        ReportModel { discovered: self.discovered, indexed: self.indexed, path: self.path@ }
    }
}

/// The contents of an optional report.
pub open spec fn opt_report(report: Option<ProgressReport>) -> Option<ReportModel> {
    match report {
        Some(r) => Some(r@),
        None => None,
    }
}

/// The contents of a queue of directories.
pub open spec fn queue_texts(queue: Seq<(String, usize)>) -> Seq<(Seq<char>, usize)> {
    queue.map_values(|item: (String, usize)| (item.0@, item.1))
}

impl View for IndexingRun {
    type V = RunModel;

    closed spec fn view(&self) -> RunModel {
        RunModel {
            queue: queue_texts(self.queue@),
            excluded_patterns: text::texts(self.excluded_patterns@),
            chunk_size: self.chunk_size,
            discovered: self.discovered_files,
            indexed: self.indexed_files,
            batch: text::texts(self.current_batch@),
            phase: self.phase,
        }
    }
}

/// Whether a directory at `depth` may still be opened.
pub open spec fn may_open(depth: usize, discovered: usize) -> bool {
    depth < MAX_DEPTH && discovered <= MAX_FILES
}

/// The queue from the first directory on that may be opened.
pub open spec fn from_openable(queue: Seq<(Seq<char>, usize)>, discovered: usize) -> Seq<
    (Seq<char>, usize),
>
    decreases queue.len(),
{
    if queue.len() == 0 || may_open(queue[0].1, discovered) {
        queue
    } else {
        from_openable(queue.drop_first(), discovered)
    }
}

/// Whether the walk reports its progress at this number of files.
pub open spec fn reports_at(discovered: int) -> bool {
    discovered % REPORT_INTERVAL as int == 0 || discovered == 1
}

impl RunModel {
    /// A run over the tree at `root` that has not begun.
    pub open spec fn initial(
        root: Seq<char>,
        excluded_patterns: Seq<Seq<char>>,
        chunk_size: usize,
    ) -> RunModel {
        RunModel {
            queue: seq![(root, 0usize)],
            excluded_patterns,
            chunk_size,
            discovered: 0,
            indexed: 0,
            batch: Seq::empty(),
            phase: RunPhase::NextDirectory,
        }
    }

    /// The paths of the batch that are not yet handed over.
    pub open spec fn pending(self) -> Seq<Seq<char>> {
        match self.phase {
            RunPhase::Batch { offset, then } => self.batch.skip(offset as int),
            _ => self.batch,
        }
    }

    /// What holds of a run at all times: the open directory is not too deep,
    /// the hand-over has not passed the end of the batch, no more files are
    /// indexed or waiting than were discovered, and a run that is over has
    /// nothing waiting.
    pub open spec fn wf(self) -> bool {
        &&& match self.phase {
            RunPhase::NextDirectory => true,
            RunPhase::Directory { depth } => depth < MAX_DEPTH,
            RunPhase::Batch { offset, then } => {
                &&& offset <= self.batch.len()
                &&& offset <= self.indexed
                &&& (then matches AfterBatch::Directory { depth } ==> depth < MAX_DEPTH)
            },
            RunPhase::Finished => self.batch.len() == 0,
        }
        &&& self.indexed + self.pending().len() <= self.discovered
    }

    /// The run waits for such an event.
    pub open spec fn accepts(self, event: EventModel) -> bool {
        match event {
            EventModel::Ready { stop } => self.phase is NextDirectory || self.phase is Batch,
            EventModel::Entry { stop, path, is_dir } => self.phase is Directory && self.discovered
                < usize::MAX,
            EventModel::DirectoryEnd => self.phase is Directory,
        }
    }

    /// The walk is over: what is still in the batch goes into the index.
    pub open spec fn walk_ended(self) -> StepModel {
        if self.batch.len() == 0 {
            StepModel {
                next: RunModel { queue: Seq::empty(), phase: RunPhase::Finished, ..self },
                report: None,
                action: ActionModel::Finished,
            }
        } else {
            StepModel {
                next: RunModel {
                    queue: Seq::empty(),
                    phase: RunPhase::Batch { offset: 0, then: AfterBatch::Finish },
                    ..self
                },
                report: None,
                action: ActionModel::Continue { pause: false },
            }
        }
    }

    /// The next directory that may be opened is opened. The walk ends where
    /// there is none, and where the index is to stop.
    pub open spec fn next_directory(self, stop: bool) -> StepModel {
        let queue = from_openable(self.queue, self.discovered);
        if queue.len() == 0 || stop {
            self.walk_ended()
        } else {
            StepModel {
                next: RunModel {
                    queue: queue.drop_first(),
                    phase: RunPhase::Directory { depth: queue[0].1 },
                    ..self
                },
                report: None,
                action: ActionModel::OpenDirectory(queue[0].0),
            }
        }
    }

    /// The entry counts as a file of the run: its path is text and no pattern
    /// excludes it.
    pub open spec fn keeps(self, path: Option<Seq<char>>) -> bool {
        path matches Some(p) && !text::matches_any(p, self.excluded_patterns)
    }

    /// A path joins the batch. A directory joins the queue, one level deeper.
    /// Where the batch has reached its size it is handed over.
    pub open spec fn file_kept(self, path: Seq<char>, is_dir: bool, depth: usize) -> StepModel {
        let discovered = (self.discovered + 1) as usize;
        let batch = self.batch.push(path);
        let full = batch.len() >= self.chunk_size;
        StepModel {
            next: RunModel {
                batch,
                discovered,
                queue: if is_dir {
                    self.queue.push((path, (depth + 1) as usize))
                } else {
                    self.queue
                },
                phase: if full {
                    RunPhase::Batch { offset: 0, then: AfterBatch::Directory { depth } }
                } else {
                    self.phase
                },
                ..self
            },
            report: if reports_at(discovered as int) {
                Some(ReportModel { discovered, indexed: self.indexed, path })
            } else {
                None
            },
            action: if full {
                ActionModel::Continue { pause: false }
            } else {
                ActionModel::ReadEntry
            },
        }
    }

    /// An entry of the open directory.
    pub open spec fn entry(
        self,
        stop: bool,
        path: Option<Seq<char>>,
        is_dir: bool,
        depth: usize,
    ) -> StepModel {
        if stop {
            self.walk_ended()
        } else if self.keeps(path) {
            self.file_kept(path->0, is_dir, depth)
        } else {
            StepModel { next: self, report: None, action: ActionModel::ReadEntry }
        }
    }

    /// The open directory is done with.
    pub open spec fn directory_end(self, depth: usize) -> StepModel {
        StepModel {
            next: RunModel { phase: RunPhase::NextDirectory, ..self },
            report: None,
            action: ActionModel::Continue { pause: depth % PAUSE_INTERVAL == 0 },
        }
    }

    /// The next paths of the batch go into the index. At the end of the batch,
    /// and where the index is to stop, the batch is given up.
    pub open spec fn batch_step(self, stop: bool, offset: usize, then: AfterBatch) -> StepModel {
        if offset >= self.batch.len() || stop {
            match then {
                AfterBatch::Directory { depth } => StepModel {
                    next: RunModel {
                        batch: Seq::empty(),
                        phase: RunPhase::Directory { depth },
                        ..self
                    },
                    report: None,
                    action: ActionModel::ReadEntry,
                },
                AfterBatch::Finish => StepModel {
                    next: RunModel { batch: Seq::empty(), phase: RunPhase::Finished, ..self },
                    report: None,
                    action: ActionModel::Finished,
                },
            }
        } else {
            let end = if offset + SUB_BATCH_SIZE <= self.batch.len() {
                offset + SUB_BATCH_SIZE
            } else {
                self.batch.len() as int
            };
            StepModel {
                next: RunModel {
                    indexed: (self.indexed + (end - offset)) as usize,
                    phase: RunPhase::Batch { offset: end as usize, then },
                    ..self
                },
                report: None,
                action: ActionModel::AddPaths(self.batch.subrange(offset as int, end)),
            }
        }
    }

    /// What an event leads to.
    pub open spec fn step(self, event: EventModel) -> StepModel {
        match (event, self.phase) {
            (EventModel::Ready { stop }, RunPhase::NextDirectory) => self.next_directory(stop),
            (EventModel::Ready { stop }, RunPhase::Batch { offset, then }) => self.batch_step(
                stop,
                offset,
                then,
            ),
            (
                EventModel::Entry { stop, path, is_dir },
                RunPhase::Directory { depth },
            ) => self.entry(stop, path, is_dir, depth),
            (EventModel::DirectoryEnd, RunPhase::Directory { depth }) => self.directory_end(depth),
            _ => StepModel { next: self, report: None, action: ActionModel::Finished },
        }
    }
}

impl IndexingRun {
    /// A run over the tree at `root` that leaves out what the patterns exclude
    /// and hands paths over whenever `chunk_size` of them have come together.
    pub fn new(root: String, excluded_patterns: Vec<String>, chunk_size: usize) -> (run: Self)
        ensures
            run@ == RunModel::initial(root@, text::texts(excluded_patterns@), chunk_size),
            run@.wf(),
    {
        let ghost root_text = root@;
        let mut queue: VecDeque<(String, usize)> = VecDeque::new();
        queue.push_back((root, 0));
        let run = IndexingRun {
            queue,
            excluded_patterns,
            chunk_size,
            discovered_files: 0,
            indexed_files: 0,
            current_batch: Vec::new(),
            phase: RunPhase::NextDirectory,
        };
        assert(run@.queue =~= seq![(root_text, 0usize)]);
        assert(run@.batch =~= Seq::empty());
        run
    }

    /// How many files the run has discovered.
    pub fn discovered_files(&self) -> (count: usize)
        ensures
            count == self@.discovered,
    {
        self.discovered_files
    }

    /// How many files the run has put into the index.
    pub fn indexed_files(&self) -> (count: usize)
        ensures
            count == self@.indexed,
    {
        self.indexed_files
    }

    /// Where the run stands.
    pub fn phase(&self) -> (phase: RunPhase)
        ensures
            phase == self@.phase,
    {
        self.phase
    }

    /// Ends the walk.
    fn end_walk(&mut self) -> (step: RunStep)
        ensures
            final(self)@ == old(self)@.walk_ended().next,
            step.action@ == old(self)@.walk_ended().action,
            step.report is None,
    {
        self.queue = VecDeque::new();
        assert(queue_texts(self.queue@) =~= Seq::empty());
        if self.current_batch.len() == 0 {
            self.phase = RunPhase::Finished;
            RunStep { report: None, action: RunAction::Finished }
        } else {
            self.phase = RunPhase::Batch { offset: 0, then: AfterBatch::Finish };
            RunStep { report: None, action: RunAction::Continue { pause: false } }
        }
    }

    /// Takes the next directory that may be opened from the queue.
    fn pop_openable(&mut self) -> (item: Option<(String, usize)>)
        ensures
            ({
                let queue = from_openable(old(self)@.queue, old(self)@.discovered);
                match item {
                    Some(i) => {
                        &&& queue.len() > 0
                        &&& (i.0@, i.1) == queue[0]
                        &&& i.1 < MAX_DEPTH
                        &&& final(self)@ == RunModel { queue: queue.drop_first(), ..old(self)@ }
                    },
                    None => {
                        &&& queue.len() == 0
                        &&& final(self)@ == RunModel { queue: Seq::empty(), ..old(self)@ }
                    },
                }
            }),
    {
        loop
            invariant
                self@ == (RunModel { queue: self@.queue, ..old(self)@ }),
                from_openable(self@.queue, self@.discovered) == from_openable(
                    old(self)@.queue,
                    old(self)@.discovered,
                ),
            decreases self.queue@.len(),
        {
            let ghost before = self@.queue;
            match self.queue.pop_front() {
                None => {
                    assert(self@.queue =~= Seq::empty());
                    return None;
                },
                Some(item) => {
                    assert(self@.queue =~= before.drop_first());
                    if item.1 < MAX_DEPTH && self.discovered_files <= MAX_FILES {
                        return Some(item);
                    }
                },
            }
        }
    }

    /// Chooses the next directory.
    fn choose_directory(&mut self, stop: bool) -> (step: RunStep)
        requires
            old(self)@.phase is NextDirectory,
            old(self)@.wf(),
        ensures
            final(self)@ == old(self)@.next_directory(stop).next,
            step.action@ == old(self)@.next_directory(stop).action,
            step.report is None,
            final(self)@.wf(),
    {
        match self.pop_openable() {
            None => self.end_walk(),
            Some((directory, depth)) => {
                if stop {
                    self.end_walk()
                } else {
                    self.phase = RunPhase::Directory { depth };
                    RunStep { report: None, action: RunAction::OpenDirectory(directory) }
                }
            },
        }
    }

    /// Takes up an entry of the open directory.
    fn take_entry(&mut self, stop: bool, path: Option<String>, is_dir: bool, depth: usize) -> (step:
        RunStep)
        requires
            old(self)@.phase == (RunPhase::Directory { depth }),
            old(self)@.wf(),
            old(self)@.discovered < usize::MAX,
        ensures
            ({
                let expected = old(self)@.entry(stop, text::opt_text(path), is_dir, depth);
                &&& final(self)@ == expected.next
                &&& step.action@ == expected.action
                &&& opt_report(step.report) == expected.report
            }),
            final(self)@.wf(),
    {
        if stop {
            return self.end_walk();
        }
        if let Some(path) = path {
            if !text::should_exclude(path.as_str(), &self.excluded_patterns) {
                let ghost batch = self@.batch;
                let ghost queue = self@.queue;
                self.current_batch.push(path.clone());
                assert(self@.batch =~= batch.push(path@));
                self.discovered_files = self.discovered_files + 1;
                let discovered: usize = self.discovered_files;
                let report: Option<ProgressReport> = if discovered % REPORT_INTERVAL == 0
                    || discovered == 1 {
                    Some(
                        ProgressReport {
                            discovered,
                            indexed: self.indexed_files,
                            path: path.clone(),
                        },
                    )
                } else {
                    None
                };
                if is_dir {
                    self.queue.push_back((path, depth + 1));
                    assert(self@.queue =~= queue.push((path@, (depth + 1) as usize)));
                }
                if self.current_batch.len() >= self.chunk_size {
                    self.phase = RunPhase::Batch {
                        offset: 0,
                        then: AfterBatch::Directory { depth },
                    };
                    assert(self@.pending() =~= self@.batch);
                    return RunStep { report, action: RunAction::Continue { pause: false } };
                }
                return RunStep { report, action: RunAction::ReadEntry };
            }
        }
        RunStep { report: None, action: RunAction::ReadEntry }
    }

    /// Hands over the next paths of the batch.
    fn process_batch(&mut self, stop: bool, offset: usize, then: AfterBatch) -> (step: RunStep)
        requires
            old(self)@.phase == (RunPhase::Batch { offset, then }),
            old(self)@.wf(),
        ensures
            final(self)@ == old(self)@.batch_step(stop, offset, then).next,
            step.action@ == old(self)@.batch_step(stop, offset, then).action,
            step.report is None,
            final(self)@.wf(),
    {
        let len: usize = self.current_batch.len();
        if offset >= len || stop {
            self.current_batch.clear();
            assert(self@.batch =~= Seq::empty());
            match then {
                AfterBatch::Directory { depth } => {
                    self.phase = RunPhase::Directory { depth };
                    RunStep { report: None, action: RunAction::ReadEntry }
                },
                AfterBatch::Finish => {
                    self.phase = RunPhase::Finished;
                    RunStep { report: None, action: RunAction::Finished }
                },
            }
        } else {
            let end: usize = if len - offset >= SUB_BATCH_SIZE {
                offset + SUB_BATCH_SIZE
            } else {
                len
            };
            let mut chunk: Vec<String> = Vec::new();
            let mut i: usize = offset;
            while i < end
                invariant
                    offset <= i <= end <= self.current_batch.len(),
                    text::texts(chunk@) =~= text::texts(self.current_batch@).subrange(
                        offset as int,
                        i as int,
                    ),
                decreases end - i,
            {
                let ghost before = text::texts(chunk@);
                let ghost all = text::texts(self.current_batch@);
                chunk.push(self.current_batch[i].clone());
                assert(text::texts(chunk@) =~= before.push(all[i as int]));
                assert(all.subrange(offset as int, i + 1) =~= all.subrange(
                    offset as int,
                    i as int,
                ).push(all[i as int]));
                i += 1;
            }
            self.indexed_files = self.indexed_files + (end - offset);
            self.phase = RunPhase::Batch { offset: end, then };
            RunStep { report: None, action: RunAction::AddPaths(chunk) }
        }
    }

    /// Takes the run one event further.
    pub fn step(&mut self, event: RunEvent) -> (step: RunStep)
        requires
            old(self)@.wf(),
            old(self)@.accepts(event@),
        ensures
            final(self)@ == old(self)@.step(event@).next,
            step.action@ == old(self)@.step(event@).action,
            opt_report(step.report) == old(self)@.step(event@).report,
            final(self)@.wf(),
    {
        match (event, self.phase) {
            (RunEvent::Ready { stop }, RunPhase::NextDirectory) => self.choose_directory(stop),
            (RunEvent::Ready { stop }, RunPhase::Batch { offset, then }) => self.process_batch(
                stop,
                offset,
                then,
            ),
            (
                RunEvent::Entry { stop, path, is_dir },
                RunPhase::Directory { depth },
            ) => self.take_entry(stop, path, is_dir, depth),
            (RunEvent::DirectoryEnd, RunPhase::Directory { depth }) => {
                self.phase = RunPhase::NextDirectory;
                RunStep {
                    report: None,
                    action: RunAction::Continue { pause: depth % PAUSE_INTERVAL == 0 },
                }
            },
            _ => RunStep { report: None, action: RunAction::Finished },
        }
    }
}

} // verus!
