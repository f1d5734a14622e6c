//! What each event does to an indexing run.
use crate::run;
use crate::run::{
    ActionModel, AfterBatch, EventModel, ProgressReport, ReportModel, RunAction, RunEvent, RunModel,
    RunPhase,
};
use crate::text;
use vstd::prelude::*;

verus! {

/// A run begins with its root alone to be opened, and with the patterns and
/// the chunk size it was given.
pub proof fn law_run_begins_with_its_root(
    root: Seq<char>,
    patterns: Seq<Seq<char>>,
    chunk_size: usize,
)
    ensures
        ({
            let run = RunModel::initial(root, patterns, chunk_size);
            &&& run.queue.len() == 1
            &&& run.queue[0].0 == root
            &&& run.queue[0].1 == 0
            &&& run.excluded_patterns == patterns
            &&& run.chunk_size == chunk_size
            &&& run.discovered == 0
            &&& run.indexed == 0
            &&& run.batch.len() == 0
            &&& run.phase == RunPhase::NextDirectory
        }),
{
}

/// A run waits for entries and their end while a directory is open, as long as
/// they can be counted, and otherwise for the caller to be ready, until it is
/// finished.
pub proof fn law_run_waits_for_what_it_asked(run: RunModel)
    ensures
        forall|stop: bool|
            #![trigger run.accepts(EventModel::Ready { stop })]
            run.accepts(EventModel::Ready { stop }) <==> match run.phase {
                RunPhase::NextDirectory => true,
                RunPhase::Batch { .. } => true,
                RunPhase::Directory { .. } => false,
                RunPhase::Finished => false,
            },
        forall|stop: bool, path: Option<Seq<char>>, is_dir: bool|
            #![trigger run.accepts(EventModel::Entry { stop, path, is_dir })]
            run.accepts(EventModel::Entry { stop, path, is_dir }) <==> run.phase is Directory
                && run.discovered < usize::MAX,
        run.accepts(EventModel::DirectoryEnd) <==> run.phase is Directory,
{
}

/// The configuration of the run and all that is not named stay.
pub open spec fn keeps_settings(before: RunModel, after: RunModel) -> bool {
    &&& after.excluded_patterns == before.excluded_patterns
    &&& after.chunk_size == before.chunk_size
}

/// An entry whose path is text and that no pattern excludes is counted and
/// waits, as the last, to go into the index. A directory waits, as the last,
/// to be opened one level deeper. The first entry counted and every tenth are
/// reported, with the counts at that time. Once as many wait as a chunk holds,
/// they are handed over before the directory is read on.
pub proof fn law_entry_is_kept(run: RunModel, path: Seq<char>, is_dir: bool, depth: usize)
    requires
        run.wf(),
        run.phase == (RunPhase::Directory { depth }),
        run.discovered < usize::MAX,
        forall|k: int, before: Seq<char>, after: Seq<char>|
            0 <= k < run.excluded_patterns.len() ==> path != #[trigger] (before
                + run.excluded_patterns[k] + after),
    ensures
        ({
            let step = run.step(EventModel::Entry { stop: false, path: Some(path), is_dir });
            let full = run.batch.len() + 1 >= run.chunk_size;
            let count = run.discovered + 1;
            &&& step.next.batch == run.batch.push(path)
            &&& step.next.discovered == count
            &&& step.next.indexed == run.indexed
            &&& step.next.queue.len() == run.queue.len() + if is_dir {
                1int
            } else {
                0
            }
            &&& step.next.queue.take(run.queue.len() as int) == run.queue
            &&& is_dir ==> step.next.queue.last().0 == path && step.next.queue.last().1 == depth + 1
            &&& keeps_settings(run, step.next)
            &&& full ==> step.next.phase == (RunPhase::Batch {
                offset: 0,
                then: AfterBatch::Directory { depth },
            })
            &&& full ==> step.action == (ActionModel::Continue { pause: false })
            &&& !full ==> step.next.phase == run.phase
            &&& !full ==> step.action == ActionModel::ReadEntry
            &&& step.report is Some <==> count == 1 || count % 10 == 0
            &&& step.report matches Some(report) ==> {
                &&& report.discovered == count
                &&& report.indexed == run.indexed
                &&& report.path == path
            }
        }),
{
    text::law_exclusion_is_by_containment(path, run.excluded_patterns);
    let step = run.step(EventModel::Entry { stop: false, path: Some(path), is_dir });
    assert(step.next.queue.take(run.queue.len() as int) =~= run.queue);
}

/// An entry that a pattern excludes, or whose path is not text, leaves no
/// trace.
pub proof fn law_other_entries_leave_no_trace(
    run: RunModel,
    path: Option<Seq<char>>,
    is_dir: bool,
    depth: usize,
)
    requires
        run.phase == (RunPhase::Directory { depth }),
        path matches Some(p) ==> exists|k: int, before: Seq<char>, after: Seq<char>|
            0 <= k < run.excluded_patterns.len() && p == #[trigger] (before
                + run.excluded_patterns[k] + after),
    ensures
        ({
            let step = run.step(EventModel::Entry { stop: false, path, is_dir });
            &&& step.next == run
            &&& step.report is None
            &&& step.action == ActionModel::ReadEntry
        }),
{
    if path is Some {
        text::law_exclusion_is_by_containment(path->0, run.excluded_patterns);
    }
}

/// The walk is over: no directory waits any more, and what is still to go into
/// the index is handed over before the run is finished.
pub open spec fn walk_ends(before: RunModel, after: RunModel, action: ActionModel) -> bool {
    &&& after.queue.len() == 0
    &&& after.batch == before.batch
    &&& after.discovered == before.discovered
    &&& after.indexed == before.indexed
    &&& keeps_settings(before, after)
    &&& before.batch.len() == 0 ==> after.phase == RunPhase::Finished && action
        == ActionModel::Finished
    &&& before.batch.len() > 0 ==> after.phase == (RunPhase::Batch {
        offset: 0,
        then: AfterBatch::Finish,
    }) && action == (ActionModel::Continue { pause: false })
}

/// A request to stop ends the walk, whether it comes with an entry, which is
/// then not counted, or before the next directory.
pub proof fn law_stop_ends_the_walk(run: RunModel, path: Option<Seq<char>>, is_dir: bool)
    ensures
        run.phase is Directory ==> {
            let step = run.step(EventModel::Entry { stop: true, path, is_dir });
            walk_ends(run, step.next, step.action) && step.report is None
        },
        run.phase is NextDirectory ==> {
            let step = run.step(EventModel::Ready { stop: true });
            walk_ends(run, step.next, step.action) && step.report is None
        },
{
}

/// The next directory is the first one waiting that lies less than
/// twenty-five levels below the root; those before it are too deep and are
/// passed over.
pub proof fn law_next_directory_is_the_first_not_too_deep(run: RunModel, k: int)
    requires
        run.phase is NextDirectory,
        run.discovered <= 500000,
        0 <= k < run.queue.len(),
        run.queue[k].1 < 25,
        forall|i: int| 0 <= i < k ==> (#[trigger] run.queue[i]).1 >= 25,
    ensures
        ({
            let step = run.step(EventModel::Ready { stop: false });
            &&& step.action == ActionModel::OpenDirectory(run.queue[k].0)
            &&& step.next.phase == (RunPhase::Directory { depth: run.queue[k].1 })
            &&& step.next.queue == run.queue.skip(k + 1)
            &&& step.next.batch == run.batch
            &&& step.next.discovered == run.discovered
            &&& step.next.indexed == run.indexed
            &&& keeps_settings(run, step.next)
            &&& step.report is None
        }),
{
    lemma_first_openable(run.queue, run.discovered, k);
    assert(run.queue.skip(k).drop_first() =~= run.queue.skip(k + 1));
}

proof fn lemma_first_openable(queue: Seq<(Seq<char>, usize)>, discovered: usize, k: int)
    requires
        discovered <= 500000,
        0 <= k <= queue.len(),
        k < queue.len() ==> queue[k].1 < 25,
        forall|i: int| 0 <= i < k ==> (#[trigger] queue[i]).1 >= 25,
    ensures
        run::from_openable(queue, discovered) == queue.skip(k),
    decreases k,
{
    if k > 0 {
        let rest = queue.drop_first();
        assert forall|i: int| 0 <= i < k - 1 implies (#[trigger] rest[i]).1 >= 25 by {
            assert(rest[i] == queue[i + 1]);
        }
        assert(queue[0].1 >= 25);
        lemma_first_openable(rest, discovered, k - 1);
        assert(rest.skip(k - 1) =~= queue.skip(k));
    } else {
        assert(queue.skip(0) =~= queue);
    }
}

/// The walk ends where every directory waiting is too deep, and where more
/// than half a million files are discovered.
pub proof fn law_walk_ends_where_nothing_may_be_opened(run: RunModel)
    requires
        run.phase is NextDirectory,
        run.discovered > 500000 || forall|i: int|
            0 <= i < run.queue.len() ==> (#[trigger] run.queue[i]).1 >= 25,
    ensures
        ({
            let step = run.step(EventModel::Ready { stop: false });
            walk_ends(run, step.next, step.action) && step.report is None
        }),
{
    if run.discovered > 500000 {
        lemma_nothing_openable(run.queue, run.discovered);
    } else {
        lemma_first_openable(run.queue, run.discovered, run.queue.len() as int);
    }
}

proof fn lemma_nothing_openable(queue: Seq<(Seq<char>, usize)>, discovered: usize)
    requires
        discovered > 500000,
    ensures
        run::from_openable(queue, discovered).len() == 0,
    decreases queue.len(),
{
    if queue.len() > 0 {
        lemma_nothing_openable(queue.drop_first(), discovered);
    }
}

/// After a directory the next one is chosen. The walk pauses first where the
/// directory lay at the root or at every tenth level below it. Nothing else
/// changes.
pub proof fn law_directory_end_leads_to_the_next(run: RunModel, depth: usize)
    requires
        run.phase == (RunPhase::Directory { depth }),
    ensures
        ({
            let step = run.step(EventModel::DirectoryEnd);
            &&& step.next.phase == RunPhase::NextDirectory
            &&& step.next.queue == run.queue
            &&& step.next.batch == run.batch
            &&& step.next.discovered == run.discovered
            &&& step.next.indexed == run.indexed
            &&& keeps_settings(run, step.next)
            &&& step.action == (ActionModel::Continue { pause: depth % 10 == 0 })
            &&& step.report is None
        }),
{
}

/// A batch is handed over from first to last, twenty-five paths at a time and
/// the rest in the end, each counted when it goes into the index.
pub proof fn law_batch_is_handed_over_in_order(run: RunModel, offset: usize, then: AfterBatch)
    requires
        run.wf(),
        run.phase == (RunPhase::Batch { offset, then }),
        offset < run.batch.len(),
    ensures
        ({
            let step = run.step(EventModel::Ready { stop: false });
            let left = run.batch.len() - offset;
            let size = if left < 25 {
                left
            } else {
                25
            };
            &&& step.action matches ActionModel::AddPaths(paths) && {
                &&& paths.len() == size
                &&& forall|i: int| 0 <= i < size ==> #[trigger] paths[i] == run.batch[offset + i]
            }
            &&& step.next.indexed == run.indexed + size
            &&& step.next.phase matches RunPhase::Batch { offset: reached, then: follows }
                && reached == offset + size && follows == then
            &&& step.next.queue == run.queue
            &&& step.next.batch == run.batch
            &&& step.next.discovered == run.discovered
            &&& keeps_settings(run, step.next)
            &&& step.report is None
        }),
{
}

/// A batch that is through, or that a request to stop cuts short, is put away;
/// the open directory is read on, or the run is finished.
pub proof fn law_batch_is_put_away(run: RunModel, stop: bool, offset: usize, then: AfterBatch)
    requires
        run.phase == (RunPhase::Batch { offset, then }),
        stop || offset >= run.batch.len(),
    ensures
        ({
            let step = run.step(EventModel::Ready { stop });
            &&& step.next.batch.len() == 0
            &&& step.next.queue == run.queue
            &&& step.next.discovered == run.discovered
            &&& step.next.indexed == run.indexed
            &&& keeps_settings(run, step.next)
            &&& step.report is None
            &&& match then {
                AfterBatch::Directory { depth } => step.next.phase == (RunPhase::Directory {
                    depth,
                }) && step.action == ActionModel::ReadEntry,
                AfterBatch::Finish => step.next.phase == RunPhase::Finished && step.action
                    == ActionModel::Finished,
            }
        }),
{
}

/// What the caller tells a run and what the run answers stands in the
/// specifications as it is.
pub proof fn law_events_and_answers_are_taken_as_they_are(
    event: RunEvent,
    action: RunAction,
    report: ProgressReport,
)
    ensures
        match event {
            RunEvent::Ready { stop } => event@ == (EventModel::Ready { stop }),
            RunEvent::Entry { stop, path: Some(path), is_dir } => event@ == (EventModel::Entry {
                stop,
                path: Some(path@),
                is_dir,
            }),
            RunEvent::Entry { stop, path: None, is_dir } => event@ == (EventModel::Entry {
                stop,
                path: None,
                is_dir,
            }),
            RunEvent::DirectoryEnd => event@ == EventModel::DirectoryEnd,
        },
        match action {
            RunAction::OpenDirectory(path) => action@ == ActionModel::OpenDirectory(path@),
            RunAction::ReadEntry => action@ == ActionModel::ReadEntry,
            RunAction::AddPaths(paths) => action@ matches ActionModel::AddPaths(list) && {
                &&& list.len() == paths@.len()
                &&& forall|i: int| 0 <= i < list.len() ==> #[trigger] list[i] == paths@[i]@
            },
            RunAction::Continue { pause } => action@ == (ActionModel::Continue { pause }),
            RunAction::Finished => action@ == ActionModel::Finished,
        },
        report@ == (ReportModel {
            discovered: report.discovered,
            indexed: report.indexed,
            path: report.path@,
        }),
        run::opt_report(Some(report)) == Some(report@),
        run::opt_report(None) is None,
{
}

} // verus!
