//! What holds of whole indexing runs.
use crate::run::{
    ActionModel, AfterBatch, EventModel, RunModel, RunPhase, MAX_DEPTH, MAX_FILES, SUB_BATCH_SIZE,
};
use crate::text;
use vstd::prelude::*;

verus! {

/// The run after the events.
pub open spec fn state_after(start: RunModel, events: Seq<EventModel>) -> RunModel
    decreases events.len(),
{
    if events.len() == 0 {
        start
    } else {
        state_after(start, events.drop_last()).step(events.last()).next
    }
}

/// Every event came when the run waited for it.
pub open spec fn in_order(start: RunModel, events: Seq<EventModel>) -> bool
    decreases events.len(),
{
    events.len() == 0 || {
        &&& in_order(start, events.drop_last())
        &&& state_after(start, events.drop_last()).accepts(events.last())
    }
}

/// The paths that an action hands to the index.
pub open spec fn handed_over(action: ActionModel) -> Seq<Seq<char>> {
    match action {
        ActionModel::AddPaths(paths) => paths,
        _ => Seq::empty(),
    }
}

/// The path that the event adds to the files of the run, where it adds one.
pub open spec fn newly_kept(run: RunModel, event: EventModel) -> Seq<Seq<char>> {
    match event {
        EventModel::Entry { stop, path, is_dir } if !stop && run.keeps(path) => seq![path->0],
        _ => Seq::empty(),
    }
}

/// All the paths that went into the index, in that order.
pub open spec fn all_added(start: RunModel, events: Seq<EventModel>) -> Seq<Seq<char>>
    decreases events.len(),
{
    if events.len() == 0 {
        Seq::empty()
    } else {
        all_added(start, events.drop_last()) + handed_over(
            state_after(start, events.drop_last()).step(events.last()).action,
        )
    }
}

/// All the paths that the walk found and no pattern excluded, in that order.
pub open spec fn all_kept(start: RunModel, events: Seq<EventModel>) -> Seq<Seq<char>>
    decreases events.len(),
{
    if events.len() == 0 {
        Seq::empty()
    } else {
        all_kept(start, events.drop_last()) + newly_kept(
            state_after(start, events.drop_last()),
            events.last(),
        )
    }
}

/// The event carries the request to stop.
pub open spec fn asks_to_stop(event: EventModel) -> bool {
    match event {
        EventModel::Ready { stop } => stop,
        EventModel::Entry { stop, path, is_dir } => stop,
        EventModel::DirectoryEnd => false,
    }
}

/// A run stays well-formed, whatever happens.
pub proof fn law_run_stays_well_formed(run: RunModel, event: EventModel)
    requires
        run.wf(),
        run.accepts(event),
    ensures
        run.step(event).next.wf(),
        run.step(event).next.excluded_patterns == run.excluded_patterns,
        run.step(event).next.chunk_size == run.chunk_size,
{
    match (event, run.phase) {
        (EventModel::Ready { stop }, RunPhase::NextDirectory) => {
            lemma_from_openable(run.queue, run.discovered);
        },
        _ => {},
    }
}

/// What is left of the queue begins with a directory that may be opened.
pub proof fn lemma_from_openable(queue: Seq<(Seq<char>, usize)>, discovered: usize)
    ensures
        ({
            let rest = crate::run::from_openable(queue, discovered);
            &&& rest.len() <= queue.len()
            &&& rest =~= queue.skip(queue.len() - rest.len())
            &&& rest.len() > 0 ==> rest[0].1 < MAX_DEPTH && discovered <= MAX_FILES
        }),
    decreases queue.len(),
{
    if queue.len() > 0 && !crate::run::may_open(queue[0].1, discovered) {
        lemma_from_openable(queue.drop_first(), discovered);
    }
}

/// No directory is opened deeper than the limit, nor once too many files are
/// discovered, nor when the index has been asked to stop.
pub proof fn law_limits_hold_where_directories_open(run: RunModel, event: EventModel)
    requires
        run.wf(),
        run.accepts(event),
        run.step(event).action is OpenDirectory,
    ensures
        run.step(event).next.phase matches RunPhase::Directory { depth } && depth < MAX_DEPTH,
        run.discovered <= MAX_FILES,
        !asks_to_stop(event),
{
    lemma_from_openable(run.queue, run.discovered);
}

/// A request to stop is heeded at once: no directory is opened and no path
/// goes into the index on an event that carries it.
pub proof fn law_stop_is_heeded(run: RunModel, event: EventModel)
    requires
        run.wf(),
        run.accepts(event),
        asks_to_stop(event),
    ensures
        !(run.step(event).action is OpenDirectory),
        !(run.step(event).action is AddPaths),
{
}

/// Paths go into the index in groups of at least one and at most the size of a
/// group.
pub proof fn law_groups_are_small(run: RunModel, event: EventModel)
    requires
        run.wf(),
        run.accepts(event),
        run.step(event).action is AddPaths,
    ensures
        0 < handed_over(run.step(event).action).len() <= SUB_BATCH_SIZE,
        run.step(event).next.indexed == run.indexed + handed_over(run.step(event).action).len(),
{
}

/// One event neither loses a path nor makes one up, unless it carries the
/// request to stop.
proof fn lemma_step_keeps_paths(run: RunModel, event: EventModel)
    requires
        run.wf(),
        run.accepts(event),
    ensures
        ({
            let step = run.step(event);
            &&& !asks_to_stop(event) ==> handed_over(step.action) + step.next.pending()
                == run.pending() + newly_kept(run, event)
            &&& step.next.indexed == run.indexed + handed_over(step.action).len()
            &&& step.next.discovered == run.discovered + newly_kept(run, event).len()
            &&& forall|path: Seq<char>|
                handed_over(step.action).contains(path) ==> run.pending().contains(path)
            &&& forall|path: Seq<char>|
                step.next.pending().contains(path) ==> run.pending().contains(path)
                    || newly_kept(run, event).contains(path)
        }),
{
    let step = run.step(event);
    let left = handed_over(step.action) + step.next.pending();
    let right = run.pending() + newly_kept(run, event);
    match (event, run.phase) {
        (EventModel::Ready { stop }, RunPhase::Batch { offset, then }) => {
            if !(offset >= run.batch.len() || stop) {
                assert(left =~= right);
                assert forall|path: Seq<char>| handed_over(step.action).contains(path) implies
                    run.pending().contains(path) by {
                    let i = choose|i: int|
                        0 <= i < handed_over(step.action).len() && handed_over(step.action)[i]
                            == path;
                    assert(run.pending()[i] == path);
                }
                assert forall|path: Seq<char>| step.next.pending().contains(path) implies
                    run.pending().contains(path) by {
                    let i = choose|i: int|
                        0 <= i < step.next.pending().len() && step.next.pending()[i] == path;
                    assert(run.pending()[i + handed_over(step.action).len()] == path);
                }
            } else if !stop {
                assert(left =~= right);
            }
        },
        (EventModel::Entry { stop, path, is_dir }, RunPhase::Directory { depth }) => {
            if !stop && run.keeps(path) {
                assert(step.next.pending() =~= run.batch.push(path->0));
                assert(left =~= right);
                assert forall|p: Seq<char>| step.next.pending().contains(p) implies
                    run.pending().contains(p) || newly_kept(run, event).contains(p) by {
                    let i = choose|i: int|
                        0 <= i < step.next.pending().len() && step.next.pending()[i] == p;
                    if i == run.batch.len() {
                        assert(newly_kept(run, event)[0] == p);
                    } else {
                        assert(run.pending()[i] == p);
                    }
                }
            } else {
                assert(step.next.pending() =~= run.pending());
                if !stop {
                    assert(left =~= right);
                }
            }
        },
        _ => {
            assert(step.next.pending() =~= run.pending());
            assert(left =~= right);
        },
    }
}

/// What every prefix of a run satisfies.
pub proof fn lemma_run_so_far(
    root: Seq<char>,
    patterns: Seq<Seq<char>>,
    chunk_size: usize,
    events: Seq<EventModel>,
)
    requires
        in_order(RunModel::initial(root, patterns, chunk_size), events),
    ensures
        ({
            let start = RunModel::initial(root, patterns, chunk_size);
            let run = state_after(start, events);
            let added = all_added(start, events);
            let kept = all_kept(start, events);
            &&& run.wf()
            &&& run.excluded_patterns == patterns
            &&& run.indexed == added.len()
            &&& run.discovered == kept.len()
            &&& forall|path: Seq<char>| added.contains(path) ==> kept.contains(path)
            &&& forall|path: Seq<char>| run.pending().contains(path) ==> kept.contains(path)
            &&& forall|path: Seq<char>|
                kept.contains(path) ==> !text::matches_any(path, patterns)
        }),
    decreases events.len(),
{
    let start = RunModel::initial(root, patterns, chunk_size);
    if events.len() > 0 {
        let before = events.drop_last();
        let event = events.last();
        lemma_run_so_far(root, patterns, chunk_size, before);
        let run = state_after(start, before);
        law_run_stays_well_formed(run, event);
        lemma_step_keeps_paths(run, event);
        let kept_before = all_kept(start, before);
        let kept = all_kept(start, events);
        let fresh = newly_kept(run, event);
        let handed = handed_over(run.step(event).action);
        let added = all_added(start, events);
        assert forall|path: Seq<char>| kept_before.contains(path) || fresh.contains(path) implies
            kept.contains(path) by {
            lemma_concat_contains(kept_before, fresh, path);
        }
        assert forall|path: Seq<char>| added.contains(path) implies kept.contains(path) by {
            lemma_concat_contains(all_added(start, before), handed, path);
        }
        assert forall|path: Seq<char>| kept.contains(path) implies !text::matches_any(
            path,
            patterns,
        ) by {
            lemma_concat_contains(kept_before, fresh, path);
        }
    }
}

/// A concatenation holds what its parts hold.
pub proof fn lemma_concat_contains<A>(a: Seq<A>, b: Seq<A>, x: A)
    ensures
        (a + b).contains(x) <==> a.contains(x) || b.contains(x),
{
    if a.contains(x) {
        let i = choose|i: int| 0 <= i < a.len() && a[i] == x;
        assert((a + b)[i] == x);
    }
    if b.contains(x) {
        let i = choose|i: int| 0 <= i < b.len() && b[i] == x;
        assert((a + b)[a.len() + i] == x);
    }
}

/// Whatever happens in a run, stops included: the counts are those of the
/// paths kept and of the paths that went into the index, no more went into it
/// than were kept, and nothing went into it that was not found by the walk or
/// that a pattern excludes.
pub proof fn law_index_holds_only_kept_paths(
    root: Seq<char>,
    patterns: Seq<Seq<char>>,
    chunk_size: usize,
    events: Seq<EventModel>,
)
    requires
        in_order(RunModel::initial(root, patterns, chunk_size), events),
    ensures
        ({
            let start = RunModel::initial(root, patterns, chunk_size);
            let run = state_after(start, events);
            let added = all_added(start, events);
            let kept = all_kept(start, events);
            &&& run.indexed == added.len()
            &&& run.discovered == kept.len()
            &&& added.len() <= kept.len()
            &&& forall|path: Seq<char>| #[trigger]
                added.contains(path) ==> kept.contains(path) && !text::matches_any(path, patterns)
        }),
{
    lemma_run_so_far(root, patterns, chunk_size, events);
}

/// In a run that is never asked to stop, the paths that went into the index,
/// followed by those still waiting, are the paths kept, each once and in the
/// order in which they were found. At the end of such a run all of them are in
/// the index.
pub proof fn law_no_path_is_lost(
    root: Seq<char>,
    patterns: Seq<Seq<char>>,
    chunk_size: usize,
    events: Seq<EventModel>,
)
    requires
        in_order(RunModel::initial(root, patterns, chunk_size), events),
        forall|i: int| 0 <= i < events.len() ==> !asks_to_stop(#[trigger] events[i]),
    ensures
        ({
            let start = RunModel::initial(root, patterns, chunk_size);
            let run = state_after(start, events);
            &&& all_added(start, events) + run.pending() == all_kept(start, events)
            &&& run.indexed + run.pending().len() == run.discovered
            &&& run.phase is Finished ==> {
                &&& all_added(start, events) == all_kept(start, events)
                &&& run.indexed == run.discovered
            }
        }),
    decreases events.len(),
{
    let start = RunModel::initial(root, patterns, chunk_size);
    lemma_run_so_far(root, patterns, chunk_size, events);
    if events.len() > 0 {
        let before = events.drop_last();
        let event = events.last();
        assert forall|i: int| 0 <= i < before.len() implies !asks_to_stop(#[trigger] before[i]) by {
            assert(before[i] == events[i]);
        }
        assert(!asks_to_stop(events[events.len() - 1]));
        law_no_path_is_lost(root, patterns, chunk_size, before);
        lemma_run_so_far(root, patterns, chunk_size, before);
        let run = state_after(start, before);
        lemma_step_keeps_paths(run, event);
        let step = run.step(event);
        let added = all_added(start, before);
        assert((added + handed_over(step.action)) + step.next.pending() =~= added + (handed_over(
            step.action,
        ) + step.next.pending()));
        assert((added + run.pending()) + newly_kept(run, event) =~= added + (run.pending()
            + newly_kept(run, event)));
    } else {
        assert(all_added(start, events) + start.pending() =~= all_kept(start, events));
    }
    let run = state_after(start, events);
    if run.phase is Finished {
        assert(all_added(start, events) + run.pending() =~= all_added(start, events));
    }
}

/// No more paths are waiting than a chunk holds, and while the walk goes on
/// there is room for another.
pub open spec fn within_chunk(run: RunModel) -> bool {
    let chunk = if run.chunk_size == 0 {
        1
    } else {
        run.chunk_size as int
    };
    match run.phase {
        RunPhase::NextDirectory => run.batch.len() < chunk,
        RunPhase::Directory { depth } => run.batch.len() < chunk,
        RunPhase::Batch { offset, then } => run.batch.len() <= chunk,
        RunPhase::Finished => run.batch.len() == 0,
    }
}

/// However large the tree, a run never holds more paths than a chunk; a chunk
/// holds at least one path.
pub proof fn law_batch_stays_within_chunk(
    root: Seq<char>,
    patterns: Seq<Seq<char>>,
    chunk_size: usize,
    events: Seq<EventModel>,
)
    requires
        in_order(RunModel::initial(root, patterns, chunk_size), events),
    ensures
        ({
            let run = state_after(RunModel::initial(root, patterns, chunk_size), events);
            run.chunk_size == chunk_size && within_chunk(run)
        }),
    decreases events.len(),
{
    if events.len() > 0 {
        law_batch_stays_within_chunk(root, patterns, chunk_size, events.drop_last());
    }
}

/// The directories waiting are those of one level and the next, the upper
/// level first, where `depth` is the level of the directory opened last.
pub open spec fn in_layers(run: RunModel, depth: usize) -> bool {
    &&& forall|i: int|
        0 <= i < run.queue.len() ==> depth <= (#[trigger] run.queue[i]).1 <= depth + 1
    &&& forall|i: int, j: int|
        0 <= i < j < run.queue.len() ==> (#[trigger] run.queue[i]).1 <= (#[trigger] run.queue[j]).1
    &&& match run.phase {
        RunPhase::Directory { depth: open } => open == depth,
        RunPhase::Batch { offset, then: AfterBatch::Directory { depth: open } } => open == depth,
        _ => true,
    }
}

/// The level of the directory opened last, after an event.
pub open spec fn level_after(run: RunModel, event: EventModel, depth: usize) -> usize {
    match (run.step(event).action, run.step(event).next.phase) {
        (ActionModel::OpenDirectory(_), RunPhase::Directory { depth: open }) => open,
        _ => depth,
    }
}

/// A run begins on the level of its root.
pub proof fn law_walk_begins_at_the_root(
    root: Seq<char>,
    patterns: Seq<Seq<char>>,
    chunk_size: usize,
)
    ensures
        RunModel::initial(root, patterns, chunk_size).wf(),
        in_layers(RunModel::initial(root, patterns, chunk_size), 0),
{
}

/// The walk goes level by level: the directories waiting stay those of the
/// present level and of the next, and no directory is opened after one that
/// lies deeper.
#[verifier::spinoff_prover]
#[verifier::rlimit(40)]
pub proof fn law_walk_goes_level_by_level(run: RunModel, event: EventModel, depth: usize)
    requires
        run.wf(),
        run.accepts(event),
        in_layers(run, depth),
    ensures
        in_layers(run.step(event).next, level_after(run, event, depth)),
        depth <= level_after(run, event, depth) <= depth + 1,
{
    let next = run.step(event).next;
    let level = level_after(run, event, depth);
    match (event, run.phase) {
        (EventModel::Ready { stop }, RunPhase::NextDirectory) => {
            lemma_from_openable(run.queue, run.discovered);
            let rest = crate::run::from_openable(run.queue, run.discovered);
            if rest.len() > 0 && !stop {
                let gone = run.queue.len() - rest.len();
                assert(forall|i: int| 0 <= i < rest.len() ==> rest[i] == run.queue[gone + i]);
                assert forall|i: int| 0 <= i < next.queue.len() implies level <= (
                #[trigger] next.queue[i]).1 <= level + 1 by {
                    assert(next.queue[i] == run.queue[gone + 1 + i]);
                    assert(rest[0] == run.queue[gone]);
                }
                assert forall|i: int, j: int| 0 <= i < j < next.queue.len() implies (
                #[trigger] next.queue[i]).1 <= (#[trigger] next.queue[j]).1 by {
                    assert(next.queue[i] == run.queue[gone + 1 + i]);
                    assert(next.queue[j] == run.queue[gone + 1 + j]);
                }
            }
        },
        _ => {},
    }
}

} // verus!
