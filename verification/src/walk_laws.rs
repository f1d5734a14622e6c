//! What holds of the walk of an indexing run: which directories it asks for,
//! which paths of a tree it puts into the index, and that the size of the
//! chunks has no part in what it finds.
use crate::run;
use crate::run::{ActionModel, AfterBatch, EventModel, RunModel, RunPhase, MAX_DEPTH, MAX_FILES};
use crate::run_laws;
use crate::text;
use vstd::prelude::*;

verus! {

/// The directories of a list that are not too deep to be opened.
pub open spec fn shallow(list: Seq<(Seq<char>, usize)>) -> Seq<(Seq<char>, usize)> {
    list.filter(|directory: (Seq<char>, usize)| directory.1 < MAX_DEPTH)
}

/// The directory that the event makes the run open, with its depth.
pub open spec fn newly_opened(run: RunModel, event: EventModel) -> Seq<(Seq<char>, usize)> {
    match (run.step(event).action, run.step(event).next.phase) {
        (ActionModel::OpenDirectory(path), RunPhase::Directory { depth }) => seq![(path, depth)],
        _ => Seq::empty(),
    }
}

/// The directory that the event makes known to the run, with its depth: one
/// level below the open one, unless a pattern excludes it.
pub open spec fn newly_known(run: RunModel, event: EventModel) -> Seq<(Seq<char>, usize)> {
    match (event, run.phase) {
        (
            EventModel::Entry { stop, path, is_dir },
            RunPhase::Directory { depth },
        ) if !stop && is_dir && run.keeps(path) => seq![(path->0, (depth + 1) as usize)],
        _ => Seq::empty(),
    }
}

/// All the directories that were opened, in that order.
pub open spec fn all_opened(start: RunModel, events: Seq<EventModel>) -> Seq<(Seq<char>, usize)>
    decreases events.len(),
{
    if events.len() == 0 {
        Seq::empty()
    } else {
        all_opened(start, events.drop_last()) + newly_opened(
            run_laws::state_after(start, events.drop_last()),
            events.last(),
        )
    }
}

/// All the directories known to a run, in the order in which they became so:
/// those it began with and those the walk found and no pattern excluded.
pub open spec fn all_known(start: RunModel, events: Seq<EventModel>) -> Seq<(Seq<char>, usize)>
    decreases events.len(),
{
    if events.len() == 0 {
        start.queue
    } else {
        all_known(start, events.drop_last()) + newly_known(
            run_laws::state_after(start, events.drop_last()),
            events.last(),
        )
    }
}

proof fn lemma_shallow_concat(a: Seq<(Seq<char>, usize)>, b: Seq<(Seq<char>, usize)>)
    ensures
        shallow(a + b) == shallow(a) + shallow(b),
{
    Seq::filter_distributes_over_add(
        a,
        b,
        |directory: (Seq<char>, usize)| directory.1 < MAX_DEPTH,
    );
}

proof fn lemma_shallow_one(directory: (Seq<char>, usize))
    ensures
        shallow(seq![directory]) == if directory.1 < MAX_DEPTH {
            seq![directory]
        } else {
            Seq::empty()
        },
{
    reveal(Seq::filter);
    let list = seq![directory];
    assert(list.drop_last() =~= Seq::empty());
    assert(shallow(list.drop_last()) =~= Seq::empty());
}

proof fn lemma_shallow_none()
    ensures
        shallow(Seq::empty()) == Seq::<(Seq<char>, usize)>::empty(),
{
    reveal(Seq::filter);
}

/// Only directories that are too deep are passed over.
proof fn lemma_from_openable_keeps_shallow(queue: Seq<(Seq<char>, usize)>, discovered: usize)
    requires
        discovered <= MAX_FILES,
    ensures
        shallow(run::from_openable(queue, discovered)) == shallow(queue),
    decreases queue.len(),
{
    if queue.len() > 0 && !run::may_open(queue[0].1, discovered) {
        lemma_from_openable_keeps_shallow(queue.drop_first(), discovered);
        assert(queue =~= seq![queue[0]] + queue.drop_first());
        lemma_shallow_concat(seq![queue[0]], queue.drop_first());
        lemma_shallow_one(queue[0]);
        assert(shallow(queue) =~= shallow(queue.drop_first()));
    }
}

/// One event neither forgets a directory nor makes one up.
proof fn lemma_step_keeps_directories(run: RunModel, event: EventModel)
    requires
        run.wf(),
        run.accepts(event),
        !run_laws::asks_to_stop(event),
        run.discovered <= MAX_FILES,
    ensures
        newly_opened(run, event) + shallow(run.step(event).next.queue) == shallow(run.queue)
            + shallow(newly_known(run, event)),
{
    lemma_shallow_none();
    let next = run.step(event).next;
    let left = newly_opened(run, event) + shallow(next.queue);
    let right = shallow(run.queue) + shallow(newly_known(run, event));
    match (event, run.phase) {
        (EventModel::Ready { stop }, RunPhase::NextDirectory) => {
            let rest = run::from_openable(run.queue, run.discovered);
            lemma_from_openable_keeps_shallow(run.queue, run.discovered);
            if rest.len() > 0 {
                run_laws::lemma_from_openable(run.queue, run.discovered);
                assert(rest =~= seq![rest[0]] + rest.drop_first());
                lemma_shallow_concat(seq![rest[0]], rest.drop_first());
                lemma_shallow_one(rest[0]);
            } else {
                assert(rest =~= Seq::empty());
            }
            assert(left =~= right);
        },
        (EventModel::Entry { stop, path, is_dir }, RunPhase::Directory { depth }) => {
            if is_dir && run.keeps(path) {
                assert(next.queue =~= run.queue + newly_known(run, event));
                lemma_shallow_concat(run.queue, newly_known(run, event));
            }
            assert(left =~= right);
        },
        _ => {
            assert(left =~= right);
        },
    }
}

/// The walk covers the tree: in a run that is never asked to stop and has
/// discovered no more files than the limit, the directories opened, followed
/// by those waiting that are not too deep, are the root and the directories
/// kept that are not too deep, each once and in the order in which they were
/// found. At the end of such a run all of them have been opened.
pub proof fn law_walk_covers_the_tree(
    root: Seq<char>,
    patterns: Seq<Seq<char>>,
    chunk_size: usize,
    events: Seq<EventModel>,
)
    requires
        run_laws::in_order(RunModel::initial(root, patterns, chunk_size), events),
        forall|i: int| 0 <= i < events.len() ==> !run_laws::asks_to_stop(#[trigger] events[i]),
        run_laws::state_after(RunModel::initial(root, patterns, chunk_size), events).discovered
            <= MAX_FILES,
    ensures
        ({
            let start = RunModel::initial(root, patterns, chunk_size);
            let run = run_laws::state_after(start, events);
            &&& start.queue == seq![(root, 0usize)]
            &&& all_opened(start, events) + shallow(run.queue) == shallow(all_known(start, events))
            &&& run.phase is Finished ==> {
                &&& run.queue.len() == 0
                &&& all_opened(start, events) == shallow(all_known(start, events))
            }
        }),
    decreases events.len(),
{
    let start = RunModel::initial(root, patterns, chunk_size);
    if events.len() > 0 {
        let before = events.drop_last();
        let event = events.last();
        assert forall|i: int| 0 <= i < before.len() implies !run_laws::asks_to_stop(
            #[trigger] before[i],
        ) by {
            assert(before[i] == events[i]);
        }
        assert(!run_laws::asks_to_stop(events[events.len() - 1]));
        run_laws::lemma_run_so_far(root, patterns, chunk_size, before);
        law_walk_covers_the_tree(root, patterns, chunk_size, before);
        let run = run_laws::state_after(start, before);
        lemma_step_keeps_directories(run, event);
        lemma_shallow_concat(all_known(start, before), newly_known(run, event));
        let opened = all_opened(start, before);
        let fresh = newly_opened(run, event);
        let next = run.step(event).next;
        assert((opened + fresh) + shallow(next.queue) =~= opened + (fresh + shallow(next.queue)));
        assert((opened + shallow(run.queue)) + shallow(newly_known(run, event)) =~= opened + (
        shallow(run.queue) + shallow(newly_known(run, event))));
    } else {
        assert(all_opened(start, events) + shallow(start.queue) =~= shallow(start.queue));
    }
    let run = run_laws::state_after(start, events);
    if run.phase is Finished {
        lemma_ended_walk_has_no_queue(root, patterns, chunk_size, events);
        assert(run.queue =~= Seq::empty());
        lemma_shallow_none();
        assert(all_opened(start, events) + shallow(run.queue) =~= all_opened(start, events));
    }
}

/// Once the walk is over no directory waits.
proof fn lemma_ended_walk_has_no_queue(
    root: Seq<char>,
    patterns: Seq<Seq<char>>,
    chunk_size: usize,
    events: Seq<EventModel>,
)
    requires
        run_laws::in_order(RunModel::initial(root, patterns, chunk_size), events),
    ensures
        ({
            let run = run_laws::state_after(
                RunModel::initial(root, patterns, chunk_size),
                events,
            );
            walk_is_over(run.phase) ==> run.queue.len() == 0
        }),
    decreases events.len(),
{
    if events.len() > 0 {
        lemma_ended_walk_has_no_queue(root, patterns, chunk_size, events.drop_last());
    }
}

/// Nothing is left to be read.
pub open spec fn walk_is_over(phase: RunPhase) -> bool {
    phase is Finished || (phase matches RunPhase::Batch { offset, then } && then is Finish)
}

/// What a directory tree holds: for the path of a directory its entries in the
/// order in which they are listed, each with its path, where that is text, and
/// whether it is a directory.
pub type Tree = spec_fn(Seq<char>) -> Seq<(Option<Seq<char>>, bool)>;

/// The directory that was opened last and how many of its entries were read.
pub open spec fn position(start: RunModel, events: Seq<EventModel>) -> (Seq<char>, int)
    decreases events.len(),
{
    if events.len() == 0 {
        (Seq::empty(), 0)
    } else {
        let before = position(start, events.drop_last());
        match (
            events.last(),
            run_laws::state_after(start, events.drop_last()).step(events.last()).action,
        ) {
            (EventModel::Ready { stop }, ActionModel::OpenDirectory(path)) => (path, 0),
            (EventModel::Entry { stop, path, is_dir }, _) => (before.0, before.1 + 1),
            _ => before,
        }
    }
}

/// The events of the run list the tree: each directory that is opened is read
/// entry by entry from first to last.
pub open spec fn lists(tree: Tree, start: RunModel, events: Seq<EventModel>) -> bool
    decreases events.len(),
{
    events.len() == 0 || {
        let (directory, read) = position(start, events.drop_last());
        &&& lists(tree, start, events.drop_last())
        &&& match events.last() {
            EventModel::Ready { stop } => true,
            EventModel::Entry { stop, path, is_dir } => read < tree(directory).len() && tree(
                directory,
            )[read] == (path, is_dir),
            EventModel::DirectoryEnd => read == tree(directory).len(),
        }
    }
}

/// The events carry the run over the whole tree: they come in order, list the
/// tree, never ask to stop, and the run is finished after them.
pub open spec fn undisturbed(tree: Tree, start: RunModel, events: Seq<EventModel>) -> bool {
    &&& run_laws::in_order(start, events)
    &&& lists(tree, start, events)
    &&& forall|i: int| 0 <= i < events.len() ==> !run_laws::asks_to_stop(#[trigger] events[i])
    &&& run_laws::state_after(start, events).phase is Finished
}

/// Where a walk stands.
pub enum WalkPhase {
    NextDirectory,
    Directory { path: Seq<char>, depth: usize, read: int },
    Over,
}

/// A walk over a tree without regard to batches.
pub struct Walk {
    pub queue: Seq<(Seq<char>, usize)>,
    pub discovered: usize,
    pub kept: Seq<Seq<char>>,
    /// The directories that have ever waited, with their depths.
    pub known: Set<(Seq<char>, usize)>,
    pub phase: WalkPhase,
}

impl Walk {
    /// The walk one step further: a directory is chosen, an entry is read or a
    /// directory is left.
    pub open spec fn advance(self, tree: Tree, patterns: Seq<Seq<char>>) -> Walk {
        match self.phase {
            WalkPhase::NextDirectory => {
                let queue = run::from_openable(self.queue, self.discovered);
                if queue.len() == 0 {
                    Walk { queue: Seq::empty(), phase: WalkPhase::Over, ..self }
                } else {
                    Walk {
                        queue: queue.drop_first(),
                        phase: WalkPhase::Directory { path: queue[0].0, depth: queue[0].1, read: 0 },
                        ..self
                    }
                }
            },
            WalkPhase::Directory { path, depth, read } => if read < tree(path).len() {
                let (entry, is_dir) = tree(path)[read];
                let next = Walk {
                    phase: WalkPhase::Directory { path, depth, read: read + 1 },
                    ..self
                };
                if entry is Some && !text::matches_any(entry->0, patterns) {
                    Walk {
                        kept: self.kept + seq![entry->0],
                        discovered: (self.discovered + 1) as usize,
                        queue: if is_dir {
                            self.queue.push((entry->0, (depth + 1) as usize))
                        } else {
                            self.queue
                        },
                        known: if is_dir {
                            self.known.insert((entry->0, (depth + 1) as usize))
                        } else {
                            self.known
                        },
                        ..next
                    }
                } else {
                    next
                }
            } else {
                Walk { phase: WalkPhase::NextDirectory, ..self }
            },
            WalkPhase::Over => self,
        }
    }
}

/// The walk from `root` after so many steps.
pub open spec fn walk_after(
    tree: Tree,
    root: Seq<char>,
    patterns: Seq<Seq<char>>,
    steps: nat,
) -> Walk
    decreases steps,
{
    if steps == 0 {
        Walk {
            queue: seq![(root, 0usize)],
            discovered: 0,
            kept: Seq::empty(),
            known: Set::empty().insert((root, 0usize)),
            phase: WalkPhase::NextDirectory,
        }
    } else {
        walk_after(tree, root, patterns, (steps - 1) as nat).advance(tree, patterns)
    }
}

/// How many of the events took the walk further, leaving out those that handed
/// over a batch.
pub open spec fn walk_steps(start: RunModel, events: Seq<EventModel>) -> nat
    decreases events.len(),
{
    if events.len() == 0 {
        0
    } else {
        walk_steps(start, events.drop_last()) + if run_laws::state_after(
            start,
            events.drop_last(),
        ).phase is Batch {
            0nat
        } else {
            1nat
        }
    }
}

/// The run stands where the walk stands.
pub open spec fn stands_at(
    run: RunModel,
    kept: Seq<Seq<char>>,
    position: (Seq<char>, int),
    walk: Walk,
) -> bool {
    &&& run.queue == walk.queue
    &&& run.discovered == walk.discovered
    &&& kept == walk.kept
    &&& match run.phase {
        RunPhase::NextDirectory => walk.phase is NextDirectory,
        RunPhase::Directory { depth } => walk.phase == WalkPhase::Directory {
            path: position.0,
            depth,
            read: position.1,
        },
        RunPhase::Batch { offset, then } => match then {
            AfterBatch::Directory { depth } => walk.phase == WalkPhase::Directory {
                path: position.0,
                depth,
                read: position.1,
            },
            AfterBatch::Finish => walk.phase is Over,
        },
        RunPhase::Finished => walk.phase is Over,
    }
}

/// Whatever the size of the chunks, a run that lists a tree and is never asked
/// to stop stands where the walk over the tree stands.
proof fn lemma_run_follows_walk(
    tree: Tree,
    root: Seq<char>,
    patterns: Seq<Seq<char>>,
    chunk_size: usize,
    events: Seq<EventModel>,
)
    requires
        run_laws::in_order(RunModel::initial(root, patterns, chunk_size), events),
        lists(tree, RunModel::initial(root, patterns, chunk_size), events),
        forall|i: int| 0 <= i < events.len() ==> !run_laws::asks_to_stop(#[trigger] events[i]),
    ensures
        ({
            let start = RunModel::initial(root, patterns, chunk_size);
            stands_at(
                run_laws::state_after(start, events),
                run_laws::all_kept(start, events),
                position(start, events),
                walk_after(tree, root, patterns, walk_steps(start, events)),
            )
        }),
    decreases events.len(),
{
    let start = RunModel::initial(root, patterns, chunk_size);
    if events.len() > 0 {
        let before = events.drop_last();
        let event = events.last();
        assert forall|i: int| 0 <= i < before.len() implies !run_laws::asks_to_stop(
            #[trigger] before[i],
        ) by {
            assert(before[i] == events[i]);
        }
        assert(!run_laws::asks_to_stop(events[events.len() - 1]));
        lemma_run_follows_walk(tree, root, patterns, chunk_size, before);
        run_laws::lemma_run_so_far(root, patterns, chunk_size, before);
        let run = run_laws::state_after(start, before);
        let walk = walk_after(tree, root, patterns, walk_steps(start, before));
        let kept = run_laws::all_kept(start, before);
        let fresh = run_laws::newly_kept(run, event);
        assert(fresh.len() == 0 ==> kept + fresh =~= kept);
        if !(run.phase is Batch) {
            assert(walk_after(tree, root, patterns, walk_steps(start, events)) == walk.advance(
                tree,
                patterns,
            ));
        }
    }
}

/// Once a walk is over it stays as it is.
proof fn lemma_walk_stays_over(
    tree: Tree,
    root: Seq<char>,
    patterns: Seq<Seq<char>>,
    steps: nat,
    later: nat,
)
    requires
        walk_after(tree, root, patterns, steps).phase is Over,
        steps <= later,
    ensures
        walk_after(tree, root, patterns, later) == walk_after(tree, root, patterns, steps),
    decreases later,
{
    if steps < later {
        lemma_walk_stays_over(tree, root, patterns, steps, (later - 1) as nat);
    }
}

/// The size of the chunks decides only how the paths are grouped: two runs
/// over the same tree, listed in the same order, that are never asked to stop
/// and run to their end put the same paths into the index in the same order
/// and end with the same counts.
pub proof fn law_chunk_size_changes_no_result(
    tree: Tree,
    root: Seq<char>,
    patterns: Seq<Seq<char>>,
    chunk_size1: usize,
    events1: Seq<EventModel>,
    chunk_size2: usize,
    events2: Seq<EventModel>,
)
    requires
        undisturbed(tree, RunModel::initial(root, patterns, chunk_size1), events1),
        undisturbed(tree, RunModel::initial(root, patterns, chunk_size2), events2),
    ensures
        ({
            let start1 = RunModel::initial(root, patterns, chunk_size1);
            let start2 = RunModel::initial(root, patterns, chunk_size2);
            let run1 = run_laws::state_after(start1, events1);
            let run2 = run_laws::state_after(start2, events2);
            &&& run_laws::all_added(start1, events1) == run_laws::all_added(start2, events2)
            &&& run1.discovered == run2.discovered
            &&& run1.indexed == run2.indexed
            &&& run1.indexed == run1.discovered
        }),
{
    let start1 = RunModel::initial(root, patterns, chunk_size1);
    let start2 = RunModel::initial(root, patterns, chunk_size2);
    lemma_run_follows_walk(tree, root, patterns, chunk_size1, events1);
    lemma_run_follows_walk(tree, root, patterns, chunk_size2, events2);
    run_laws::law_no_path_is_lost(root, patterns, chunk_size1, events1);
    run_laws::law_no_path_is_lost(root, patterns, chunk_size2, events2);
    let steps1 = walk_steps(start1, events1);
    let steps2 = walk_steps(start2, events2);
    if steps1 <= steps2 {
        lemma_walk_stays_over(tree, root, patterns, steps1, steps2);
    } else {
        lemma_walk_stays_over(tree, root, patterns, steps2, steps1);
    }
}

/// The directory has an entry with this path.
pub open spec fn has_entry(tree: Tree, directory: Seq<char>, path: Seq<char>) -> bool {
    exists|i: int| 0 <= i < tree(directory).len() && (#[trigger] tree(directory)[i]).0 == Some(path)
}

/// The directory has an entry with this path that is a directory.
pub open spec fn has_directory(tree: Tree, directory: Seq<char>, path: Seq<char>) -> bool {
    exists|i: int|
        0 <= i < tree(directory).len() && #[trigger] tree(directory)[i] == (Some(path), true)
}

/// The directory lies so many levels below the root: it is the root, or it is
/// listed one level further up and no pattern excludes it.
pub open spec fn lies_at(
    tree: Tree,
    root: Seq<char>,
    patterns: Seq<Seq<char>>,
    directory: Seq<char>,
    level: nat,
) -> bool
    decreases level,
{
    if level == 0 {
        directory == root
    } else {
        !text::matches_any(directory, patterns) && exists|parent: Seq<char>|
            {
                &&& lies_at(tree, root, patterns, parent, (level - 1) as nat)
                &&& #[trigger] has_directory(tree, parent, directory)
            }
    }
}

/// The path is one of those to be indexed: a directory that is not too deep
/// below the root lists it, and no pattern excludes it.
pub open spec fn belongs(
    tree: Tree,
    root: Seq<char>,
    patterns: Seq<Seq<char>>,
    path: Seq<char>,
) -> bool {
    &&& !text::matches_any(path, patterns)
    &&& exists|directory: Seq<char>, level: nat|
        {
            &&& level < MAX_DEPTH
            &&& #[trigger] lies_at(tree, root, patterns, directory, level)
            &&& has_entry(tree, directory, path)
        }
}

/// What the walk owes for an entry of a directory at `depth` is done: unless
/// it is left out, its path is kept and, where it is a directory, known.
spec fn is_taken(
    walk: Walk,
    patterns: Seq<Seq<char>>,
    depth: usize,
    entry: (Option<Seq<char>>, bool),
) -> bool {
    match entry.0 {
        Some(path) => text::matches_any(path, patterns) || {
            &&& walk.kept.contains(path)
            &&& entry.1 ==> walk.known.contains((path, (depth + 1) as usize))
        },
        None => true,
    }
}

/// The first entries of the directory are taken.
spec fn is_read(
    walk: Walk,
    tree: Tree,
    patterns: Seq<Seq<char>>,
    directory: (Seq<char>, usize),
    count: int,
) -> bool {
    forall|i: int|
        0 <= i < count ==> is_taken(walk, patterns, directory.1, #[trigger] tree(directory.0)[i])
}

/// The walk goes only where it should: the directories known lie where their
/// depths say, those waiting and the one open are known, and the paths kept
/// belong.
spec fn is_sound(walk: Walk, tree: Tree, root: Seq<char>, patterns: Seq<Seq<char>>) -> bool {
    &&& forall|directory: (Seq<char>, usize)| #[trigger]
        walk.known.contains(directory) ==> lies_at(
            tree,
            root,
            patterns,
            directory.0,
            directory.1 as nat,
        )
    &&& forall|i: int|
        0 <= i < walk.queue.len() ==> walk.known.contains(#[trigger] walk.queue[i])
    &&& forall|path: Seq<char>| #[trigger]
        walk.kept.contains(path) ==> belongs(tree, root, patterns, path)
    &&& walk.phase matches WalkPhase::Directory { path, depth, read } ==> {
        &&& depth < MAX_DEPTH
        &&& walk.known.contains((path, depth))
        &&& 0 <= read <= tree(path).len()
    }
}

/// The directory is open or waits to be.
spec fn is_to_come(walk: Walk, directory: (Seq<char>, usize)) -> bool {
    ||| walk.queue.contains(directory)
    ||| (walk.phase matches WalkPhase::Directory { path, depth, read } && directory == (path, depth))
}

/// The walk leaves nothing out: every directory known that is not too deep is
/// to come or read to its end.
spec fn is_complete(walk: Walk, tree: Tree, root: Seq<char>, patterns: Seq<Seq<char>>) -> bool {
    &&& walk.discovered == walk.kept.len()
    &&& walk.known.contains((root, 0usize))
    &&& forall|directory: (Seq<char>, usize)| #[trigger]
        walk.known.contains(directory) && directory.1 < MAX_DEPTH ==> is_to_come(walk, directory)
            || is_read(walk, tree, patterns, directory, tree(directory.0).len() as int)
    &&& walk.phase matches WalkPhase::Directory { path, depth, read } ==> is_read(
        walk,
        tree,
        patterns,
        (path, depth),
        read,
    )
    &&& walk.phase is Over ==> walk.queue.len() == 0
}

proof fn lemma_walk_is_sound(
    tree: Tree,
    root: Seq<char>,
    patterns: Seq<Seq<char>>,
    steps: nat,
)
    ensures
        is_sound(walk_after(tree, root, patterns, steps), tree, root, patterns),
    decreases steps,
{
    if steps > 0 {
        let before = walk_after(tree, root, patterns, (steps - 1) as nat);
        let after = before.advance(tree, patterns);
        lemma_walk_is_sound(tree, root, patterns, (steps - 1) as nat);
        match before.phase {
            WalkPhase::NextDirectory => {
                let rest = run::from_openable(before.queue, before.discovered);
                run_laws::lemma_from_openable(before.queue, before.discovered);
                let gone = before.queue.len() - rest.len();
                assert(forall|i: int| 0 <= i < rest.len() ==> rest[i] == before.queue[gone + i]);
                if rest.len() > 0 {
                    assert(rest[0] == before.queue[gone]);
                    assert forall|i: int| 0 <= i < after.queue.len() implies after.known.contains(
                        #[trigger] after.queue[i],
                    ) by {
                        assert(after.queue[i] == before.queue[gone + 1 + i]);
                    }
                }
            },
            WalkPhase::Directory { path, depth, read } if read < tree(path).len() => {
                let (entry, is_dir) = tree(path)[read];
                if entry is Some && !text::matches_any(entry->0, patterns) {
                    lemma_entry_is_sound(tree, root, patterns, before);
                }
            },
            _ => {},
        }
    }
}

/// A walk that keeps an entry goes on going only where it should.
proof fn lemma_entry_is_sound(
    tree: Tree,
    root: Seq<char>,
    patterns: Seq<Seq<char>>,
    walk: Walk,
)
    requires
        is_sound(walk, tree, root, patterns),
        walk.phase matches WalkPhase::Directory { path, depth, read } && read < tree(path).len()
            && tree(path)[read].0 is Some && !text::matches_any(tree(path)[read].0->0, patterns),
    ensures
        is_sound(walk.advance(tree, patterns), tree, root, patterns),
{
    let next = walk.advance(tree, patterns);
    match walk.phase {
        WalkPhase::Directory { path, depth, read } => {
            let found = tree(path)[read].0->0;
            assert(lies_at(tree, root, patterns, path, depth as nat));
            assert(has_entry(tree, path, found));
            assert(belongs(tree, root, patterns, found));
            assert forall|p: Seq<char>| #[trigger] next.kept.contains(p) implies belongs(
                tree,
                root,
                patterns,
                p,
            ) by {
                run_laws::lemma_concat_contains(walk.kept, seq![found], p);
            }
            if tree(path)[read].1 {
                assert(tree(path)[read] == (Some(found), true));
                assert(has_directory(tree, path, found));
                assert(lies_at(tree, root, patterns, path, ((depth + 1) as nat - 1) as nat));
                assert(lies_at(tree, root, patterns, found, (depth + 1) as nat));
            }
        },
        _ => {},
    }
}

/// What was taken or read stays so.
proof fn lemma_read_stays_read(
    walk: Walk,
    later: Walk,
    tree: Tree,
    patterns: Seq<Seq<char>>,
    directory: (Seq<char>, usize),
    count: int,
)
    requires
        is_read(walk, tree, patterns, directory, count),
        forall|path: Seq<char>| walk.kept.contains(path) ==> later.kept.contains(path),
        walk.known.subset_of(later.known),
    ensures
        is_read(later, tree, patterns, directory, count),
{
    assert forall|i: int| 0 <= i < count implies is_taken(
        later,
        patterns,
        directory.1,
        #[trigger] tree(directory.0)[i],
    ) by {
        assert(is_taken(walk, patterns, directory.1, tree(directory.0)[i]));
    }
}

/// A directory that is not too deep stays in the queue when others are passed
/// over.
proof fn lemma_shallow_stays(
    queue: Seq<(Seq<char>, usize)>,
    discovered: usize,
    directory: (Seq<char>, usize),
)
    requires
        discovered <= MAX_FILES,
        directory.1 < MAX_DEPTH,
        queue.contains(directory),
    ensures
        run::from_openable(queue, discovered).contains(directory),
    decreases queue.len(),
{
    if !run::may_open(queue[0].1, discovered) {
        let i = choose|i: int| 0 <= i < queue.len() && queue[i] == directory;
        assert(queue.drop_first()[i - 1] == directory);
        lemma_shallow_stays(queue.drop_first(), discovered, directory);
    }
}

proof fn lemma_walk_is_complete(
    tree: Tree,
    root: Seq<char>,
    patterns: Seq<Seq<char>>,
    steps: nat,
)
    requires
        walk_after(tree, root, patterns, steps).kept.len() <= MAX_FILES,
    ensures
        is_complete(walk_after(tree, root, patterns, steps), tree, root, patterns),
    decreases steps,
{
    if steps == 0 {
        let walk = walk_after(tree, root, patterns, 0);
        assert(walk.queue[0] == (root, 0usize));
    } else {
        let before = walk_after(tree, root, patterns, (steps - 1) as nat);
        lemma_walk_is_complete(tree, root, patterns, (steps - 1) as nat);
        lemma_walk_is_sound(tree, root, patterns, (steps - 1) as nat);
        lemma_advance_is_complete(tree, root, patterns, before);
    }
}

/// A walk that has left nothing out does not do so in a further step, as long
/// as the limit of files is kept.
proof fn lemma_advance_is_complete(
    tree: Tree,
    root: Seq<char>,
    patterns: Seq<Seq<char>>,
    walk: Walk,
)
    requires
        is_complete(walk, tree, root, patterns),
        is_sound(walk, tree, root, patterns),
        walk.kept.len() <= MAX_FILES,
    ensures
        is_complete(walk.advance(tree, patterns), tree, root, patterns),
{
    let next = walk.advance(tree, patterns);
    assert forall|path: Seq<char>| walk.kept.contains(path) implies next.kept.contains(path) by {
        if next.kept.len() > walk.kept.len() {
            run_laws::lemma_concat_contains(walk.kept, seq![next.kept.last()], path);
        }
    }
    assert forall|directory: (Seq<char>, usize)| #[trigger]
        next.known.contains(directory) && directory.1 < MAX_DEPTH implies is_to_come(
        next,
        directory,
    ) || is_read(next, tree, patterns, directory, tree(directory.0).len() as int) by {
        let all = tree(directory.0).len() as int;
        if is_read(walk, tree, patterns, directory, all) {
            lemma_read_stays_read(walk, next, tree, patterns, directory, all);
        } else {
            lemma_to_come_stays(tree, root, patterns, walk, directory);
        }
    }
    match walk.phase {
        WalkPhase::Directory { path, depth, read } if read < tree(path).len() => {
            lemma_read_stays_read(walk, next, tree, patterns, (path, depth), read);
            let entry = tree(path)[read];
            assert(is_taken(next, patterns, depth, entry)) by {
                if entry.0 is Some && !text::matches_any(entry.0->0, patterns) {
                    assert(next.kept[next.kept.len() - 1] == entry.0->0);
                }
            }
        },
        _ => {},
    }
}

/// A directory that is to come, or becomes known in a step, is to come after
/// it or read to its end.
proof fn lemma_to_come_stays(
    tree: Tree,
    root: Seq<char>,
    patterns: Seq<Seq<char>>,
    walk: Walk,
    directory: (Seq<char>, usize),
)
    requires
        is_complete(walk, tree, root, patterns),
        walk.kept.len() <= MAX_FILES,
        directory.1 < MAX_DEPTH,
        walk.advance(tree, patterns).known.contains(directory),
        !is_read(walk, tree, patterns, directory, tree(directory.0).len() as int),
    ensures
        is_to_come(walk.advance(tree, patterns), directory) || is_read(
            walk.advance(tree, patterns),
            tree,
            patterns,
            directory,
            tree(directory.0).len() as int,
        ),
{
    let next = walk.advance(tree, patterns);
    match walk.phase {
        WalkPhase::NextDirectory => {
            let rest = run::from_openable(walk.queue, walk.discovered);
            lemma_shallow_stays(walk.queue, walk.discovered, directory);
            let i = choose|i: int| 0 <= i < rest.len() && rest[i] == directory;
            if i > 0 {
                assert(next.queue[i - 1] == directory);
            }
        },
        WalkPhase::Directory { path, depth, read } => {
            if walk.queue.contains(directory) {
                let i = choose|i: int| 0 <= i < walk.queue.len() && walk.queue[i] == directory;
                assert(next.queue[i] == directory);
            } else if directory != (path, depth) {
                assert(!walk.known.contains(directory));
                assert(next.queue[next.queue.len() - 1] == directory);
            }
        },
        WalkPhase::Over => {},
    }
}

/// Where a walk is over that left nothing out, every directory that is not too
/// deep below the root is known.
proof fn lemma_all_directories_known(
    tree: Tree,
    root: Seq<char>,
    patterns: Seq<Seq<char>>,
    walk: Walk,
    directory: Seq<char>,
    level: nat,
)
    requires
        is_complete(walk, tree, root, patterns),
        walk.phase is Over,
        level < MAX_DEPTH,
        lies_at(tree, root, patterns, directory, level),
    ensures
        walk.known.contains((directory, level as usize)),
        is_read(
            walk,
            tree,
            patterns,
            (directory, level as usize),
            tree(directory).len() as int,
        ),
    decreases level,
{
    if level > 0 {
        let parent = choose|parent: Seq<char>|
            {
                &&& lies_at(tree, root, patterns, parent, (level - 1) as nat)
                &&& #[trigger] has_directory(tree, parent, directory)
            };
        lemma_all_directories_known(tree, root, patterns, walk, parent, (level - 1) as nat);
        let i = choose|i: int|
            0 <= i < tree(parent).len() && #[trigger] tree(parent)[i] == (Some(directory), true);
        assert(is_taken(walk, patterns, (level - 1) as usize, tree(parent)[i]));
    }
    assert(!is_to_come(walk, (directory, level as usize)));
}

/// The index holds the tree: after a run that went undisturbed over it, every
/// path in the index is listed in a directory that is not too deep below the
/// root, reached through directories that no pattern excludes, and is itself
/// not excluded. Where no more files were discovered than the limit, every
/// such path is in the index.
pub proof fn law_index_holds_the_tree(
    tree: Tree,
    root: Seq<char>,
    patterns: Seq<Seq<char>>,
    chunk_size: usize,
    events: Seq<EventModel>,
    path: Seq<char>,
)
    requires
        undisturbed(tree, RunModel::initial(root, patterns, chunk_size), events),
    ensures
        ({
            let start = RunModel::initial(root, patterns, chunk_size);
            let added = run_laws::all_added(start, events);
            &&& added.contains(path) ==> belongs(tree, root, patterns, path)
            &&& run_laws::state_after(start, events).discovered <= MAX_FILES ==> (added.contains(
                path,
            ) <==> belongs(tree, root, patterns, path))
        }),
{
    let start = RunModel::initial(root, patterns, chunk_size);
    let steps = walk_steps(start, events);
    let walk = walk_after(tree, root, patterns, steps);
    lemma_run_follows_walk(tree, root, patterns, chunk_size, events);
    run_laws::law_no_path_is_lost(root, patterns, chunk_size, events);
    run_laws::lemma_run_so_far(root, patterns, chunk_size, events);
    lemma_walk_is_sound(tree, root, patterns, steps);
    if walk.discovered <= MAX_FILES && belongs(tree, root, patterns, path) {
        lemma_walk_is_complete(tree, root, patterns, steps);
        let (directory, level) = choose|directory: Seq<char>, level: nat|
            {
                &&& level < MAX_DEPTH
                &&& #[trigger] lies_at(tree, root, patterns, directory, level)
                &&& has_entry(tree, directory, path)
            };
        lemma_all_directories_known(tree, root, patterns, walk, directory, level);
        let i = choose|i: int|
            0 <= i < tree(directory).len() && (#[trigger] tree(directory)[i]).0 == Some(path);
        assert(is_taken(walk, patterns, level as usize, tree(directory)[i]));
    }
}

} // verus!
