//! What holds of the search engine across its operations.
use crate::config::ConfigModel;
use crate::engine::{CommandModel, RequestModel};
use crate::progress::Completion;
use crate::run::{EventModel, RunModel};
use crate::search_engine::{FolderModel, SearchEngineModel, SearchEngineStatus};
use crate::state;
use vstd::prelude::*;

verus! {

/// Whether an index is asked to stop after it has carried out the commands,
/// where `asked` tells whether it was before.
pub open spec fn stop_flag_after(list: Seq<CommandModel>, asked: bool) -> bool
    decreases list.len(),
{
    if list.len() == 0 {
        asked
    } else {
        match list.last() {
            CommandModel::StopIndexing => true,
            CommandModel::ResetStopFlag => false,
            _ => stop_flag_after(list.drop_last(), asked),
        }
    }
}

/// A change of the state, with what it was told.
pub enum Operation {
    StartIndexing { folder: FolderModel, started: u64, updated: u64 },
    FinishIndexing { elapsed_ms: u64, stopped: bool },
    BeginRun { folder: Seq<char>, now: u64 },
    FinishRun { elapsed_ms: u64, stopped: bool, indexed: usize, discovered: usize, now: u64 },
    Report { discovered: usize, indexed: usize, path: Option<Seq<char>>, now: u64 },
    RecordBatch { indexed: usize, total: usize, read: u64, now: u64 },
    UpdateProgress { indexed: usize, total: usize, path: Option<Seq<char>>, read: u64, now: u64 },
    Search { now: u64 },
    FinishSearch { request: RequestModel, ms: u64, cache_hit: bool },
    UpdateConfig { config: ConfigModel, directory: Option<Seq<char>>, now: u64 },
    StopIndexing { now: u64 },
}

/// The state after an operation; one that is refused changes nothing.
pub open spec fn after(before: SearchEngineModel, operation: Operation) -> SearchEngineModel {
    match operation {
        Operation::StartIndexing { folder, started, updated } => before.indexing_started(
            folder,
            started,
            updated,
        ),
        Operation::FinishIndexing { elapsed_ms, stopped } => before.indexing_finished(
            elapsed_ms,
            stopped,
        ),
        Operation::BeginRun { folder, now } => before.run_began(folder, now),
        Operation::FinishRun { elapsed_ms, stopped, indexed, discovered, now } =>
            before.run_finished(elapsed_ms, stopped, indexed, discovered, now),
        Operation::Report { discovered, indexed, path, now } => before.reported(
            discovered,
            indexed,
            path,
            now,
        ),
        Operation::RecordBatch { indexed, total, read, now } => if before.progress.clock_ok(read) {
            before.after_batch(indexed, total, read, now)
        } else {
            before
        },
        Operation::UpdateProgress { indexed, total, path, read, now } =>
            if before.progress.clock_ok(read) {
            before.progress_updated(indexed, total, path, read, now)
        } else {
            before
        },
        Operation::Search { now } => if before.admits_search() {
            before.searching(now)
        } else {
            before
        },
        Operation::FinishSearch { request, ms, cache_hit } => before.searched(
            request,
            ms,
            cache_hit,
        ),
        Operation::UpdateConfig { config, directory, now } => before.configured(
            config,
            directory,
            now,
        ),
        Operation::StopIndexing { now } => if before.status is Indexing {
            before.cancelled(now)
        } else {
            before
        },
    }
}

/// The state after operations, from a new search engine on.
pub open spec fn after_all(
    config: ConfigModel,
    now: u64,
    operations: Seq<Operation>,
) -> SearchEngineModel
    decreases operations.len(),
{
    if operations.len() == 0 {
        SearchEngineModel::initial(config, now)
    } else {
        after(after_all(config, now, operations.drop_last()), operations.last())
    }
}

/// Whatever operations come in whatever order, in every state that is reached
/// the average search time is over the searches counted, no more cache hits
/// than searches are counted, and no more than ten recent searches are kept.
pub proof fn law_every_state_is_well_formed(
    config: ConfigModel,
    now: u64,
    operations: Seq<Operation>,
)
    requires
        operations.len() <= usize::MAX,
    ensures
        ({
            let state = after_all(config, now, operations);
            &&& state.wf()
            &&& state.metrics.cache_hits <= state.metrics.total_searches <= operations.len()
            &&& state.metrics.average_search_time_ms matches Some(average) ==> 0 < average.searches
                && average.searches == state.metrics.total_searches
            &&& state.recent_activity.recent_searches.len() <= 10
        }),
    decreases operations.len(),
{
    if operations.len() > 0 {
        law_every_state_is_well_formed(config, now, operations.drop_last());
        let before = after_all(config, now, operations.drop_last());
        match operations.last() {
            Operation::FinishSearch { request, ms, cache_hit } => {
                crate::metrics::lemma_total_fits(before.metrics, ms);
            },
            _ => {},
        }
    }
}

/// Every operation but a start of indexing leaves an engine that is not
/// indexing so.
pub proof fn law_only_a_start_begins_indexing(before: SearchEngineModel, operation: Operation)
    requires
        !(before.status is Indexing),
        after(before, operation).status is Indexing,
    ensures
        operation is StartIndexing,
        before.enabled(),
{
}

/// A new search engine is idle, and searches may be made where it is enabled.
pub proof fn law_engine_begins_idle(config: ConfigModel, now: u64)
    ensures
        SearchEngineModel::initial(config, now).status is Idle,
        SearchEngineModel::initial(config, now).admits_search() == config.search_engine_enabled,
{
}

/// A disabled engine does nothing: a start of indexing changes nothing and
/// asks nothing of the index, and no search is admitted; both are answered
/// that it is disabled.
pub proof fn law_disabled_engine_does_nothing(
    before: SearchEngineModel,
    folder: FolderModel,
    started: u64,
    updated: u64,
)
    requires
        !before.enabled(),
    ensures
        before.indexing_started(folder, started, updated) == before,
        before.start_commands() == Seq::<CommandModel>::empty(),
        state::start_error(before, folder) == Some(state::disabled_in_configuration()),
        !before.admits_search(),
        state::search_error(before) == Some(state::disabled_in_configuration()),
{
}

/// Searches are refused exactly where the engine is disabled or is indexing.
pub proof fn law_search_is_refused_only_with_reason(before: SearchEngineModel)
    ensures
        before.admits_search() <==> state::search_error(before) is None,
{
}

/// While a folder is taken into the index no search is admitted; once that is
/// finished, stopped or cancelled, searches are admitted again.
pub proof fn law_no_search_while_indexing(
    before: SearchEngineModel,
    folder: Seq<char>,
    elapsed_ms: u64,
    stopped: bool,
    counts: (usize, usize),
    times: (u64, u64),
)
    requires
        before.enabled(),
    ensures
        ({
            let indexing = before.indexing_started(FolderModel::Text(folder), times.0, times.1);
            &&& indexing.status is Indexing
            &&& !indexing.admits_search()
            &&& state::search_error(indexing) == Some(state::currently_indexing())
            &&& indexing.indexing_finished(elapsed_ms, stopped).admits_search()
            &&& indexing.run_finished(
                elapsed_ms,
                stopped,
                counts.0,
                counts.1,
                times.1,
            ).admits_search()
            &&& indexing.cancelled(times.1).admits_search()
        }),
{
}

/// However indexing ends, the engine is idle afterwards, or cancelled where
/// the index was asked to stop, and how long it took is known.
pub proof fn law_indexing_ends_idle_or_cancelled(
    before: SearchEngineModel,
    elapsed_ms: u64,
    stopped: bool,
    counts: (usize, usize),
    now: u64,
)
    ensures
        ({
            let whole = before.indexing_finished(elapsed_ms, stopped);
            let chunked = before.run_finished(elapsed_ms, stopped, counts.0, counts.1, now);
            let expected = if stopped {
                SearchEngineStatus::Cancelled
            } else {
                SearchEngineStatus::Idle
            };
            &&& whole.status == expected
            &&& chunked.status == expected
            &&& whole.metrics.last_indexing_duration_ms == Some(elapsed_ms)
            &&& chunked.metrics.last_indexing_duration_ms == Some(elapsed_ms)
        }),
{
}

/// An operation never begins with the request to stop that was meant for an
/// earlier one, and it begins with an empty index. Where one runs already, it
/// is first asked to stop.
pub proof fn law_indexing_begins_afresh(before: SearchEngineModel, asked: bool)
    requires
        before.enabled(),
    ensures
        !stop_flag_after(before.start_commands(), asked),
        before.start_commands().last() == CommandModel::Clear,
        before.status is Indexing ==> before.start_commands()[0] == CommandModel::StopIndexing,
        before.status is Indexing ==> stop_flag_after(before.start_commands().take(1), asked),
        !(before.status is Indexing) ==> !before.start_commands().contains(
            CommandModel::StopIndexing,
        ),
{
    let list = before.start_commands();
    assert(list.last() == CommandModel::Clear);
    assert(list.drop_last().last() == CommandModel::ResetStopFlag);
    assert(!stop_flag_after(list.drop_last(), asked));
    assert(list.take(1).last() == list[0]);
}

/// Indexing can be stopped once: afterwards the engine is cancelled, and there
/// is nothing to stop any more.
pub proof fn law_stop_works_once(before: SearchEngineModel, now: u64)
    requires
        before.status is Indexing,
    ensures
        before.cancelled(now).status is Cancelled,
        !(before.cancelled(now).status is Indexing),
        before.cancelled(now).progress == before.progress,
{
}

/// A folder whose path is not text makes the start fail, and the failed engine
/// still admits searches.
pub proof fn law_invalid_folder_fails(
    before: SearchEngineModel,
    bytes: Seq<u8>,
    started: u64,
    updated: u64,
)
    requires
        before.enabled(),
    ensures
        ({
            let folder = FolderModel::Encoded(bytes);
            let failed = before.indexing_started(folder, started, updated);
            &&& failed.status is Failed
            &&& failed.index_folder == folder
            &&& state::start_error(before, folder) == Some(state::invalid_folder())
            &&& failed.admits_search()
        }),
{
}

/// A search that is admitted and made leaves the engine idle and ready for the
/// next; it is counted, it stands first among the recent searches unless it
/// was empty or chose its own extensions, and it changes nothing of the
/// configuration or of the progress of indexing.
pub proof fn law_search_leaves_engine_ready(
    before: SearchEngineModel,
    request: RequestModel,
    ms: u64,
    cache_hit: bool,
    now: u64,
)
    requires
        before.admits_search(),
        before.metrics.has_room(cache_hit),
    ensures
        ({
            let after = before.searching(now).searched(request, ms, cache_hit);
            &&& after.status is Idle
            &&& after.admits_search()
            &&& after.metrics.total_searches == before.metrics.total_searches + 1
            &&& after.config == before.config
            &&& after.progress == before.progress
            &&& request.extensions is None && request.query.len() > 0
                ==> after.recent_activity.recent_searches[0] == request.query
            &&& request.extensions is Some || request.query.len() == 0 ==> after.recent_activity
                == before.recent_activity
        }),
{
}

/// A run over a folder that is never asked to stop ends with every file that
/// was discovered in the index, and the state says so.
pub proof fn law_finished_run_indexed_everything(
    before: SearchEngineModel,
    root: Seq<char>,
    patterns: Seq<Seq<char>>,
    chunk_size: usize,
    events: Seq<EventModel>,
    elapsed_ms: u64,
    now: u64,
)
    requires
        crate::run_laws::in_order(RunModel::initial(root, patterns, chunk_size), events),
        forall|i: int|
            0 <= i < events.len() ==> !crate::run_laws::asks_to_stop(#[trigger] events[i]),
        crate::run_laws::state_after(RunModel::initial(root, patterns, chunk_size), events).phase is Finished,
    ensures
        ({
            let start = RunModel::initial(root, patterns, chunk_size);
            let run = crate::run_laws::state_after(start, events);
            let after = before.run_finished(elapsed_ms, false, run.indexed, run.discovered, now);
            &&& after.status is Idle
            &&& after.progress.files_indexed == after.progress.files_discovered
            &&& after.progress.files_indexed == crate::run_laws::all_kept(start, events).len()
            &&& after.progress.percentage_complete == Completion::Full
            &&& after.progress.current_path is None
        }),
{
    crate::run_laws::law_no_path_is_lost(root, patterns, chunk_size, events);
    crate::run_laws::law_index_holds_only_kept_paths(root, patterns, chunk_size, events);
}

/// No run shows a percentage that is out of range: at every step the counts it
/// reports, and the counts it has reached, are such that no more files are
/// indexed than are known, and so is the percentage that the state takes from
/// them.
pub proof fn law_run_counts_make_a_percentage(
    run: RunModel,
    event: EventModel,
    before: SearchEngineModel,
    path: Option<Seq<char>>,
    read: u64,
    now: u64,
)
    requires
        run.wf(),
        run.accepts(event),
    ensures
        ({
            let next = run.step(event).next;
            &&& run.step(event).report matches Some(report) ==> {
                let completion = Completion::Discovering {
                    indexed: report.indexed,
                    discovered: report.discovered,
                };
                &&& completion.wf()
                &&& before.reported(
                    report.discovered,
                    report.indexed,
                    Some(report.path),
                    now,
                ).progress.percentage_complete == completion
            }
            &&& next.discovered > 0 ==> {
                let completion = Completion::Indexed {
                    indexed: next.indexed,
                    total: next.discovered,
                };
                &&& completion.wf()
                &&& before.after_batch(
                    next.indexed,
                    next.discovered,
                    read,
                    now,
                ).progress.percentage_complete == completion
                &&& before.progress_updated(
                    next.indexed,
                    next.discovered,
                    path,
                    read,
                    now,
                ).progress.percentage_complete == completion
            }
            &&& next.discovered == 0 ==> before.after_batch(
                next.indexed,
                next.discovered,
                read,
                now,
            ).progress.percentage_complete == Completion::Zero
        }),
{
    crate::run_laws::law_run_stays_well_formed(run, event);
}

/// The size of the chunks shows neither in the index nor in what the state
/// says in the end: two runs over the same tree, listed in the same order, that
/// are never asked to stop and run to their end put the same paths into the
/// index in the same order, and both leave the engine idle with the same counts,
/// all of it indexed.
pub proof fn law_chunk_size_does_not_show(
    tree: crate::walk_laws::Tree,
    root: Seq<char>,
    patterns: Seq<Seq<char>>,
    chunk_sizes: (usize, usize),
    events: (Seq<EventModel>, Seq<EventModel>),
    before: (SearchEngineModel, SearchEngineModel),
    elapsed_ms: (u64, u64),
    now: (u64, u64),
)
    requires
        crate::walk_laws::undisturbed(
            tree,
            RunModel::initial(root, patterns, chunk_sizes.0),
            events.0,
        ),
        crate::walk_laws::undisturbed(
            tree,
            RunModel::initial(root, patterns, chunk_sizes.1),
            events.1,
        ),
    ensures
        ({
            let start = (
                RunModel::initial(root, patterns, chunk_sizes.0),
                RunModel::initial(root, patterns, chunk_sizes.1),
            );
            let run = (
                crate::run_laws::state_after(start.0, events.0),
                crate::run_laws::state_after(start.1, events.1),
            );
            let after = (
                before.0.run_finished(
                    elapsed_ms.0,
                    false,
                    run.0.indexed,
                    run.0.discovered,
                    now.0,
                ),
                before.1.run_finished(
                    elapsed_ms.1,
                    false,
                    run.1.indexed,
                    run.1.discovered,
                    now.1,
                ),
            );
            &&& crate::run_laws::all_added(start.0, events.0) == crate::run_laws::all_added(
                start.1,
                events.1,
            )
            &&& after.0.status is Idle
            &&& after.1.status is Idle
            &&& after.0.progress.files_discovered == after.1.progress.files_discovered
            &&& after.0.progress.files_indexed == after.1.progress.files_indexed
            &&& after.0.progress.files_indexed == after.0.progress.files_discovered
            &&& after.0.progress.percentage_complete == Completion::Full
            &&& after.1.progress.percentage_complete == Completion::Full
            &&& after.0.progress.current_path is None
            &&& after.1.progress.current_path is None
        }),
{
    crate::walk_laws::law_chunk_size_changes_no_result(
        tree,
        root,
        patterns,
        chunk_sizes.0,
        events.0,
        chunk_sizes.1,
        events.1,
    );
}

} // verus!
