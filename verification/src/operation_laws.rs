//! What each operation of the search engine changes, and what it leaves.
use crate::config::ConfigModel;
use crate::engine::{CommandModel, RequestModel};
use crate::progress::{Completion, ProgressModel};
use crate::run::{EventModel, RunModel};
use crate::run_laws;
use crate::search_engine::{FolderModel, SearchEngineModel, SearchEngineStatus};
use crate::state;
use crate::stats::EngineStatsSerializable;
use crate::text;
use crate::walk_laws;
use vstd::prelude::*;

verus! {

/// A new engine is idle, has indexed and counted nothing, remembers no search
/// and no folder, and keeps the configuration it was given.
pub proof fn law_new_engine_has_done_nothing(config: ConfigModel, now: u64)
    ensures
        ({
            let new = SearchEngineModel::initial(config, now);
            &&& new.status == SearchEngineStatus::Idle
            &&& new.index_folder == FolderModel::Text(Seq::empty())
            &&& new.progress.files_discovered == 0
            &&& new.progress.files_indexed == 0
            &&& new.progress.percentage_complete == Completion::Zero
            &&& new.progress.current_path is None
            &&& new.progress.start_time is None
            &&& new.progress.estimated_time_remaining is None
            &&& new.metrics.last_indexing_duration_ms is None
            &&& new.metrics.average_search_time_ms is None
            &&& new.metrics.cache_hit_rate is None
            &&& new.metrics.total_searches == 0
            &&& new.metrics.cache_hits == 0
            &&& new.config == config
            &&& new.recent_activity.recent_searches.len() == 0
            &&& new.recent_activity.most_accessed_paths.len() == 0
            &&& new.current_directory is None
            &&& new.last_updated == now
        }),
{
}

/// An enabled engine that is told to index a folder takes it up, whatever it
/// did before: the folder is remembered, its progress begins at nothing with
/// the time of the start, and it is indexing, or has failed where the folder's
/// path is not text. All that does not concern indexing stays.
pub proof fn law_start_takes_up_the_folder(
    before: SearchEngineModel,
    folder: FolderModel,
    started: u64,
    updated: u64,
)
    requires
        before.config.search_engine_enabled,
    ensures
        ({
            let after = before.indexing_started(folder, started, updated);
            &&& after.status == match folder {
                FolderModel::Text(_) => SearchEngineStatus::Indexing,
                FolderModel::Encoded(_) => SearchEngineStatus::Failed,
            }
            &&& after.index_folder == folder
            &&& after.last_updated == updated
            &&& after.progress.files_discovered == 0
            &&& after.progress.files_indexed == 0
            &&& after.progress.percentage_complete == Completion::Zero
            &&& after.progress.current_path is None
            &&& after.progress.start_time == Some(started)
            &&& after.progress.estimated_time_remaining is None
            &&& after.metrics == before.metrics
            &&& after.config == before.config
            &&& after.recent_activity == before.recent_activity
            &&& after.current_directory == before.current_directory
        }),
{
}

/// What the index is asked to do at a start: nothing by a disabled engine;
/// else it forgets that it was to stop and then becomes empty, after it was
/// asked to stop where it was indexing.
pub proof fn law_start_asks_of_the_index(before: SearchEngineModel)
    ensures
        ({
            let list = before.start_commands();
            let asked = if before.status == SearchEngineStatus::Indexing {
                seq![CommandModel::StopIndexing]
            } else {
                Seq::empty()
            };
            &&& !before.config.search_engine_enabled ==> list.len() == 0
            &&& before.config.search_engine_enabled ==> list == asked
                + seq![CommandModel::ResetStopFlag, CommandModel::Clear]
        }),
{
}

/// Who is refused, and with what words. A start is refused by a disabled
/// engine and for a folder whose path is not text, a search by a disabled
/// engine and while one is indexing; nothing else is.
pub proof fn law_refusals_name_their_reason(before: SearchEngineModel, folder: FolderModel)
    ensures
        before.enabled() == before.config.search_engine_enabled,
        before.admits_search() <==> before.config.search_engine_enabled && before.status
            != SearchEngineStatus::Indexing,
        state::start_error(before, folder) == if !before.config.search_engine_enabled {
            Some("Search engine is disabled in configuration"@)
        } else {
            match folder {
                FolderModel::Text(_) => None,
                FolderModel::Encoded(_) => Some("Invalid folder path"@),
            }
        },
        state::search_error(before) == if !before.config.search_engine_enabled {
            Some("Search engine is disabled in configuration"@)
        } else if before.status == SearchEngineStatus::Indexing {
            Some("Engine is currently indexing"@)
        } else {
            None
        },
        state::disabled() == "Search engine is disabled"@,
        state::nothing_to_stop() == "No indexing operation in progress"@,
{
}

/// An operation that is over leaves how long it took and whether it was
/// stopped. Of the metrics nothing else changes, and nothing of the rest.
pub proof fn law_finish_records_the_duration(
    before: SearchEngineModel,
    elapsed_ms: u64,
    stopped: bool,
)
    ensures
        ({
            let after = before.indexing_finished(elapsed_ms, stopped);
            &&& stopped ==> after.status == SearchEngineStatus::Cancelled
            &&& !stopped ==> after.status == SearchEngineStatus::Idle
            &&& after.metrics.last_indexing_duration_ms == Some(elapsed_ms)
            &&& after.metrics.average_search_time_ms == before.metrics.average_search_time_ms
            &&& after.metrics.cache_hit_rate == before.metrics.cache_hit_rate
            &&& after.metrics.total_searches == before.metrics.total_searches
            &&& after.metrics.cache_hits == before.metrics.cache_hits
            &&& after.index_folder == before.index_folder
            &&& after.progress == before.progress
            &&& after.config == before.config
            &&& after.recent_activity == before.recent_activity
            &&& after.current_directory == before.current_directory
            &&& after.last_updated == before.last_updated
        }),
{
}

/// A run begins at nothing with its folder as the path worked on; the time of
/// the start, the estimate and all that is not progress stay.
pub proof fn law_run_begins_at_nothing(before: SearchEngineModel, folder: Seq<char>, now: u64)
    ensures
        ({
            let after = before.run_began(folder, now);
            &&& after.progress.files_discovered == 0
            &&& after.progress.files_indexed == 0
            &&& after.progress.percentage_complete == Completion::Zero
            &&& after.progress.current_path == Some(folder)
            &&& after.progress.start_time == before.progress.start_time
            &&& after.progress.estimated_time_remaining
                == before.progress.estimated_time_remaining
            &&& after.last_updated == now
            &&& only_progress_changed(before, after)
        }),
{
}

/// At most the progress and the time of the last change differ.
pub open spec fn only_progress_changed(
    before: SearchEngineModel,
    after: SearchEngineModel,
) -> bool {
    &&& after.status == before.status
    &&& after.index_folder == before.index_folder
    &&& after.metrics == before.metrics
    &&& after.config == before.config
    &&& after.recent_activity == before.recent_activity
    &&& after.current_directory == before.current_directory
}

/// A run that was stopped leaves the progress as it stood. One that was not
/// leaves its counts, everything done and no path worked on.
pub proof fn law_run_end_leaves_its_counts(
    before: SearchEngineModel,
    elapsed_ms: u64,
    stopped: bool,
    indexed: usize,
    discovered: usize,
    now: u64,
)
    ensures
        ({
            let after = before.run_finished(elapsed_ms, stopped, indexed, discovered, now);
            &&& stopped ==> {
                &&& after.status == SearchEngineStatus::Cancelled
                &&& after.progress == before.progress
                &&& after.last_updated == before.last_updated
            }
            &&& !stopped ==> {
                &&& after.status == SearchEngineStatus::Idle
                &&& after.progress.files_indexed == indexed
                &&& after.progress.files_discovered == discovered
                &&& after.progress.percentage_complete == Completion::Full
                &&& after.progress.current_path is None
                &&& after.progress.start_time == before.progress.start_time
                &&& after.progress.estimated_time_remaining
                    == before.progress.estimated_time_remaining
                &&& after.last_updated == now
            }
            &&& after.metrics.last_indexing_duration_ms == Some(elapsed_ms)
            &&& after.metrics.average_search_time_ms == before.metrics.average_search_time_ms
            &&& after.metrics.cache_hit_rate == before.metrics.cache_hit_rate
            &&& after.metrics.total_searches == before.metrics.total_searches
            &&& after.metrics.cache_hits == before.metrics.cache_hits
            &&& after.index_folder == before.index_folder
            &&& after.config == before.config
            &&& after.recent_activity == before.recent_activity
            &&& after.current_directory == before.current_directory
        }),
{
}

/// After a report the progress shows its counts and its path; the percentage
/// is that of these counts, and stays where there are none.
pub proof fn law_report_is_shown(
    before: SearchEngineModel,
    discovered: usize,
    indexed: usize,
    path: Option<Seq<char>>,
    now: u64,
)
    ensures
        ({
            let after = before.reported(discovered, indexed, path, now);
            &&& after.progress.files_discovered == discovered
            &&& after.progress.files_indexed == indexed
            &&& after.progress.current_path == path
            &&& discovered > 0 ==> after.progress.percentage_complete
                == (Completion::Discovering { indexed, discovered })
            &&& discovered == 0 ==> after.progress.percentage_complete
                == before.progress.percentage_complete
            &&& after.progress.start_time == before.progress.start_time
            &&& after.progress.estimated_time_remaining
                == before.progress.estimated_time_remaining
            &&& after.last_updated == now
            &&& only_progress_changed(before, after)
        }),
{
}

/// The estimate follows the counts: where the start is known and some file is
/// indexed, it is made of the time since the start, the files indexed and the
/// files left; else it stays.
pub open spec fn estimate_follows(
    before: ProgressModel,
    after: ProgressModel,
    indexed: usize,
    total: usize,
    read: u64,
) -> bool {
    match (before.start_time, after.estimated_time_remaining) {
        (Some(start), Some(estimate)) if indexed > 0 => {
            &&& start + estimate.elapsed_ms == read
            &&& estimate.files_indexed == indexed
            &&& indexed <= total ==> indexed + estimate.files_remaining == total
            &&& indexed > total ==> estimate.files_remaining == 0
        },
        (Some(start), None) => indexed == 0 && before.estimated_time_remaining is None,
        _ => after.estimated_time_remaining == before.estimated_time_remaining,
    }
}

/// After a batch is recorded the files indexed and the files discovered are
/// the counts recorded, the percentage is that of these two, nothing where
/// there are no files, and the estimate follows them. The path worked on, the
/// time of the start and all that is not progress stay.
pub proof fn law_batch_is_shown(
    before: SearchEngineModel,
    indexed: usize,
    total: usize,
    read: u64,
    now: u64,
)
    requires
        before.progress.start_time matches Some(start) ==> start <= read,
    ensures
        ({
            let after = before.after_batch(indexed, total, read, now);
            &&& after.progress.files_indexed == indexed
            &&& after.progress.files_discovered == total
            &&& total > 0 ==> after.progress.percentage_complete == (Completion::Indexed {
                indexed: after.progress.files_indexed,
                total: after.progress.files_discovered,
            })
            &&& total == 0 ==> after.progress.percentage_complete == Completion::Zero
            &&& estimate_follows(before.progress, after.progress, indexed, total, read)
            &&& after.progress.current_path == before.progress.current_path
            &&& after.progress.start_time == before.progress.start_time
            &&& after.last_updated == now
            &&& only_progress_changed(before, after)
        }),
{
}

/// After the indexer stated its counts the progress shows them and the path;
/// the percentage is that of the counts, and stays where there are no files,
/// and the estimate follows them.
pub proof fn law_stated_counts_are_shown(
    before: SearchEngineModel,
    indexed: usize,
    total: usize,
    path: Option<Seq<char>>,
    read: u64,
    now: u64,
)
    requires
        before.progress.start_time matches Some(start) ==> start <= read,
    ensures
        ({
            let after = before.progress_updated(indexed, total, path, read, now);
            &&& after.progress.files_indexed == indexed
            &&& after.progress.files_discovered == total
            &&& after.progress.current_path == path
            &&& total > 0 ==> after.progress.percentage_complete == (Completion::Indexed {
                indexed: after.progress.files_indexed,
                total: after.progress.files_discovered,
            })
            &&& total == 0 ==> after.progress.percentage_complete
                == before.progress.percentage_complete
            &&& estimate_follows(before.progress, after.progress, indexed, total, read)
            &&& after.progress.start_time == before.progress.start_time
            &&& after.last_updated == now
            &&& only_progress_changed(before, after)
        }),
{
}

/// Counts are refused exactly where the clock stands before the time of the
/// start.
pub proof fn law_only_a_late_clock_is_taken(progress: ProgressModel, read: u64)
    ensures
        progress.clock_ok(read) <==> !(progress.start_time matches Some(start) && read < start),
{
}

/// At every step of a run, what the state shows of the counts that the run has
/// reached, and of the report that it makes, has no more files indexed than
/// discovered.
pub proof fn law_run_never_shows_more_indexed_than_discovered(
    before: SearchEngineModel,
    run: RunModel,
    event: EventModel,
    elapsed_ms: u64,
    read: u64,
    now: u64,
)
    requires
        run.wf(),
        run.accepts(event),
    ensures
        ({
            let next = run.step(event).next;
            let batch = before.after_batch(next.indexed, next.discovered, read, now).progress;
            let end = before.run_finished(
                elapsed_ms,
                false,
                next.indexed,
                next.discovered,
                now,
            ).progress;
            &&& batch.files_indexed <= batch.files_discovered
            &&& end.files_indexed <= end.files_discovered
            &&& run.step(event).report matches Some(report) ==> {
                let shown = before.reported(
                    report.discovered,
                    report.indexed,
                    Some(report.path),
                    now,
                ).progress;
                shown.files_indexed <= shown.files_discovered
            }
        }),
{
    run_laws::law_run_stays_well_formed(run, event);
}

/// While a search is made the engine is searching; nothing but the time of the
/// last change shows otherwise.
pub proof fn law_admitted_search_shows(before: SearchEngineModel, now: u64)
    ensures
        ({
            let after = before.searching(now);
            &&& after.status == SearchEngineStatus::Searching
            &&& after.last_updated == now
            &&& after.index_folder == before.index_folder
            &&& after.progress == before.progress
            &&& after.metrics == before.metrics
            &&& after.config == before.config
            &&& after.recent_activity == before.recent_activity
            &&& after.current_directory == before.current_directory
        }),
{
}

/// A finished search counts once, and once more among the cache hits exactly
/// where the cache answered, whether or not it chose its own extensions. The
/// hit rate is that of the counts so obtained, the average takes in its time,
/// and the engine is idle.
pub proof fn law_finished_search_is_counted(
    before: SearchEngineModel,
    request: RequestModel,
    ms: u64,
    cache_hit: bool,
)
    requires
        before.metrics.wf(),
        before.metrics.total_searches < usize::MAX,
        cache_hit ==> before.metrics.cache_hits < usize::MAX,
    ensures
        ({
            let after = before.searched(request, ms, cache_hit);
            let searches = before.metrics.total_searches + 1;
            &&& after.status == SearchEngineStatus::Idle
            &&& after.metrics.total_searches == searches
            &&& cache_hit ==> after.metrics.cache_hits == before.metrics.cache_hits + 1
            &&& !cache_hit ==> after.metrics.cache_hits == before.metrics.cache_hits
            &&& after.metrics.cache_hit_rate is Some
            &&& after.metrics.cache_hit_rate->0.searches == searches
            &&& after.metrics.cache_hits <= searches ==> after.metrics.cache_hit_rate->0.hits
                == after.metrics.cache_hits
            &&& after.metrics.cache_hits > searches ==> after.metrics.cache_hit_rate->0.hits
                == searches
            &&& after.metrics.average_search_time_ms is Some
            &&& after.metrics.average_search_time_ms->0.searches == searches
            &&& match before.metrics.average_search_time_ms {
                Some(average) => after.metrics.average_search_time_ms->0.total_ms
                    == average.total_ms + ms,
                None => after.metrics.average_search_time_ms->0.total_ms == ms * searches,
            }
            &&& after.metrics.last_indexing_duration_ms
                == before.metrics.last_indexing_duration_ms
            &&& after.index_folder == before.index_folder
            &&& after.progress == before.progress
            &&& after.config == before.config
            &&& after.current_directory == before.current_directory
            &&& after.last_updated == before.last_updated
        }),
{
    crate::metrics::law_search_is_counted(before.metrics, ms, cache_hit);
}

/// A finished search is remembered, as the newest, exactly where it has a
/// query and no extensions of its own.
pub proof fn law_finished_search_is_remembered(
    before: SearchEngineModel,
    request: RequestModel,
    ms: u64,
    cache_hit: bool,
)
    ensures
        ({
            let old = before.recent_activity;
            let new = before.searched(request, ms, cache_hit).recent_activity;
            let remembered = request.extensions is None && request.query.len() > 0;
            &&& new.most_accessed_paths == old.most_accessed_paths
            &&& !remembered ==> new.recent_searches == old.recent_searches
            &&& remembered ==> {
                &&& new.recent_searches[0] == request.query
                &&& new.recent_searches.len() == if old.recent_searches.len() < 10 {
                    old.recent_searches.len() + 1
                } else {
                    old.recent_searches.len()
                }
                &&& forall|i: int|
                    1 <= i < new.recent_searches.len() ==> #[trigger] new.recent_searches[i]
                        == old.recent_searches[i - 1]
            }
        }),
{
    if request.extensions is None {
        crate::activity::law_search_comes_first(before.recent_activity, request.query);
    }
}

/// The engine after searches that were made one after the other, each with
/// what it asked for, the time it took and whether the cache answered it.
pub open spec fn after_finished(
    before: SearchEngineModel,
    searches: Seq<(RequestModel, u64, bool)>,
) -> SearchEngineModel
    decreases searches.len(),
{
    if searches.len() == 0 {
        before
    } else {
        let last = searches.last();
        after_finished(before, searches.drop_last()).searched(last.0, last.1, last.2)
    }
}

/// The sum of the times of the searches.
pub open spec fn total_time(searches: Seq<(RequestModel, u64, bool)>) -> int {
    searches.fold_left(0int, |sum: int, search: (RequestModel, u64, bool)| sum + search.1)
}

/// The searches that are remembered: those with a query and no extensions of
/// their own.
pub open spec fn remembered(searches: Seq<(RequestModel, u64, bool)>) -> Seq<
    (RequestModel, u64, bool),
> {
    searches.filter(
        |search: (RequestModel, u64, bool)|
            search.0.extensions is None && search.0.query.len() > 0,
    )
}

/// The searches that the cache answered.
pub open spec fn answered_by_cache(searches: Seq<(RequestModel, u64, bool)>) -> Seq<
    (RequestModel, u64, bool),
> {
    searches.filter(|search: (RequestModel, u64, bool)| search.2)
}

/// Over any searches of a new engine, with extensions of their own or without:
/// all of them are counted, the cache hits are as many as the cache answered,
/// the hit rate is the share of these, and the average is over all the times.
#[verifier::spinoff_prover]
pub proof fn law_searches_of_both_kinds_add_up(
    config: ConfigModel,
    now: u64,
    searches: Seq<(RequestModel, u64, bool)>,
)
    requires
        0 < searches.len() < usize::MAX,
    ensures
        ({
            let metrics = after_finished(SearchEngineModel::initial(config, now), searches).metrics;
            &&& metrics.total_searches == searches.len()
            &&& metrics.cache_hits == answered_by_cache(searches).len()
            &&& metrics.cache_hit_rate is Some
            &&& metrics.cache_hit_rate->0.hits == answered_by_cache(searches).len()
            &&& metrics.cache_hit_rate->0.searches == searches.len()
            &&& metrics.average_search_time_ms is Some
            &&& metrics.average_search_time_ms->0.total_ms == total_time(searches)
            &&& metrics.average_search_time_ms->0.searches == searches.len()
        }),
    decreases searches.len(),
{
    let start = SearchEngineModel::initial(config, now);
    let shorter = searches.drop_last();
    let last = searches.last();
    let before = after_finished(start, shorter);
    assert(answered_by_cache(searches) == if last.2 {
        answered_by_cache(shorter).push(last)
    } else {
        answered_by_cache(shorter)
    }) by {
        reveal(Seq::filter);
    }
    assert(total_time(searches) == total_time(shorter) + last.1) by {
        reveal(Seq::fold_left);
    }
    if shorter.len() == 0 {
        let one = start.metrics.total_searches + 1;
        assert(before == start);
        assert(last.1 * one == last.1) by (nonlinear_arith)
            requires
                one == 1,
        ;
        assert(answered_by_cache(shorter).len() == 0) by {
            reveal(Seq::filter);
        }
        assert(total_time(shorter) == 0) by {
            reveal(Seq::fold_left);
        }
    } else {
        law_searches_of_both_kinds_add_up(config, now, shorter);
    }
    assert(answered_by_cache(shorter).len() <= shorter.len()) by {
        shorter.lemma_filter_len(|search: (RequestModel, u64, bool)| search.2);
    }
    lemma_metrics_stay_well_formed(start, shorter);
    law_finished_search_is_counted(before, last.0, last.1, last.2);
}

/// Over any searches of a new engine the recent searches are the last ten that
/// were to be remembered, the newest first.
pub proof fn law_remembered_searches_are_the_newest(
    config: ConfigModel,
    now: u64,
    searches: Seq<(RequestModel, u64, bool)>,
)
    ensures
        ({
            let recent = after_finished(
                SearchEngineModel::initial(config, now),
                searches,
            ).recent_activity.recent_searches;
            let asked = remembered(searches);
            &&& recent.len() == if asked.len() < 10 {
                asked.len()
            } else {
                10
            }
            &&& forall|i: int|
                0 <= i < recent.len() ==> #[trigger] recent[i] == asked[asked.len() - 1
                    - i].0.query
        }),
    decreases searches.len(),
{
    let start = SearchEngineModel::initial(config, now);
    if searches.len() == 0 {
        assert(remembered(searches).len() == 0) by {
            reveal(Seq::filter);
        }
    } else {
        let shorter = searches.drop_last();
        let last = searches.last();
        let before = after_finished(start, shorter);
        law_remembered_searches_are_the_newest(config, now, shorter);
        law_finished_search_is_remembered(before, last.0, last.1, last.2);
        assert(remembered(searches) == if last.0.extensions is None && last.0.query.len() > 0 {
            remembered(shorter).push(last)
        } else {
            remembered(shorter)
        }) by {
            reveal(Seq::filter);
        }
        let old = before.recent_activity.recent_searches;
        let new = after_finished(start, searches).recent_activity.recent_searches;
        let asked = remembered(searches);
        assert forall|i: int| 0 <= i < new.len() implies #[trigger] new[i] == asked[asked.len() - 1
            - i].0.query by {
            if last.0.extensions is None && last.0.query.len() > 0 {
                if i > 0 {
                    assert(new[i] == old[i - 1]);
                }
            } else {
                assert(new[i] == old[i]);
            }
        }
    }
}

proof fn lemma_metrics_stay_well_formed(
    before: SearchEngineModel,
    searches: Seq<(RequestModel, u64, bool)>,
)
    requires
        before.metrics.wf(),
        before.metrics.cache_hits <= before.metrics.total_searches,
        before.metrics.total_searches + searches.len() < usize::MAX,
    ensures
        after_finished(before, searches).metrics.wf(),
        after_finished(before, searches).metrics.total_searches
            == before.metrics.total_searches + searches.len(),
        after_finished(before, searches).metrics.cache_hits <= after_finished(
            before,
            searches,
        ).metrics.total_searches,
    decreases searches.len(),
{
    if searches.len() > 0 {
        lemma_metrics_stay_well_formed(before, searches.drop_last());
        crate::metrics::lemma_total_fits(
            after_finished(before, searches.drop_last()).metrics,
            searches.last().1,
        );
    }
}

/// A change of the configuration takes over the whole of it and the current
/// directory, and leaves everything else.
pub proof fn law_configuration_is_taken_over(
    before: SearchEngineModel,
    config: ConfigModel,
    directory: Option<Seq<char>>,
    now: u64,
)
    ensures
        ({
            let after = before.configured(config, directory, now);
            &&& after.config == config
            &&& after.current_directory == directory
            &&& after.last_updated == now
            &&& after.status == before.status
            &&& after.index_folder == before.index_folder
            &&& after.progress == before.progress
            &&& after.metrics == before.metrics
            &&& after.recent_activity == before.recent_activity
        }),
{
}

/// A stop leaves the engine cancelled and everything else as it was.
pub proof fn law_stop_changes_only_the_status(before: SearchEngineModel, now: u64)
    ensures
        ({
            let after = before.cancelled(now);
            &&& after.status == SearchEngineStatus::Cancelled
            &&& after.last_updated == now
            &&& after.index_folder == before.index_folder
            &&& after.progress == before.progress
            &&& after.metrics == before.metrics
            &&& after.config == before.config
            &&& after.recent_activity == before.recent_activity
            &&& after.current_directory == before.current_directory
        }),
{
}

/// What is shown of a state is what it holds, with the statistics of the
/// index: of two states that differ in what is shown, different things are
/// shown.
pub proof fn law_info_shows_the_state(state: SearchEngineModel, stats: EngineStatsSerializable)
    ensures
        ({
            let info = state.info(stats);
            &&& info.status == state.status
            &&& info.progress.files_discovered == state.progress.files_discovered
            &&& info.progress.files_indexed == state.progress.files_indexed
            &&& info.progress.percentage_complete == state.progress.percentage_complete
            &&& info.progress.current_path == state.progress.current_path
            &&& info.progress.start_time == state.progress.start_time
            &&& info.progress.estimated_time_remaining == state.progress.estimated_time_remaining
            &&& info.metrics.last_indexing_duration_ms == state.metrics.last_indexing_duration_ms
            &&& info.metrics.average_search_time_ms == state.metrics.average_search_time_ms
            &&& info.metrics.cache_hit_rate == state.metrics.cache_hit_rate
            &&& info.metrics.total_searches == state.metrics.total_searches
            &&& info.metrics.cache_hits == state.metrics.cache_hits
            &&& info.recent_activity.recent_searches == state.recent_activity.recent_searches
            &&& info.recent_activity.most_accessed_paths
                == state.recent_activity.most_accessed_paths
            &&& info.stats.cache_size == stats.cache_size
            &&& info.stats.trie_size == stats.trie_size
            &&& info.last_updated == state.last_updated
        }),
{
}

/// What is shown after a batch was recorded are the counts of that batch, its
/// percentage and its estimate.
pub proof fn law_info_after_a_batch_shows_it(
    before: SearchEngineModel,
    stats: EngineStatsSerializable,
    indexed: usize,
    total: usize,
    read: u64,
    now: u64,
)
    requires
        before.progress.start_time matches Some(start) ==> start <= read,
    ensures
        ({
            let info = before.after_batch(indexed, total, read, now).info(stats);
            &&& info.status == before.status
            &&& info.progress.files_indexed == indexed
            &&& info.progress.files_discovered == total
            &&& total > 0 ==> info.progress.percentage_complete == (Completion::Indexed {
                indexed,
                total,
            })
            &&& total == 0 ==> info.progress.percentage_complete == Completion::Zero
            &&& info.progress.start_time == before.progress.start_time
            &&& estimate_follows(before.progress, info.progress, indexed, total, read)
            &&& info.last_updated == now
        }),
{
    law_batch_is_shown(before, indexed, total, read, now);
    law_info_shows_the_state(before.after_batch(indexed, total, read, now), stats);
}

/// A run under a configuration leaves out every path in which any of its
/// patterns stands, whatever happens in the run; and where it goes undisturbed
/// over a tree and the limit of files is kept, it puts every other path into
/// the index that a directory lists which is not too deep below the root.
pub proof fn law_every_pattern_of_the_configuration_counts(
    config: ConfigModel,
    tree: walk_laws::Tree,
    root: Seq<char>,
    chunk_size: usize,
    events: Seq<EventModel>,
    path: Seq<char>,
)
    requires
        run_laws::in_order(RunModel::initial(root, config.patterns(), chunk_size), events),
    ensures
        ({
            let start = RunModel::initial(root, config.patterns(), chunk_size);
            let added = run_laws::all_added(start, events);
            let excluded = match config.excluded_patterns {
                Some(list) => exists|k: int, before: Seq<char>, after: Seq<char>|
                    0 <= k < list.len() && path == #[trigger] (before + list[k] + after),
                None => false,
            };
            &&& start.excluded_patterns == match config.excluded_patterns {
                Some(list) => list,
                None => Seq::empty(),
            }
            &&& excluded ==> !added.contains(path)
            &&& !excluded && walk_laws::undisturbed(tree, start, events) && run_laws::state_after(
                start,
                events,
            ).discovered <= 500000 ==> (added.contains(path) <==> exists|
                directory: Seq<char>,
                level: nat,
            |
                {
                    &&& level < 25
                    &&& #[trigger] walk_laws::lies_at(
                        tree,
                        root,
                        config.patterns(),
                        directory,
                        level,
                    )
                    &&& walk_laws::has_entry(tree, directory, path)
                })
        }),
{
    let start = RunModel::initial(root, config.patterns(), chunk_size);
    run_laws::law_index_holds_only_kept_paths(root, config.patterns(), chunk_size, events);
    text::law_exclusion_is_by_containment(path, config.patterns());
    if walk_laws::undisturbed(tree, start, events) {
        walk_laws::law_index_holds_the_tree(
            tree,
            root,
            config.patterns(),
            chunk_size,
            events,
            path,
        );
    }
}

} // verus!
