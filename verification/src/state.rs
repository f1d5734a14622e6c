//! The operations of the search engine.
//!
//! Each operation checks whether it may be carried out, records what follows
//! and names what the index has to do. Operations that stamp the state with
//! the time come in two forms: one reads the clock, the other, whose name ends
//! in `_at`, is told the time.
use crate::clock;
use crate::config::{EngineSettings, SearchEngineConfig};
use crate::engine;
use crate::engine::{CommandModel, EngineCommand, RequestModel, SearchRequest};
use crate::progress::IndexingProgress;
use crate::run::{IndexingRun, RunModel};
use crate::search_engine::{
    FolderModel, FolderPath, SearchEngine, SearchEngineInfo, SearchEngineModel, SearchEngineStatus,
};
use crate::stats::{EngineStats, EngineStatsSerializable};
use crate::text;
use vstd::prelude::*;

verus! {

/// The search engine's state, with its operations.
#[derive(Debug)]
pub struct SearchEngineState {
    pub data: SearchEngine,
}

impl View for SearchEngineState {
    type V = SearchEngineModel;

    open spec fn view(&self) -> SearchEngineModel {
        self.data@
    }
}

/// A folder to be taken into the index as a whole.
#[derive(Debug)]
pub struct IndexingJob {
    pub folder: String,
    pub excluded_patterns: Option<Vec<String>>,
}

/// The refusal of an operation by a disabled engine.
pub open spec fn disabled_in_configuration() -> Seq<char> {
    "Search engine is disabled in configuration"@
}

/// The refusal of a change of the index by a disabled engine.
pub open spec fn disabled() -> Seq<char> {
    "Search engine is disabled"@
}

/// The refusal of a folder whose path is not text.
pub open spec fn invalid_folder() -> Seq<char> {
    "Invalid folder path"@
}

/// The refusal of a search while the engine is indexing.
pub open spec fn currently_indexing() -> Seq<char> {
    "Engine is currently indexing"@
}

/// The refusal to stop what does not run.
pub open spec fn nothing_to_stop() -> Seq<char> {
    "No indexing operation in progress"@
}

/// What a refused or accepted start of indexing is answered: nothing is wrong,
/// the engine is disabled, or else the folder's path is not text.
pub open spec fn start_error(before: SearchEngineModel, folder: FolderModel) -> Option<Seq<char>> {
    if !before.enabled() {
        Some(disabled_in_configuration())
    } else if folder is Encoded {
        Some(invalid_folder())
    } else {
        None
    }
}

/// What a search is answered before it is made.
pub open spec fn search_error(before: SearchEngineModel) -> Option<Seq<char>> {
    if !before.enabled() {
        Some(disabled_in_configuration())
    } else if before.status is Indexing {
        Some(currently_indexing())
    } else {
        None
    }
}

/// A command joins the list.
fn push_command(list: &mut Vec<EngineCommand>, command: EngineCommand)
    ensures
        engine::commands(final(list)@) == engine::commands(old(list)@).push(command@),
{
    let ghost before = engine::commands(list@);
    list.push(command);
    assert(engine::commands(list@) =~= before.push(command@));
}

impl SearchEngineState {
    /// A state under the given configuration, with everything else as it is at
    /// first.
    fn save_default_search_engine_in_state(config: SearchEngineConfig, now: u64) -> (res:
        SearchEngine)
        ensures
            res@ == SearchEngineModel::initial(config@, now),
            res@.wf(),
    {
        SearchEngine::default_at(config, now)
    }

    /// A new state under the given configuration, made at `now`, and what the
    /// index is to be made with.
    pub fn new_at(config: SearchEngineConfig, now: u64) -> (res: (Self, EngineSettings))
        ensures
            res.0@ == SearchEngineModel::initial(config@, now),
            res.0@.wf(),
            res.1 == config@.engine_settings(),
    {
        let settings: EngineSettings = config.engine_settings();
        let data: SearchEngine = Self::save_default_search_engine_in_state(config, now);
        (SearchEngineState { data }, settings)
    }

    /// A new state under the given configuration, and what the index is to be
    /// made with.
    pub fn new(config: SearchEngineConfig) -> (res: (Self, EngineSettings))
        ensures
            exists|now: u64|
                clock::is_reading(now) && res.0@ == #[trigger] SearchEngineModel::initial(
                    config@,
                    now,
                ),
            res.0@.wf(),
            res.1 == config@.engine_settings(),
    {
        let now: u64 = clock::now_ms();
        Self::new_at(config, now)
    }

    /// The common part of both ways to start indexing: gives the folder's path
    /// where indexing is to go on.
    fn begin_indexing(
        &mut self,
        folder: FolderPath,
        started: u64,
        updated: u64,
        engine: &mut Vec<EngineCommand>,
    ) -> (res: Result<String, String>)
        ensures
            final(self)@ == old(self)@.indexing_started(folder@, started, updated),
            engine::commands(final(engine)@) == engine::commands(old(engine)@)
                + old(self)@.start_commands(),
            match res {
                Ok(path) => start_error(old(self)@, folder@) is None && folder@
                    == FolderModel::Text(path@),
                Err(e) => start_error(old(self)@, folder@) == Some(e@),
            },
    {
        let ghost before = engine::commands(engine@);
        let ghost state = self@;
        if !self.data.config.search_engine_enabled {
            assert(engine::commands(engine@) =~= before + state.start_commands());
            return Err("Search engine is disabled in configuration".to_owned());
        }
        if self.data.status == SearchEngineStatus::Indexing {
            push_command(engine, EngineCommand::StopIndexing);
        }
        self.data.status = SearchEngineStatus::Indexing;
        self.data.progress = IndexingProgress::default();
        self.data.progress.start_time = Some(started);
        self.data.last_updated = updated;
        push_command(engine, EngineCommand::ResetStopFlag);
        push_command(engine, EngineCommand::Clear);
        assert(engine::commands(engine@) =~= before + state.start_commands());
        match folder {
            FolderPath::Text(path) => {
                self.data.index_folder = FolderPath::Text(path.clone());
                Ok(path)
            },
            FolderPath::Encoded(bytes) => {
                self.data.index_folder = FolderPath::Encoded(bytes);
                self.data.status = SearchEngineStatus::Failed;
                Err("Invalid folder path".to_owned())
            },
        }
    }

    /// Starts indexing a folder as a whole; the start is stamped with
    /// `started`, the change of the state with `updated`.
    pub fn start_indexing_at(
        &mut self,
        folder: FolderPath,
        started: u64,
        updated: u64,
        engine: &mut Vec<EngineCommand>,
    ) -> (res: Result<IndexingJob, String>)
        ensures
            final(self)@ == old(self)@.indexing_started(folder@, started, updated),
            engine::commands(final(engine)@) == engine::commands(old(engine)@)
                + old(self)@.start_commands(),
            match res {
                Ok(job) => {
                    &&& start_error(old(self)@, folder@) is None
                    &&& folder@ == FolderModel::Text(job.folder@)
                    &&& text::opt_texts(job.excluded_patterns)
                        == old(self)@.config.excluded_patterns
                },
                Err(e) => start_error(old(self)@, folder@) == Some(e@),
            },
    {
        match self.begin_indexing(folder, started, updated, engine) {
            Ok(folder) => {
                let excluded_patterns: Option<Vec<String>> = text::clone_opt_texts(
                    &self.data.config.excluded_patterns,
                );
                Ok(IndexingJob { folder, excluded_patterns })
            },
            Err(e) => Err(e),
        }
    }

    /// Starts indexing a folder for searching. The index has to carry out the
    /// commands added to `engine`, then to take in the folder of the job;
    /// [`SearchEngineState::finish_indexing`] follows.
    pub fn start_indexing(&mut self, folder: FolderPath, engine: &mut Vec<EngineCommand>) -> (res:
        Result<IndexingJob, String>)
        ensures
            exists|started: u64, updated: u64|
                {
                    &&& clock::is_reading(started)
                    &&& clock::is_reading(updated)
                    &&& final(self)@ == #[trigger] old(self)@.indexing_started(
                        folder@,
                        started,
                        updated,
                    )
                },
            engine::commands(final(engine)@) == engine::commands(old(engine)@)
                + old(self)@.start_commands(),
            match res {
                Ok(job) => {
                    &&& start_error(old(self)@, folder@) is None
                    &&& folder@ == FolderModel::Text(job.folder@)
                    &&& text::opt_texts(job.excluded_patterns)
                        == old(self)@.config.excluded_patterns
                },
                Err(e) => start_error(old(self)@, folder@) == Some(e@),
            },
    {
        let started: u64 = clock::now_ms();
        let updated: u64 = clock::now_ms();
        self.start_indexing_at(folder, started, updated, engine)
    }

    /// Records that the folder was taken in, or that this was stopped.
    pub fn finish_indexing(&mut self, elapsed_ms: u64, stopped: bool)
        ensures
            final(self)@ == old(self)@.indexing_finished(elapsed_ms, stopped),
            old(self)@.wf() ==> final(self)@.wf(),
    {
        self.data.metrics.last_indexing_duration_ms = Some(elapsed_ms);
        if stopped {
            self.data.status = SearchEngineStatus::Cancelled;
        } else {
            self.data.status = SearchEngineStatus::Idle;
        }
    }

    /// Starts indexing a folder in chunks; the start is stamped with
    /// `started`, the change of the state with `updated`.
    pub fn start_chunked_indexing_at(
        &mut self,
        folder: FolderPath,
        chunk_size: usize,
        started: u64,
        updated: u64,
        engine: &mut Vec<EngineCommand>,
    ) -> (res: Result<IndexingRun, String>)
        ensures
            final(self)@ == old(self)@.indexing_started(folder@, started, updated),
            engine::commands(final(engine)@) == engine::commands(old(engine)@)
                + old(self)@.start_commands(),
            match res {
                Ok(run) => {
                    &&& start_error(old(self)@, folder@) is None
                    &&& run@ == RunModel::initial(
                        folder@->Text_0,
                        old(self)@.config.patterns(),
                        chunk_size,
                    )
                    &&& run@.excluded_patterns == match old(self)@.config.excluded_patterns {
                        Some(list) => list,
                        None => Seq::empty(),
                    }
                    &&& run@.chunk_size == chunk_size
                    &&& run@.wf()
                },
                Err(e) => start_error(old(self)@, folder@) == Some(e@),
            },
    {
        match self.begin_indexing(folder, started, updated, engine) {
            Ok(path) => {
                let patterns: Vec<String> = self.data.config.patterns();
                Ok(IndexingRun::new(path, patterns, chunk_size))
            },
            Err(e) => Err(e),
        }
    }

    /// Starts indexing a folder in chunks to prevent crashes with large
    /// directories. The index has to carry out the commands added to `engine`;
    /// [`SearchEngineState::begin_run`] follows, then the run step by step, and
    /// in the end [`SearchEngineState::finish_run`].
    pub fn start_chunked_indexing(
        &mut self,
        folder: FolderPath,
        chunk_size: usize,
        engine: &mut Vec<EngineCommand>,
    ) -> (res: Result<IndexingRun, String>)
        ensures
            exists|started: u64, updated: u64|
                {
                    &&& clock::is_reading(started)
                    &&& clock::is_reading(updated)
                    &&& final(self)@ == #[trigger] old(self)@.indexing_started(
                        folder@,
                        started,
                        updated,
                    )
                },
            engine::commands(final(engine)@) == engine::commands(old(engine)@)
                + old(self)@.start_commands(),
            match res {
                Ok(run) => {
                    &&& start_error(old(self)@, folder@) is None
                    &&& run@ == RunModel::initial(
                        folder@->Text_0,
                        old(self)@.config.patterns(),
                        chunk_size,
                    )
                    &&& run@.excluded_patterns == match old(self)@.config.excluded_patterns {
                        Some(list) => list,
                        None => Seq::empty(),
                    }
                    &&& run@.chunk_size == chunk_size
                    &&& run@.wf()
                },
                Err(e) => start_error(old(self)@, folder@) == Some(e@),
            },
    {
        let started: u64 = clock::now_ms();
        let updated: u64 = clock::now_ms();
        self.start_chunked_indexing_at(folder, chunk_size, started, updated, engine)
    }

    /// Records, at `now`, that an indexing run over `folder` begins.
    pub fn begin_run_at(&mut self, folder: String, now: u64)
        ensures
            final(self)@ == old(self)@.run_began(folder@, now),
    {
        self.data.progress.restart(folder);
        self.data.last_updated = now;
    }

    /// Records that an indexing run over `folder` begins.
    pub fn begin_run(&mut self, folder: String)
        ensures
            exists|now: u64|
                clock::is_reading(now) && final(self)@ == #[trigger] old(self)@.run_began(
                    folder@,
                    now,
                ),
    {
        let now: u64 = clock::now_ms();
        self.begin_run_at(folder, now);
    }

    /// Records, at `now`, that an indexing run is over.
    pub fn finish_run_at(&mut self, run: &IndexingRun, elapsed_ms: u64, stopped: bool, now: u64)
        ensures
            final(self)@ == old(self)@.run_finished(
                elapsed_ms,
                stopped,
                run@.indexed,
                run@.discovered,
                now,
            ),
            old(self)@.wf() ==> final(self)@.wf(),
    {
        self.finish_indexing(elapsed_ms, stopped);
        if !stopped {
            self.data.progress.finish(run.indexed_files(), run.discovered_files());
            self.data.last_updated = now;
        }
    }

    /// Records that an indexing run is over. `stopped` tells whether the index
    /// was asked to stop.
    pub fn finish_run(&mut self, run: &IndexingRun, elapsed_ms: u64, stopped: bool)
        ensures
            exists|now: u64|
                clock::is_reading(now) && final(self)@ == #[trigger] old(self)@.run_finished(
                    elapsed_ms,
                    stopped,
                    run@.indexed,
                    run@.discovered,
                    now,
                ),
            old(self)@.wf() ==> final(self)@.wf(),
    {
        let now: u64 = clock::now_ms();
        self.finish_run_at(run, elapsed_ms, stopped, now);
    }

    /// Records, at `now`, the counts of a walk that is still discovering files.
    pub fn update_progress_safely_at(
        &mut self,
        discovered: usize,
        indexed: usize,
        current_path: Option<String>,
        now: u64,
    )
        ensures
            final(self)@ == old(self)@.reported(
                discovered,
                indexed,
                text::opt_text(current_path),
                now,
            ),
    {
        self.data.progress.report(discovered, indexed, current_path);
        self.data.last_updated = now;
    }

    /// Records the counts of a walk that is still discovering files.
    pub fn update_progress_safely(
        &mut self,
        discovered: usize,
        indexed: usize,
        current_path: Option<String>,
    )
        ensures
            exists|now: u64|
                clock::is_reading(now) && final(self)@ == #[trigger] old(self)@.reported(
                    discovered,
                    indexed,
                    text::opt_text(current_path),
                    now,
                ),
    {
        let now: u64 = clock::now_ms();
        self.update_progress_safely_at(discovered, indexed, current_path, now);
    }

    /// Records that `indexed` of `total` files are in the index; the clock read
    /// `read` for the time elapsed and `now` for the change of the state.
    pub fn record_batch_at(&mut self, indexed: usize, total: usize, read: u64, now: u64)
        requires
            old(self)@.progress.clock_ok(read),
        ensures
            final(self)@ == old(self)@.after_batch(indexed, total, read, now),
            final(self).data.progress.files_indexed == indexed,
            final(self).data.progress.files_discovered == total,
            final(self).data.last_updated == now,
    {
        self.data.progress.record_batch(indexed, total, read);
        self.data.last_updated = now;
    }

    /// Records that `indexed` of `total` files are in the index, unless the
    /// clock, which read `read`, has fallen behind the start of the operation:
    /// then nothing is recorded, which the result tells.
    pub fn try_record_batch_at(&mut self, indexed: usize, total: usize, read: u64, now: u64) -> (
        recorded: bool)
        ensures
            recorded == old(self)@.progress.clock_ok(read),
            recorded ==> final(self)@ == old(self)@.after_batch(indexed, total, read, now),
            !recorded ==> final(self)@ == old(self)@,
    {
        if !self.data.progress.clock_is_ok(read) {
            return false;
        }
        self.record_batch_at(indexed, total, read, now);
        true
    }

    /// Records that `indexed` of `total` files are in the index, by the clock
    /// as it stands. Where that has fallen behind the start of the operation
    /// nothing is recorded, which the result tells.
    pub fn record_batch(&mut self, indexed: usize, total: usize) -> (recorded: bool)
        ensures
            exists|read: u64, now: u64|
                {
                    let after = #[trigger] old(self)@.after_batch(indexed, total, read, now);
                    &&& clock::is_reading(read)
                    &&& clock::is_reading(now)
                    &&& recorded == old(self)@.progress.clock_ok(read)
                    &&& final(self)@ == if recorded {
                        after
                    } else {
                        old(self)@
                    }
                },
    {
        let read: u64 = clock::now_ms();
        let now: u64 = clock::now_ms();
        self.try_record_batch_at(indexed, total, read, now)
    }

    /// Records the counts as the indexer states them; the clock read `read` for
    /// the time elapsed and `now` for the change of the state.
    pub fn update_indexing_progress_at(
        &mut self,
        indexed: usize,
        total: usize,
        current_path: Option<String>,
        read: u64,
        now: u64,
    )
        requires
            old(self)@.progress.clock_ok(read),
        ensures
            final(self)@ == old(self)@.progress_updated(
                indexed,
                total,
                text::opt_text(current_path),
                read,
                now,
            ),
    {
        self.data.progress.update(indexed, total, current_path, read);
        self.data.last_updated = now;
    }

    /// Records the counts as the indexer states them, unless the clock, which
    /// read `read`, has fallen behind the start of the operation: then nothing
    /// is recorded, which the result tells.
    pub fn try_update_indexing_progress_at(
        &mut self,
        indexed: usize,
        total: usize,
        current_path: Option<String>,
        read: u64,
        now: u64,
    ) -> (recorded: bool)
        ensures
            recorded == old(self)@.progress.clock_ok(read),
            recorded ==> final(self)@ == old(self)@.progress_updated(
                indexed,
                total,
                text::opt_text(current_path),
                read,
                now,
            ),
            !recorded ==> final(self)@ == old(self)@,
    {
        if !self.data.progress.clock_is_ok(read) {
            return false;
        }
        self.update_indexing_progress_at(indexed, total, current_path, read, now);
        true
    }

    /// Records the counts as the indexer states them, by the clock as it
    /// stands. Where that has fallen behind the start of the operation nothing
    /// is recorded, which the result tells.
    pub fn update_indexing_progress(
        &mut self,
        indexed: usize,
        total: usize,
        current_path: Option<String>,
    ) -> (recorded: bool)
        ensures
            exists|read: u64, now: u64|
                {
                    let after = #[trigger] old(self)@.progress_updated(
                        indexed,
                        total,
                        text::opt_text(current_path),
                        read,
                        now,
                    );
                    &&& clock::is_reading(read)
                    &&& clock::is_reading(now)
                    &&& recorded == old(self)@.progress.clock_ok(read)
                    &&& final(self)@ == if recorded {
                        after
                    } else {
                        old(self)@
                    }
                },
    {
        let read: u64 = clock::now_ms();
        let now: u64 = clock::now_ms();
        self.try_update_indexing_progress_at(indexed, total, current_path, read, now)
    }

    /// Admits a search at `now`, or refuses it.
    fn admit_search(&mut self, now: u64) -> (res: Result<(), String>)
        ensures
            match res {
                Ok(()) => search_error(old(self)@) is None && final(self)@ == old(
                    self,
                )@.searching(now),
                Err(e) => search_error(old(self)@) == Some(e@) && final(self)@ == old(self)@,
            },
    {
        if !self.data.config.search_engine_enabled {
            return Err("Search engine is disabled in configuration".to_owned());
        }
        if self.data.status == SearchEngineStatus::Indexing {
            return Err("Engine is currently indexing".to_owned());
        }
        self.data.status = SearchEngineStatus::Searching;
        self.data.last_updated = now;
        Ok(())
    }

    /// Admits a search for `query` at `now`, or refuses it.
    pub fn search_at(&mut self, query: &str, now: u64) -> (res: Result<SearchRequest, String>)
        ensures
            match res {
                Ok(request) => {
                    &&& search_error(old(self)@) is None
                    &&& final(self)@ == old(self)@.searching(now)
                    &&& request@ == RequestModel { query: query@, extensions: None }
                },
                Err(e) => search_error(old(self)@) == Some(e@) && final(self)@ == old(self)@,
            },
    {
        match self.admit_search(now) {
            Ok(()) => Ok(SearchRequest { query: query.to_owned(), extensions: None }),
            Err(e) => Err(e),
        }
    }

    /// Admits a search for `query`, or refuses it. The index has to carry out
    /// the commands of the request; [`SearchEngineState::finish_search`]
    /// follows.
    pub fn search(&mut self, query: &str) -> (res: Result<SearchRequest, String>)
        ensures
            match res {
                Ok(request) => {
                    &&& search_error(old(self)@) is None
                    &&& exists|now: u64|
                        clock::is_reading(now) && final(self)@ == #[trigger] old(self)@.searching(now)
                    &&& request@ == RequestModel { query: query@, extensions: None }
                },
                Err(e) => search_error(old(self)@) == Some(e@) && final(self)@ == old(self)@,
            },
    {
        let now: u64 = clock::now_ms();
        self.search_at(query, now)
    }

    /// Admits a search for `query` with extensions of its own at `now`, or
    /// refuses it.
    pub fn search_by_extension_at(&mut self, query: &str, extensions: Vec<String>, now: u64) -> (res:
        Result<SearchRequest, String>)
        ensures
            match res {
                Ok(request) => {
                    &&& search_error(old(self)@) is None
                    &&& final(self)@ == old(self)@.searching(now)
                    &&& request@ == RequestModel {
                        query: query@,
                        extensions: Some(text::texts(extensions@)),
                    }
                },
                Err(e) => search_error(old(self)@) == Some(e@) && final(self)@ == old(self)@,
            },
    {
        match self.admit_search(now) {
            Ok(()) => Ok(SearchRequest { query: query.to_owned(), extensions: Some(extensions) }),
            Err(e) => Err(e),
        }
    }

    /// Admits a search for `query` that prefers `extensions`, or refuses it.
    /// The index has to carry out the commands of the request;
    /// [`SearchEngineState::finish_search`] follows.
    pub fn search_by_extension(&mut self, query: &str, extensions: Vec<String>) -> (res: Result<
        SearchRequest,
        String,
    >)
        ensures
            match res {
                Ok(request) => {
                    &&& search_error(old(self)@) is None
                    &&& exists|now: u64|
                        clock::is_reading(now) && final(self)@ == #[trigger] old(self)@.searching(now)
                    &&& request@ == RequestModel {
                        query: query@,
                        extensions: Some(text::texts(extensions@)),
                    }
                },
                Err(e) => search_error(old(self)@) == Some(e@) && final(self)@ == old(self)@,
            },
    {
        let now: u64 = clock::now_ms();
        self.search_by_extension_at(query, extensions, now)
    }

    /// Records a search that took `ms` and that the cache answered or not.
    pub fn finish_search(&mut self, request: &SearchRequest, ms: u64, cache_hit: bool)
        requires
            old(self)@.metrics.wf(),
            old(self)@.metrics.has_room(cache_hit),
        ensures
            final(self)@ == old(self)@.searched(request@, ms, cache_hit),
            final(self).data.metrics.total_searches == old(self).data.metrics.total_searches + 1,
            final(self).data.metrics.cache_hits == old(self).data.metrics.cache_hits + if cache_hit {
                1int
            } else {
                0
            },
            final(self)@.metrics.wf(),
            old(self)@.wf() ==> final(self)@.wf(),
    {
        self.data.metrics.record_search(ms, cache_hit);
        if request.extensions.is_none() {
            self.data.recent_activity.record_search(request.query.as_str());
        }
        self.data.status = SearchEngineStatus::Idle;
    }

    /// The statistics of the index, as they are shown.
    pub fn get_stats(&self, stats: EngineStats) -> (res: EngineStatsSerializable)
        ensures
            res.cache_size == stats.cache_size,
            res.trie_size == stats.trie_size,
    {
        EngineStatsSerializable::from(stats)
    }

    /// All that is shown of the search engine, with the statistics of its
    /// index.
    pub fn get_search_engine_info(&self, stats: EngineStats) -> (info: SearchEngineInfo)
        ensures
            info@ == self@.info(
                EngineStatsSerializable { cache_size: stats.cache_size, trie_size: stats.trie_size },
            ),
            info.status == self.data.status,
            info.progress@ == self.data.progress@,
            info.progress.files_discovered == self.data.progress.files_discovered,
            info.progress.files_indexed == self.data.progress.files_indexed,
            info.progress.percentage_complete == self.data.progress.percentage_complete,
            info.metrics == self.data.metrics,
            info.recent_activity@ == self.data.recent_activity@,
            info.stats.cache_size == stats.cache_size,
            info.stats.trie_size == stats.trie_size,
            info.last_updated == self.data.last_updated,
    {
        SearchEngineInfo {
            status: self.data.status,
            progress: self.data.progress.clone(),
            metrics: self.data.metrics,
            recent_activity: self.data.recent_activity.clone(),
            stats: self.get_stats(stats),
            last_updated: self.data.last_updated,
        }
    }

    /// Takes over a configuration and a current directory at `now`.
    pub fn update_config_at(
        &mut self,
        config: SearchEngineConfig,
        path: Option<String>,
        now: u64,
        engine: &mut Vec<EngineCommand>,
    )
        ensures
            final(self)@ == old(self)@.configured(config@, text::opt_text(path), now),
            engine::commands(final(engine)@) == engine::commands(old(engine)@).push(
                CommandModel::SetPreferredExtensions(config@.preferred_extensions),
            ),
    {
        let extensions: Vec<String> = text::clone_texts(&config.preferred_extensions);
        self.data.config = config;
        self.data.last_updated = now;
        self.data.current_directory = path;
        push_command(engine, EngineCommand::SetPreferredExtensions(extensions));
    }

    /// Takes over a configuration and a current directory.
    pub fn update_config(
        &mut self,
        config: SearchEngineConfig,
        path: Option<String>,
        engine: &mut Vec<EngineCommand>,
    )
        ensures
            exists|now: u64|
                clock::is_reading(now) && final(self)@ == #[trigger] old(self)@.configured(
                    config@,
                    text::opt_text(path),
                    now,
                ),
            engine::commands(final(engine)@) == engine::commands(old(engine)@).push(
                CommandModel::SetPreferredExtensions(config@.preferred_extensions),
            ),
    {
        let now: u64 = clock::now_ms();
        self.update_config_at(config, path, now, engine);
    }

    /// Has the index take up a path, unless the configuration excludes it.
    pub fn add_path(&self, path: &str, engine: &mut Vec<EngineCommand>) -> (res: Result<(), String>)
        ensures
            match res {
                Ok(()) => self@.enabled() && engine::commands(final(engine)@) == engine::commands(
                    old(engine)@,
                ).push(
                    CommandModel::AddPath {
                        path: path@,
                        excluded_patterns: self@.config.excluded_patterns,
                    },
                ),
                Err(e) => !self@.enabled() && e@ == disabled() && final(engine)@ == old(engine)@,
            },
    {
        if !self.data.config.search_engine_enabled {
            return Err("Search engine is disabled".to_owned());
        }
        let excluded_patterns: Option<Vec<String>> = text::clone_opt_texts(
            &self.data.config.excluded_patterns,
        );
        push_command(engine, EngineCommand::AddPath { path: path.to_owned(), excluded_patterns });
        Ok(())
    }

    /// Has the index remove a path.
    pub fn remove_path(&self, path: &str, engine: &mut Vec<EngineCommand>) -> (res: Result<
        (),
        String,
    >)
        ensures
            match res {
                Ok(()) => self@.enabled() && engine::commands(final(engine)@) == engine::commands(
                    old(engine)@,
                ).push(CommandModel::RemovePath(path@)),
                Err(e) => !self@.enabled() && e@ == disabled() && final(engine)@ == old(engine)@,
            },
    {
        if !self.data.config.search_engine_enabled {
            return Err("Search engine is disabled".to_owned());
        }
        push_command(engine, EngineCommand::RemovePath(path.to_owned()));
        Ok(())
    }

    /// Has the index remove a path and all that lies below it.
    pub fn remove_paths_recursive(&self, path: &str, engine: &mut Vec<EngineCommand>) -> (res:
        Result<(), String>)
        ensures
            match res {
                Ok(()) => self@.enabled() && engine::commands(final(engine)@) == engine::commands(
                    old(engine)@,
                ).push(CommandModel::RemovePathsRecursive(path@)),
                Err(e) => !self@.enabled() && e@ == disabled() && final(engine)@ == old(engine)@,
            },
    {
        if !self.data.config.search_engine_enabled {
            return Err("Search engine is disabled".to_owned());
        }
        push_command(engine, EngineCommand::RemovePathsRecursive(path.to_owned()));
        Ok(())
    }

    /// Stops, at `now`, the indexing operation that runs.
    pub fn stop_indexing_at(&mut self, now: u64, engine: &mut Vec<EngineCommand>) -> (res: Result<
        (),
        String,
    >)
        ensures
            match res {
                Ok(()) => {
                    &&& old(self)@.status is Indexing
                    &&& final(self)@ == old(self)@.cancelled(now)
                    &&& engine::commands(final(engine)@) == engine::commands(old(engine)@).push(
                        CommandModel::StopIndexing,
                    )
                },
                Err(e) => {
                    &&& !(old(self)@.status is Indexing)
                    &&& e@ == nothing_to_stop()
                    &&& final(self)@ == old(self)@
                    &&& final(engine)@ == old(engine)@
                },
            },
    {
        if self.data.status == SearchEngineStatus::Indexing {
            self.data.status = SearchEngineStatus::Cancelled;
            self.data.last_updated = now;
            push_command(engine, EngineCommand::StopIndexing);
            return Ok(());
        }
        Err("No indexing operation in progress".to_owned())
    }

    /// Stops the indexing operation that runs.
    pub fn stop_indexing(&mut self, engine: &mut Vec<EngineCommand>) -> (res: Result<(), String>)
        ensures
            match res {
                Ok(()) => {
                    &&& old(self)@.status is Indexing
                    &&& exists|now: u64|
                        clock::is_reading(now) && final(self)@ == #[trigger] old(self)@.cancelled(now)
                    &&& engine::commands(final(engine)@) == engine::commands(old(engine)@).push(
                        CommandModel::StopIndexing,
                    )
                },
                Err(e) => {
                    &&& !(old(self)@.status is Indexing)
                    &&& e@ == nothing_to_stop()
                    &&& final(self)@ == old(self)@
                    &&& final(engine)@ == old(engine)@
                },
            },
    {
        let now: u64 = clock::now_ms();
        self.stop_indexing_at(now, engine)
    }

    /// Stops the indexing operation that runs, under another name.
    pub fn cancel_indexing(&mut self, engine: &mut Vec<EngineCommand>) -> (res: Result<(), String>)
        ensures
            match res {
                Ok(()) => {
                    &&& old(self)@.status is Indexing
                    &&& exists|now: u64|
                        clock::is_reading(now) && final(self)@ == #[trigger] old(self)@.cancelled(now)
                    &&& engine::commands(final(engine)@) == engine::commands(old(engine)@).push(
                        CommandModel::StopIndexing,
                    )
                },
                Err(e) => {
                    &&& !(old(self)@.status is Indexing)
                    &&& e@ == nothing_to_stop()
                    &&& final(self)@ == old(self)@
                    &&& final(engine)@ == old(engine)@
                },
            },
    {
        self.stop_indexing(engine)
    }
}

/// What the specifications say of the state they say of its data.
pub proof fn law_state_is_its_data(state: SearchEngineState)
    ensures
        state@ == state.data@,
{
}

} // verus!
