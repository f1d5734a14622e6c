//! The state of the search engine.
use crate::activity::{ActivityModel, RecentActivity};
use crate::clock;
use crate::config::{ConfigModel, SearchEngineConfig};
use crate::engine::CommandModel;
use crate::metrics::SearchEngineMetrics;
use crate::progress::{IndexingProgress, ProgressModel};
use crate::stats::EngineStatsSerializable;
use crate::text;
use vstd::prelude::*;

verus! {

/// Current operational status of the search engine.
#[derive(Debug, Clone, Copy, PartialEq, Eq, Structural)]
pub enum SearchEngineStatus {
    Idle,
    Indexing,
    Searching,
    Cancelled,
    Failed,
}

/// The path of a folder.
#[derive(Debug)]
pub enum FolderPath {
    /// A path that is Unicode text.
    Text(String),
    /// A path that is not, in the bytes of its platform.
    Encoded(Vec<u8>),
}

/// The contents of a [`FolderPath`].
pub enum FolderModel {
    Text(Seq<char>),
    Encoded(Seq<u8>),
}

impl View for FolderPath {
    type V = FolderModel;

    open spec fn view(&self) -> FolderModel {
        match *self {
            FolderPath::Text(path) => FolderModel::Text(path@),
            FolderPath::Encoded(bytes) => FolderModel::Encoded(bytes@),
        }
    }
}

/// Complete search engine state including both configuration and runtime data.
#[derive(Debug)]
pub struct SearchEngine {
    pub status: SearchEngineStatus,
    pub index_folder: FolderPath,
    pub progress: IndexingProgress,
    pub metrics: SearchEngineMetrics,
    pub config: SearchEngineConfig,
    pub recent_activity: RecentActivity,
    pub current_directory: Option<String>,
    /// As milliseconds since the Unix epoch.
    pub last_updated: u64,
}

/// The contents of a [`SearchEngine`].
pub struct SearchEngineModel {
    pub status: SearchEngineStatus,
    pub index_folder: FolderModel,
    pub progress: ProgressModel,
    pub metrics: SearchEngineMetrics,
    pub config: ConfigModel,
    pub recent_activity: ActivityModel,
    pub current_directory: Option<Seq<char>>,
    pub last_updated: u64,
}

impl View for SearchEngine {
    type V = SearchEngineModel;

    open spec fn view(&self) -> SearchEngineModel {
        SearchEngineModel {
            status: self.status,
            index_folder: self.index_folder@,
            progress: self.progress@,
            metrics: self.metrics,
            config: self.config@,
            recent_activity: self.recent_activity@,
            current_directory: text::opt_text(self.current_directory),
            last_updated: self.last_updated,
        }
    }
}

/// Comprehensive information about the search engine's current state.
#[derive(Debug)]
pub struct SearchEngineInfo {
    pub status: SearchEngineStatus,
    pub progress: IndexingProgress,
    pub metrics: SearchEngineMetrics,
    pub recent_activity: RecentActivity,
    pub stats: EngineStatsSerializable,
    pub last_updated: u64,
}

/// The contents of a [`SearchEngineInfo`].
pub struct InfoModel {
    pub status: SearchEngineStatus,
    pub progress: ProgressModel,
    pub metrics: SearchEngineMetrics,
    pub recent_activity: ActivityModel,
    pub stats: EngineStatsSerializable,
    pub last_updated: u64,
}

impl View for SearchEngineInfo {
    type V = InfoModel;

    open spec fn view(&self) -> InfoModel {
        InfoModel {
            status: self.status,
            progress: self.progress@,
            metrics: self.metrics,
            recent_activity: self.recent_activity@,
            stats: self.stats,
            last_updated: self.last_updated,
        }
    }
}

impl SearchEngineModel {
    /// A search engine that has done nothing, made at `now`.
    pub open spec fn initial(config: ConfigModel, now: u64) -> SearchEngineModel {
        SearchEngineModel {
            status: SearchEngineStatus::Idle,
            index_folder: FolderModel::Text(Seq::empty()),
            progress: ProgressModel::initial(),
            metrics: SearchEngineMetrics::initial(),
            config,
            recent_activity: ActivityModel::initial(),
            current_directory: None,
            last_updated: now,
        }
    }

    /// What holds of the state at all times: the average search time is over
    /// the searches counted, and the recent searches are not too many.
    pub open spec fn wf(self) -> bool {
        self.metrics.wf() && self.recent_activity.wf()
    }

    pub open spec fn enabled(self) -> bool {
        self.config.search_engine_enabled
    }

    /// The state after a request to index `folder`. A disabled engine ignores
    /// it; a folder whose path is not text makes it fail.
    pub open spec fn indexing_started(
        self,
        folder: FolderModel,
        started: u64,
        updated: u64,
    ) -> SearchEngineModel {
        if self.enabled() {
            SearchEngineModel {
                status: if folder is Text {
                    SearchEngineStatus::Indexing
                } else {
                    SearchEngineStatus::Failed
                },
                index_folder: folder,
                progress: ProgressModel::started(started),
                last_updated: updated,
                ..self
            }
        } else {
            self
        }
    }

    /// What the index has to do before it takes in another folder: stop where
    /// it is taking one in, forget that it was to stop, and become empty.
    pub open spec fn start_commands(self) -> Seq<CommandModel> {
        if !self.enabled() {
            Seq::empty()
        } else if self.status is Indexing {
            seq![CommandModel::StopIndexing, CommandModel::ResetStopFlag, CommandModel::Clear]
        } else {
            seq![CommandModel::ResetStopFlag, CommandModel::Clear]
        }
    }

    /// The state once a folder is taken in, or once that was stopped.
    pub open spec fn indexing_finished(self, elapsed_ms: u64, stopped: bool) -> SearchEngineModel {
        SearchEngineModel {
            status: if stopped {
                SearchEngineStatus::Cancelled
            } else {
                SearchEngineStatus::Idle
            },
            metrics: SearchEngineMetrics {
                last_indexing_duration_ms: Some(elapsed_ms),
                ..self.metrics
            },
            ..self
        }
    }

    /// The state when an indexing run begins.
    pub open spec fn run_began(self, folder: Seq<char>, now: u64) -> SearchEngineModel {
        SearchEngineModel {
            progress: self.progress.restarted(folder),
            last_updated: now,
            ..self
        }
    }

    /// The state once an indexing run is over. One that was not stopped leaves
    /// its counts.
    pub open spec fn run_finished(
        self,
        elapsed_ms: u64,
        stopped: bool,
        indexed: usize,
        discovered: usize,
        now: u64,
    ) -> SearchEngineModel {
        let finished = self.indexing_finished(elapsed_ms, stopped);
        if stopped {
            finished
        } else {
            SearchEngineModel {
                progress: self.progress.finished(indexed, discovered),
                last_updated: now,
                ..finished
            }
        }
    }

    /// The state after a report of an indexing run.
    pub open spec fn reported(
        self,
        discovered: usize,
        indexed: usize,
        path: Option<Seq<char>>,
        now: u64,
    ) -> SearchEngineModel {
        SearchEngineModel {
            progress: self.progress.reported(discovered, indexed, path),
            last_updated: now,
            ..self
        }
    }

    /// The state after paths went into the index: read at `read` for the
    /// estimate of the remaining time, at `now` for the last change.
    pub open spec fn after_batch(
        self,
        indexed: usize,
        total: usize,
        read: u64,
        now: u64,
    ) -> SearchEngineModel {
        SearchEngineModel {
            progress: self.progress.after_batch(indexed, total, read),
            last_updated: now,
            ..self
        }
    }

    /// The state after the indexer stated its counts.
    pub open spec fn progress_updated(
        self,
        indexed: usize,
        total: usize,
        path: Option<Seq<char>>,
        read: u64,
        now: u64,
    ) -> SearchEngineModel {
        SearchEngineModel {
            progress: self.progress.updated(indexed, total, path, read),
            last_updated: now,
            ..self
        }
    }

    /// A search may be made: the engine is enabled and is not indexing.
    pub open spec fn admits_search(self) -> bool {
        self.enabled() && !(self.status is Indexing)
    }

    /// The state while a search is made.
    pub open spec fn searching(self, now: u64) -> SearchEngineModel {
        SearchEngineModel { status: SearchEngineStatus::Searching, last_updated: now, ..self }
    }

    /// The state after a search that took `ms`. A search that chooses its own
    /// extensions is not among the recent searches.
    pub open spec fn searched(
        self,
        request: crate::engine::RequestModel,
        ms: u64,
        cache_hit: bool,
    ) -> SearchEngineModel {
        SearchEngineModel {
            status: SearchEngineStatus::Idle,
            metrics: self.metrics.after_search(ms, cache_hit),
            recent_activity: if request.extensions is None {
                self.recent_activity.with_search(request.query)
            } else {
                self.recent_activity
            },
            ..self
        }
    }

    /// The state under another configuration.
    pub open spec fn configured(
        self,
        config: ConfigModel,
        directory: Option<Seq<char>>,
        now: u64,
    ) -> SearchEngineModel {
        SearchEngineModel { config, current_directory: directory, last_updated: now, ..self }
    }

    /// The state after indexing was cancelled.
    pub open spec fn cancelled(self, now: u64) -> SearchEngineModel {
        SearchEngineModel { status: SearchEngineStatus::Cancelled, last_updated: now, ..self }
    }

    /// What is shown of the state.
    pub open spec fn info(self, stats: EngineStatsSerializable) -> InfoModel {
        InfoModel {
            status: self.status,
            progress: self.progress,
            metrics: self.metrics,
            recent_activity: self.recent_activity,
            stats,
            last_updated: self.last_updated,
        }
    }
}

impl Clone for FolderPath {
    fn clone(&self) -> (res: Self)
        ensures
            res@ == self@,
    {
        match self {
            FolderPath::Text(path) => FolderPath::Text(path.clone()),
            FolderPath::Encoded(bytes) => {
                let copy: Vec<u8> = bytes.clone();
                assert(copy@ =~= bytes@);
                FolderPath::Encoded(copy)
            },
        }
    }
}

impl Clone for SearchEngine {
    fn clone(&self) -> (res: Self)
        ensures
            res@ == self@,
    {
        SearchEngine {
            status: self.status,
            index_folder: self.index_folder.clone(),
            progress: self.progress.clone(),
            metrics: self.metrics,
            config: self.config.clone(),
            recent_activity: self.recent_activity.clone(),
            current_directory: self.current_directory.clone(),
            last_updated: self.last_updated,
        }
    }
}

impl Clone for SearchEngineInfo {
    fn clone(&self) -> (res: Self)
        ensures
            res@ == self@,
    {
        SearchEngineInfo {
            status: self.status,
            progress: self.progress.clone(),
            metrics: self.metrics,
            recent_activity: self.recent_activity.clone(),
            stats: self.stats,
            last_updated: self.last_updated,
        }
    }
}

impl SearchEngine {
    /// A search engine that has done nothing, made at `now`.
    pub fn default_at(config: SearchEngineConfig, now: u64) -> (res: Self)
        ensures
            res@ == SearchEngineModel::initial(config@, now),
            res@.wf(),
    {
        SearchEngine {
            status: SearchEngineStatus::Idle,
            index_folder: FolderPath::Text(String::new()),
            progress: IndexingProgress::default(),
            metrics: SearchEngineMetrics::default(),
            config,
            recent_activity: RecentActivity::default(),
            current_directory: None,
            last_updated: now,
        }
    }

    /// A search engine that has done nothing, made now.
    pub fn default(config: SearchEngineConfig) -> (res: Self)
        ensures
            exists|now: u64|
                clock::is_reading(now) && res@ == #[trigger] SearchEngineModel::initial(
                    config@,
                    now,
                ),
            res@.wf(),
    {
        let now: u64 = clock::now_ms();
        Self::default_at(config, now)
    }
}

/// The state and what is shown of it stand in the specifications field by
/// field, and a folder's path as the text or the bytes that it is.
pub proof fn law_state_shows_its_fields(
    engine: SearchEngine,
    info: SearchEngineInfo,
    folder: FolderPath,
)
    ensures
        engine@.status == engine.status,
        engine@.index_folder == engine.index_folder@,
        engine@.progress == engine.progress@,
        engine@.metrics == engine.metrics,
        engine@.config == engine.config@,
        engine@.recent_activity == engine.recent_activity@,
        engine@.current_directory is Some <==> engine.current_directory is Some,
        engine.current_directory matches Some(path) ==> engine@.current_directory == Some(path@),
        engine@.last_updated == engine.last_updated,
        info@.status == info.status,
        info@.progress == info.progress@,
        info@.metrics == info.metrics,
        info@.recent_activity == info.recent_activity@,
        info@.stats == info.stats,
        info@.last_updated == info.last_updated,
        match folder {
            FolderPath::Text(path) => folder@ == FolderModel::Text(path@),
            FolderPath::Encoded(bytes) => folder@ == FolderModel::Encoded(bytes@),
        },
{
}

/// A state is in order exactly where its average search time is over the
/// searches counted and no more than ten recent searches are kept.
pub proof fn law_state_is_in_order(state: SearchEngineModel)
    ensures
        state.wf() <==> state.recent_activity.recent_searches.len() <= 10 && match
            state.metrics.average_search_time_ms {
            Some(average) => 0 < average.searches && average.searches
                == state.metrics.total_searches && average.total_ms <= average.searches * u64::MAX,
            None => true,
        },
{
}

} // verus!
