//! State keeping for a file search engine: what the engine is doing, how far
//! an indexing operation has come, how searches perform and what was searched
//! for.
//!
//! The library decides and records; it reads no file and holds no index. The
//! index is driven from outside: operations of [`SearchEngineState`] name the
//! [`EngineCommand`]s that it has to carry out, and an [`IndexingRun`] turns
//! the events of a directory walk into the next action of the walk.
pub mod activity;
pub mod clock;
pub mod config;
pub mod engine;
pub mod laws;
pub mod metrics;
pub mod operation_laws;
pub mod progress;
pub mod run;
pub mod run_laws;
pub mod sample_paths;
pub mod search_engine;
pub mod state;
pub mod stats;
pub mod step_laws;
pub mod text;
pub mod walk_laws;

pub use activity::RecentActivity;
pub use config::{EngineSettings, RankingConfig, SearchEngineConfig, TimeSpan};
pub use engine::{EngineCommand, SearchRequest};
pub use metrics::{AverageTime, HitRate, SearchEngineMetrics};
pub use progress::{Completion, IndexingProgress, RemainingTime};
pub use run::{IndexingRun, ProgressReport, RunAction, RunEvent, RunPhase, RunStep};
pub use sample_paths::{collect_test_paths, get_test_data_path, get_test_dir_for_indexing};
pub use sample_paths::{Candidate, CollectAction, CollectEvent, CollectPhase, PathCollector};
pub use search_engine::{FolderPath, SearchEngine, SearchEngineInfo, SearchEngineStatus};
pub use state::{IndexingJob, SearchEngineState};
pub use stats::{EngineStats, EngineStatsSerializable};
