use search_engine_state::clock::{now_ms, timestamp};
use search_engine_state::text::should_exclude;
use search_engine_state::{
    collect_test_paths, get_test_data_path, get_test_dir_for_indexing, AverageTime, Candidate,
    CollectAction, CollectEvent, Completion, EngineCommand, EngineStats, EngineStatsSerializable,
    FolderPath, HitRate, IndexingProgress, IndexingRun, RankingConfig, RecentActivity,
    RemainingTime, RunAction, RunEvent, RunPhase, SearchEngine, SearchEngineConfig,
    SearchEngineMetrics, SearchEngineState, SearchEngineStatus, SearchRequest, TimeSpan,
};

/// A plain index: a list of paths, searched by substring.
struct Index {
    paths: Vec<String>,
    stop: bool,
    extensions: Vec<String>,
    answers: Vec<String>,
    searched_with: Vec<String>,
}

impl Index {
    fn new() -> Index {
        Index {
            paths: Vec::new(),
            stop: false,
            extensions: vec!["txt".to_string()],
            answers: Vec::new(),
            searched_with: Vec::new(),
        }
    }

    fn apply(&mut self, commands: Vec<EngineCommand>) {
        for command in commands {
            match command {
                EngineCommand::StopIndexing => self.stop = true,
                EngineCommand::ResetStopFlag => self.stop = false,
                EngineCommand::Clear => self.paths.clear(),
                EngineCommand::AddPath { path, excluded_patterns } => {
                    let patterns = excluded_patterns.unwrap_or_default();
                    if !patterns.iter().any(|p| path.contains(p.as_str())) {
                        self.paths.push(path);
                    }
                }
                EngineCommand::RemovePath(path) => self.paths.retain(|p| *p != path),
                EngineCommand::RemovePathsRecursive(path) => {
                    self.paths.retain(|p| !p.starts_with(path.as_str()))
                }
                EngineCommand::SetPreferredExtensions(extensions) => self.extensions = extensions,
                EngineCommand::Search(query) => {
                    self.searched_with = self.extensions.clone();
                    self.answers =
                        self.paths.iter().filter(|p| p.contains(query.as_str())).cloned().collect();
                }
            }
        }
    }
}

/// The state together with an index.
struct Fixture {
    state: SearchEngineState,
    index: Index,
}

fn enabled_config() -> SearchEngineConfig {
    SearchEngineConfig {
        search_engine_enabled: true,
        cache_size: 1000,
        max_results: 20,
        cache_ttl: None,
        ranking_config: RankingConfig { directory_ranking_boost: 10.0f32.to_bits() },
        prefer_directories: false,
        excluded_patterns: Some(vec![".git".to_string(), "node_modules".to_string()]),
        preferred_extensions: vec!["txt".to_string()],
    }
}

fn disabled_config() -> SearchEngineConfig {
    let mut config = enabled_config();
    config.search_engine_enabled = false;
    config
}

impl Fixture {
    fn new() -> Fixture {
        let (state, _) = SearchEngineState::new(enabled_config());
        Fixture { state, index: Index::new() }
    }

    fn disabled() -> Fixture {
        let (state, _) = SearchEngineState::new(disabled_config());
        Fixture { state, index: Index::new() }
    }

    fn add_path(&mut self, path: &str) -> Result<(), String> {
        let mut commands = Vec::new();
        let res = self.state.add_path(path, &mut commands);
        self.index.apply(commands);
        res
    }

    fn remove_path(&mut self, path: &str) -> Result<(), String> {
        let mut commands = Vec::new();
        let res = self.state.remove_path(path, &mut commands);
        self.index.apply(commands);
        res
    }

    fn remove_paths_recursive(&mut self, path: &str) -> Result<(), String> {
        let mut commands = Vec::new();
        let res = self.state.remove_paths_recursive(path, &mut commands);
        self.index.apply(commands);
        res
    }

    fn update_config(&mut self, path: Option<String>) {
        let mut commands = Vec::new();
        self.state.update_config(enabled_config(), path, &mut commands);
        self.index.apply(commands);
    }

    fn make(&mut self, request: SearchRequest, ms: u64, hit: bool) -> Vec<String> {
        let preferred = self.index.extensions.clone();
        self.index.apply(request.commands(preferred));
        assert!(self.state.data.metrics.can_record(hit));
        self.state.finish_search(&request, ms, hit);
        self.index.answers.clone()
    }

    fn search(&mut self, query: &str) -> Result<Vec<String>, String> {
        let request = self.state.search(query)?;
        Ok(self.make(request, 4, false))
    }

    fn search_by_extension(
        &mut self,
        query: &str,
        extensions: Vec<String>,
    ) -> Result<Vec<String>, String> {
        let request = self.state.search_by_extension(query, extensions)?;
        Ok(self.make(request, 4, false))
    }

    fn stop_indexing(&mut self) -> Result<(), String> {
        let mut commands = Vec::new();
        let res = self.state.stop_indexing(&mut commands);
        self.index.apply(commands);
        res
    }

    fn cancel_indexing(&mut self) -> Result<(), String> {
        let mut commands = Vec::new();
        let res = self.state.cancel_indexing(&mut commands);
        self.index.apply(commands);
        res
    }

    fn start_indexing(&mut self, folder: &str) -> Result<(), String> {
        let mut commands = Vec::new();
        let res = self.state.start_indexing(FolderPath::Text(folder.to_string()), &mut commands);
        self.index.apply(commands);
        let job = res?;
        let mut waiting = vec![job.folder];
        while let Some(dir) = waiting.pop() {
            for (path, is_dir) in listing(&dir) {
                self.index.paths.push(path.clone());
                if is_dir && path != dir {
                    waiting.push(path);
                }
            }
        }
        self.state.finish_indexing(12, self.index.stop);
        Ok(())
    }

    /// Indexes in chunks a tree whose directories list themselves.
    fn start_chunked_indexing(&mut self, folder: &str, chunk_size: usize) -> Result<(), String> {
        self.index_in_chunks(folder, chunk_size, with_itself, None)?;
        Ok(())
    }

    /// Indexes in chunks what the lister tells of a tree, and stops once so
    /// many groups went in.
    fn index_in_chunks(
        &mut self,
        folder: &str,
        chunk_size: usize,
        list: Lister,
        stop_after_groups: Option<usize>,
    ) -> Result<Driven, String> {
        let mut commands = Vec::new();
        let res = self.state.start_chunked_indexing(
            FolderPath::Text(folder.to_string()),
            chunk_size,
            &mut commands,
        );
        self.index.apply(commands);
        let mut run = res?;
        self.state.begin_run(folder.to_string());
        let driven =
            drive(&mut run, &mut self.index, Some(&mut self.state), list, stop_after_groups);
        self.state.finish_run(&run, 7, self.index.stop);
        Ok(driven)
    }
}

/// Lists the entries of a directory, and which of them are directories.
type Lister = fn(&str) -> Vec<(String, bool)>;

/// The entries of a directory of a small tree.
fn listing(dir: &str) -> Vec<(String, bool)> {
    let children: Vec<(&str, bool)> = match dir {
        "/data" => vec![("/data/a.txt", false), ("/data/sub", true), ("/data/.git", true)],
        "/data/sub" => vec![("/data/sub/b.txt", false), ("/data/sub/c.rs", false)],
        "/data/.git" => vec![("/data/.git/config", false)],
        _ => vec![],
    };
    children.into_iter().map(|(p, d)| (p.to_string(), d)).collect()
}

/// The same tree as a reader tells of it that begins with the directory itself.
fn with_itself(dir: &str) -> Vec<(String, bool)> {
    let mut entries = vec![(dir.to_string(), true)];
    entries.extend(listing(dir));
    entries
}

/// What a run asked for: directories to be opened and groups to be added.
struct Driven {
    opened: Vec<String>,
    groups: Vec<Vec<String>>,
}

/// Carries a run to its end; asks it to stop once so many groups went in,
/// through the state where there is one.
fn drive(
    run: &mut IndexingRun,
    index: &mut Index,
    mut state: Option<&mut SearchEngineState>,
    list: Lister,
    stop_after_groups: Option<usize>,
) -> Driven {
    let mut opened: Vec<String> = Vec::new();
    let mut groups: Vec<Vec<String>> = Vec::new();
    let mut entries: Vec<(String, bool)> = Vec::new();
    let mut step = run.step(RunEvent::Ready { stop: index.stop });
    loop {
        if let (Some(report), Some(state)) = (step.report, state.as_mut()) {
            state.update_progress_safely(report.discovered, report.indexed, Some(report.path));
        }
        let read = match step.action {
            RunAction::OpenDirectory(dir) => {
                entries = list(&dir);
                opened.push(dir);
                true
            }
            RunAction::ReadEntry => true,
            RunAction::AddPaths(paths) => {
                index.paths.extend(paths.iter().cloned());
                groups.push(paths);
                if Some(groups.len()) == stop_after_groups {
                    let mut commands = vec![EngineCommand::StopIndexing];
                    if let Some(state) = state.as_mut() {
                        commands.clear();
                        state.stop_indexing(&mut commands).unwrap();
                    }
                    index.apply(commands);
                }
                if let Some(state) = state.as_mut() {
                    assert!(state.record_batch(run.indexed_files(), run.discovered_files()));
                }
                false
            }
            RunAction::Continue { .. } => false,
            RunAction::Finished => return Driven { opened, groups },
        };
        let event = if !read {
            RunEvent::Ready { stop: index.stop }
        } else if entries.is_empty() {
            RunEvent::DirectoryEnd
        } else {
            let (path, is_dir) = entries.remove(0);
            RunEvent::Entry { stop: index.stop, path: Some(path), is_dir }
        };
        step = run.step(event);
    }
}

/// Gathers paths below `/data` and picks the directory to index.
fn test_dir() -> String {
    let paths = gather(Some(20));
    let candidates: Vec<Candidate> = paths
        .into_iter()
        .map(|path| {
            let is_dir = !listing(&path).is_empty();
            Candidate { path, is_dir }
        })
        .collect();
    get_test_dir_for_indexing(&candidates, "/data")
}

fn gather(limit: Option<usize>) -> Vec<String> {
    gather_from(listing("/data"), limit)
}

fn gather_from(root: Vec<(String, bool)>, limit: Option<usize>) -> Vec<String> {
    let (mut collector, mut action) = collect_test_paths(limit);
    let mut open: Vec<Vec<(String, bool)>> = Vec::new();
    let mut named: Option<String> = None;
    loop {
        let event = match action {
            CollectAction::Open => {
                open.push(match &named {
                    None => root.clone(),
                    Some(dir) => listing(dir),
                });
                CollectEvent::Opened { ok: true }
            }
            CollectAction::Finish => return collector.into_paths(),
            CollectAction::Read | CollectAction::Leave => {
                if action == CollectAction::Leave {
                    open.pop();
                }
                let innermost = open.last_mut().unwrap();
                if innermost.is_empty() {
                    CollectEvent::End
                } else {
                    let (path, is_dir) = innermost.remove(0);
                    named = Some(path.clone());
                    CollectEvent::Entry { path: Some(path), is_dir }
                }
            }
        };
        action = collector.step(event);
    }
}

#[test]
fn test_initialization() {
    let fixture = Fixture::new();
    assert_eq!(fixture.state.data.status, SearchEngineStatus::Idle);
}

#[test]
fn test_start_indexing() {
    let mut fixture = Fixture::new();
    let _ = fixture.start_indexing(&test_dir());
    assert!(matches!(
        fixture.state.data.status,
        SearchEngineStatus::Idle | SearchEngineStatus::Cancelled
    ));
}

#[test]
fn test_stop_indexing() {
    let mut fixture = Fixture::new();
    fixture.state.data.status = SearchEngineStatus::Indexing;
    let _ = fixture.stop_indexing();
    assert_eq!(fixture.state.data.status, SearchEngineStatus::Cancelled);
    assert!(fixture.index.stop);
    let _ = fixture.start_indexing(&test_dir());
    assert!(matches!(
        fixture.state.data.status,
        SearchEngineStatus::Cancelled | SearchEngineStatus::Idle
    ));
}

#[test]
fn test_cancel_indexing() {
    let mut fixture = Fixture::new();
    fixture.state.data.status = SearchEngineStatus::Indexing;
    let _ = fixture.cancel_indexing();
    assert_eq!(fixture.state.data.status, SearchEngineStatus::Cancelled);
    let _ = fixture.start_indexing(&test_dir());
    assert!(matches!(
        fixture.state.data.status,
        SearchEngineStatus::Cancelled | SearchEngineStatus::Idle
    ));
}

#[test]
fn test_search() {
    let mut fixture = Fixture::new();
    let _ = fixture.add_path("/test/file.txt");
    let result = fixture.search("file");
    assert!(result.is_ok());
}

#[test]
fn test_directory_context_for_search() {
    let mut fixture = Fixture::new();
    let _ = fixture.add_path("/test/dir/file.txt");
    fixture.update_config(Some("/test/dir".to_string()));
    let result = fixture.search("file");
    assert!(result.is_ok());
    assert_eq!(fixture.state.data.current_directory, Some("/test/dir".to_string()));
}

#[test]
fn test_add_and_remove_path() {
    let mut fixture = Fixture::new();
    let path = "/test/to/remove.txt";
    let _ = fixture.add_path(path);
    let _ = fixture.remove_path(path);
    let results = fixture.search("remove").unwrap();
    assert!(!results.iter().any(|p| p == path));
}

#[test]
fn test_chunked_indexing_stop() {
    let mut fixture = Fixture::new();
    fixture.state.data.status = SearchEngineStatus::Indexing;
    let _ = fixture.start_chunked_indexing(&test_dir(), 10);
    let _ = fixture.stop_indexing();
    assert!(matches!(
        fixture.state.data.status,
        SearchEngineStatus::Cancelled | SearchEngineStatus::Idle
    ));
}

#[test]
fn benchmark_indexing_methods_comparison() {
    let mut fixture = Fixture::new();
    let test_dir = test_dir();
    let _ = fixture.start_indexing(&test_dir);
    let _ = fixture.start_chunked_indexing(&test_dir, 100);
}

#[test]
fn benchmark_memory_usage_comparison() {
    let mut fixture = Fixture::new();
    let test_dir = test_dir();
    let _ = fixture.start_indexing(&test_dir);
    let _ = fixture.start_chunked_indexing(&test_dir, 50);
}

#[test]
fn test_concurrent_search_optimization() {
    // Five searches are admitted before any of them is finished.
    let mut fixture = Fixture::new();
    let requests: Vec<SearchRequest> =
        (0..5).map(|_| fixture.state.search("file").unwrap()).collect();
    for request in requests {
        let _ = fixture.make(request, 1, false);
    }
    assert_eq!(fixture.state.data.metrics.total_searches, 5);
    assert_eq!(fixture.state.data.status, SearchEngineStatus::Idle);
}

#[test]
fn clock_reads_the_present() {
    let before = now_ms();
    let (state, _) = SearchEngineState::new(enabled_config());
    assert!(state.data.last_updated > 1_600_000_000_000);
    assert!(state.data.last_updated <= 253_402_207_200_999);
    assert!(state.data.last_updated.abs_diff(before) < 10_000_000);
    let engine = SearchEngine::default(enabled_config());
    assert!(engine.last_updated > 1_600_000_000_000);
}

#[test]
fn timestamps_hold_the_reading() {
    assert_eq!(timestamp(0), 0);
    assert_eq!(timestamp(1_700_000_000_123), 1_700_000_000_123);
    assert_eq!(timestamp(i64::MAX), 9_223_372_036_854_775_807);
    assert_eq!(timestamp(-1), u64::MAX);
    assert_eq!(timestamp(-377_705_023_201_000), u64::MAX - 377_705_023_200_999);
}

#[test]
fn new_state_is_as_configured() {
    let (state, settings) = SearchEngineState::new_at(enabled_config(), 42);
    assert_eq!(state.data.last_updated, 42);
    assert_eq!(state.data.current_directory, None);
    assert!(matches!(&state.data.index_folder, FolderPath::Text(path) if path.is_empty()));
    assert_eq!(state.data.config.preferred_extensions, vec!["txt".to_string()]);
    assert_eq!(settings.cache_size, 1000);
    assert_eq!(settings.max_results, 20);
    assert_eq!(settings.cache_ttl, TimeSpan { secs: 3600, nanos: 0 });
    assert_eq!(f32::from_bits(settings.ranking_config.directory_ranking_boost), 0.0);
}

#[test]
fn preferred_directories_keep_their_boost() {
    let mut config = enabled_config();
    config.prefer_directories = true;
    config.cache_ttl = Some(TimeSpan { secs: 120, nanos: 5 });
    let (_, settings) = SearchEngineState::new(config);
    assert_eq!(f32::from_bits(settings.ranking_config.directory_ranking_boost), 10.0);
    assert_eq!(settings.cache_ttl, TimeSpan { secs: 120, nanos: 5 });
}

#[test]
fn start_indexing_resets_state_and_index() {
    let (mut state, _) = SearchEngineState::new_at(enabled_config(), 1);
    state.data.progress.files_indexed = 9;
    let mut commands = Vec::new();
    let job = state
        .start_indexing_at(FolderPath::Text("/data".to_string()), 5, 6, &mut commands)
        .unwrap();
    assert_eq!(job.folder, "/data");
    assert_eq!(
        job.excluded_patterns,
        Some(vec![".git".to_string(), "node_modules".to_string()])
    );
    assert_eq!(state.data.status, SearchEngineStatus::Indexing);
    assert_eq!(state.data.progress.files_indexed, 0);
    assert_eq!(state.data.progress.start_time, Some(5));
    assert_eq!(state.data.last_updated, 6);
    assert!(matches!(&state.data.index_folder, FolderPath::Text(path) if path == "/data"));
    assert!(matches!(
        commands.as_slice(),
        [EngineCommand::ResetStopFlag, EngineCommand::Clear]
    ));
    // A second start first stops the first.
    let mut commands = Vec::new();
    let again = state.start_indexing(FolderPath::Text("/other".to_string()), &mut commands);
    assert!(again.is_ok());
    assert!(matches!(
        commands.as_slice(),
        [EngineCommand::StopIndexing, EngineCommand::ResetStopFlag, EngineCommand::Clear]
    ));
}

#[test]
fn invalid_folder_is_refused_but_clears_the_index() {
    let mut fixture = Fixture::new();
    let _ = fixture.add_path("/test/file.txt");
    let mut commands = Vec::new();
    let res = fixture.state.start_indexing(FolderPath::Encoded(vec![0x66, 0xff]), &mut commands);
    fixture.index.apply(commands);
    assert_eq!(res.unwrap_err(), "Invalid folder path");
    assert_eq!(fixture.state.data.status, SearchEngineStatus::Failed);
    assert!(matches!(
        &fixture.state.data.index_folder,
        FolderPath::Encoded(bytes) if bytes == &vec![0x66, 0xff]
    ));
    assert!(fixture.index.paths.is_empty());
    let mut commands = Vec::new();
    let res = fixture.state.start_chunked_indexing(
        FolderPath::Encoded(vec![0xff]),
        10,
        &mut commands,
    );
    assert_eq!(res.unwrap_err(), "Invalid folder path");
    assert!(fixture.search("file").is_ok());
}

#[test]
fn disabled_engine_refuses_everything() {
    let mut fixture = Fixture::disabled();
    assert_eq!(fixture.add_path("/a").unwrap_err(), "Search engine is disabled");
    assert_eq!(fixture.remove_path("/a").unwrap_err(), "Search engine is disabled");
    assert_eq!(fixture.remove_paths_recursive("/a").unwrap_err(), "Search engine is disabled");
    assert_eq!(
        fixture.search("a").unwrap_err(),
        "Search engine is disabled in configuration"
    );
    assert_eq!(
        fixture.search_by_extension("a", vec![]).unwrap_err(),
        "Search engine is disabled in configuration"
    );
    assert_eq!(
        fixture.start_indexing("/data").unwrap_err(),
        "Search engine is disabled in configuration"
    );
    assert_eq!(
        fixture.start_chunked_indexing("/data", 10).unwrap_err(),
        "Search engine is disabled in configuration"
    );
    assert_eq!(fixture.state.data.status, SearchEngineStatus::Idle);
    assert!(fixture.index.paths.is_empty());
}

#[test]
fn search_is_refused_while_indexing() {
    let mut fixture = Fixture::new();
    fixture.state.data.status = SearchEngineStatus::Indexing;
    assert_eq!(fixture.search("a").unwrap_err(), "Engine is currently indexing");
    assert_eq!(
        fixture.search_by_extension("a", vec![]).unwrap_err(),
        "Engine is currently indexing"
    );
    assert_eq!(fixture.state.data.status, SearchEngineStatus::Indexing);
    assert!(fixture.stop_indexing().is_ok());
    assert!(fixture.search("a").is_ok());
}

#[test]
fn stop_works_once() {
    let mut fixture = Fixture::new();
    assert_eq!(fixture.stop_indexing().unwrap_err(), "No indexing operation in progress");
    assert!(!fixture.index.stop);
    fixture.state.data.status = SearchEngineStatus::Indexing;
    assert!(fixture.cancel_indexing().is_ok());
    assert_eq!(fixture.cancel_indexing().unwrap_err(), "No indexing operation in progress");
    assert_eq!(fixture.state.data.status, SearchEngineStatus::Cancelled);
}

#[test]
fn search_goes_through_searching_to_idle() {
    let (mut state, _) = SearchEngineState::new_at(enabled_config(), 1);
    let request = state.search_at("file", 77).unwrap();
    assert_eq!(state.data.status, SearchEngineStatus::Searching);
    assert_eq!(state.data.last_updated, 77);
    assert_eq!(request.query, "file");
    assert_eq!(request.extensions, None);
    state.finish_search(&request, 30, true);
    assert_eq!(state.data.status, SearchEngineStatus::Idle);
    assert_eq!(state.data.recent_activity.recent_searches, vec!["file".to_string()]);
    assert_eq!(
        state.data.metrics.cache_hit_rate,
        Some(HitRate { hits: 1, searches: 1 })
    );
    assert_eq!(
        state.data.metrics.average_search_time_ms,
        Some(AverageTime { total_ms: 30, searches: 1 })
    );
    let request = state.search_at("other", 78).unwrap();
    state.finish_search(&request, 5, false);
    assert_eq!(
        state.data.metrics,
        SearchEngineMetrics {
            last_indexing_duration_ms: None,
            average_search_time_ms: Some(AverageTime { total_ms: 35, searches: 2 }),
            cache_hit_rate: Some(HitRate { hits: 1, searches: 2 }),
            total_searches: 2,
            cache_hits: 1,
        }
    );
}

#[test]
fn search_by_extension_restores_preferences() {
    let mut fixture = Fixture::new();
    let before = fixture.index.extensions.clone();
    let _ = fixture.add_path("/test/file.rs");
    let found = fixture.search_by_extension("file", vec!["rs".to_string()]).unwrap();
    assert_eq!(found, vec!["/test/file.rs".to_string()]);
    assert_eq!(fixture.index.searched_with, vec!["rs".to_string()]);
    assert_eq!(fixture.index.extensions, before);
    // It counts as a search but is not remembered.
    assert_eq!(fixture.state.data.metrics.total_searches, 1);
    assert!(fixture.state.data.recent_activity.recent_searches.is_empty());
}

#[test]
fn recent_searches_keep_the_ten_newest() {
    let mut fixture = Fixture::new();
    for i in 0..12 {
        fixture.search(&format!("q{}", i)).unwrap();
        fixture.search("").unwrap();
    }
    let expected: Vec<String> = (2..12).rev().map(|i| format!("q{}", i)).collect();
    assert_eq!(fixture.state.data.recent_activity.recent_searches, expected);
    assert_eq!(fixture.state.data.metrics.total_searches, 24);
}

#[test]
fn overlong_recent_searches_lose_one_at_a_time() {
    let mut activity = RecentActivity::default();
    activity.recent_searches = (0..12).map(|i| format!("q{}", i)).collect();
    activity.record_search("new");
    assert_eq!(activity.recent_searches.len(), 12);
    assert_eq!(activity.recent_searches[0], "new");
    assert_eq!(activity.recent_searches[11], "q10");
    assert!(activity.most_accessed_paths.is_empty());
}

#[test]
fn first_average_stands_for_all_counted() {
    let mut metrics = SearchEngineMetrics::default();
    metrics.total_searches = 3;
    metrics.cache_hits = 9;
    metrics.record_search(10, true);
    assert_eq!(
        metrics.average_search_time_ms,
        Some(AverageTime { total_ms: 40, searches: 4 })
    );
    // More hits than searches still make no more than the whole.
    assert_eq!(metrics.cache_hit_rate, Some(HitRate { hits: 4, searches: 4 }));
    assert_eq!(metrics.cache_hits, 10);
    metrics.total_searches = usize::MAX;
    assert!(!metrics.can_record(false));
}

#[test]
fn progress_reports_while_discovering() {
    let (mut state, _) = SearchEngineState::new_at(enabled_config(), 1);
    state.update_progress_safely_at(0, 0, Some("/x".to_string()), 9);
    assert_eq!(state.data.progress.percentage_complete, Completion::Zero);
    assert_eq!(state.data.progress.current_path, Some("/x".to_string()));
    state.update_progress_safely_at(20, 5, None, 10);
    assert_eq!(
        state.data.progress.percentage_complete,
        Completion::Discovering { indexed: 5, discovered: 20 }
    );
    assert_eq!(state.data.progress.files_discovered, 20);
    assert_eq!(state.data.progress.files_indexed, 5);
    assert_eq!(state.data.progress.current_path, None);
    assert_eq!(state.data.last_updated, 10);
    // Without files the last percentage stays.
    state.update_progress_safely(0, 0, None);
    assert_eq!(
        state.data.progress.percentage_complete,
        Completion::Discovering { indexed: 5, discovered: 20 }
    );
}

#[test]
fn batches_update_share_and_estimate() {
    let (mut state, _) = SearchEngineState::new_at(enabled_config(), 1);
    state.record_batch_at(5, 20, 100, 101);
    assert_eq!(state.data.progress.estimated_time_remaining, None);
    state.data.progress.start_time = Some(40);
    state.record_batch_at(5, 20, 100, 101);
    assert_eq!(
        state.data.progress.percentage_complete,
        Completion::Indexed { indexed: 5, total: 20 }
    );
    assert_eq!(
        state.data.progress.estimated_time_remaining,
        Some(RemainingTime { elapsed_ms: 60, files_indexed: 5, files_remaining: 15 })
    );
    assert_eq!(state.data.last_updated, 101);
    state.record_batch_at(25, 20, 100, 102);
    assert_eq!(
        state.data.progress.estimated_time_remaining,
        Some(RemainingTime { elapsed_ms: 60, files_indexed: 25, files_remaining: 0 })
    );
    state.record_batch_at(0, 0, 100, 103);
    assert_eq!(state.data.progress.percentage_complete, Completion::Zero);
    assert_eq!(
        state.data.progress.estimated_time_remaining,
        Some(RemainingTime { elapsed_ms: 60, files_indexed: 25, files_remaining: 0 })
    );
}

#[test]
fn indexing_progress_is_updated() {
    let (mut state, _) = SearchEngineState::new_at(enabled_config(), 1);
    state.data.progress.start_time = Some(10);
    state.update_indexing_progress_at(3, 4, Some("/p".to_string()), 30, 31);
    assert_eq!(
        state.data.progress.percentage_complete,
        Completion::Indexed { indexed: 3, total: 4 }
    );
    assert_eq!(state.data.progress.current_path, Some("/p".to_string()));
    assert_eq!(
        state.data.progress.estimated_time_remaining,
        Some(RemainingTime { elapsed_ms: 20, files_indexed: 3, files_remaining: 1 })
    );
    assert!(state.update_indexing_progress(0, 0, None));
    assert_eq!(
        state.data.progress.percentage_complete,
        Completion::Indexed { indexed: 3, total: 4 }
    );
    assert_eq!(state.data.progress.files_discovered, 0);
}

#[test]
fn a_clock_behind_the_start_records_nothing() {
    let (mut state, _) = SearchEngineState::new_at(enabled_config(), 1);
    state.data.progress.start_time = Some(u64::MAX);
    assert!(!state.record_batch(1, 2));
    assert!(!state.update_indexing_progress(1, 2, None));
    assert_eq!(state.data.progress.files_indexed, 0);
    assert_eq!(state.data.last_updated, 1);
    let mut progress = IndexingProgress::default();
    assert!(progress.clock_is_ok(0));
    progress.start_time = Some(5);
    assert!(!progress.clock_is_ok(4));
    assert!(progress.clock_is_ok(5));
}

#[test]
fn counts_are_recorded_unless_the_clock_is_behind() {
    let (mut state, _) = SearchEngineState::new_at(enabled_config(), 1);
    state.data.progress.start_time = Some(50);
    assert!(!state.try_record_batch_at(5, 20, 49, 60));
    assert!(!state.try_update_indexing_progress_at(5, 20, Some("/p".to_string()), 49, 60));
    assert_eq!(state.data.progress.files_indexed, 0);
    assert_eq!(state.data.progress.files_discovered, 0);
    assert_eq!(state.data.progress.current_path, None);
    assert_eq!(state.data.progress.percentage_complete, Completion::Zero);
    assert_eq!(state.data.last_updated, 1);
    assert!(state.try_record_batch_at(5, 20, 50, 60));
    assert_eq!(
        state.data.progress.estimated_time_remaining,
        Some(RemainingTime { elapsed_ms: 0, files_indexed: 5, files_remaining: 15 })
    );
    assert_eq!(state.data.last_updated, 60);
    assert!(state.try_update_indexing_progress_at(6, 20, Some("/p".to_string()), 70, 71));
    assert_eq!(
        state.data.progress.estimated_time_remaining,
        Some(RemainingTime { elapsed_ms: 20, files_indexed: 6, files_remaining: 14 })
    );
    assert_eq!(state.data.progress.current_path, Some("/p".to_string()));
    assert_eq!(state.data.last_updated, 71);
}

#[test]
fn consistent_metrics_average_over_all_searches() {
    let mut metrics = SearchEngineMetrics::default();
    assert!(metrics.is_consistent());
    metrics.record_search(10, false);
    assert!(metrics.is_consistent());
    metrics.total_searches = 2;
    assert!(!metrics.is_consistent());
    metrics.average_search_time_ms =
        Some(AverageTime { total_ms: 2 * u64::MAX as u128, searches: 2 });
    assert!(metrics.is_consistent());
    metrics.average_search_time_ms =
        Some(AverageTime { total_ms: 2 * u64::MAX as u128 + 1, searches: 2 });
    assert!(!metrics.is_consistent());
    metrics.total_searches = 0;
    metrics.average_search_time_ms = Some(AverageTime { total_ms: 0, searches: 0 });
    assert!(!metrics.is_consistent());
}

#[test]
fn chunked_indexing_takes_in_the_tree() {
    let mut fixture = Fixture::new();
    let driven = fixture.index_in_chunks("/data", 2, listing, None).unwrap();
    assert_eq!(driven.opened, vec!["/data".to_string(), "/data/sub".to_string()]);
    assert_eq!(
        fixture.index.paths,
        vec![
            "/data/a.txt".to_string(),
            "/data/sub".to_string(),
            "/data/sub/b.txt".to_string(),
            "/data/sub/c.rs".to_string(),
        ]
    );
    let data = &fixture.state.data;
    assert_eq!(data.status, SearchEngineStatus::Idle);
    assert_eq!(data.progress.files_indexed, 4);
    assert_eq!(data.progress.files_discovered, 4);
    assert_eq!(data.progress.percentage_complete, Completion::Full);
    assert_eq!(data.progress.current_path, None);
    assert_eq!(data.metrics.last_indexing_duration_ms, Some(7));
}

#[test]
fn nothing_below_an_excluded_directory_is_indexed() {
    let mut index = Index::new();
    let patterns = vec!["/data/sub".to_string(), "config".to_string()];
    let mut run = IndexingRun::new("/data".to_string(), patterns, 3);
    let driven = drive(&mut run, &mut index, None, listing, None);
    assert_eq!(driven.opened, vec!["/data".to_string(), "/data/.git".to_string()]);
    assert_eq!(index.paths, vec!["/data/a.txt".to_string(), "/data/.git".to_string()]);
    let mut index = Index::new();
    let mut run = IndexingRun::new("/data".to_string(), vec![".git".to_string()], 3);
    let driven = drive(&mut run, &mut index, None, listing, None);
    assert!(!driven.opened.contains(&"/data/.git".to_string()));
    assert!(!index.paths.contains(&"/data/.git/config".to_string()));
    // The root is opened whatever the patterns say, but nothing in it is kept.
    let mut index = Index::new();
    let mut run = IndexingRun::new("/data".to_string(), vec!["/data".to_string()], 3);
    let driven = drive(&mut run, &mut index, None, with_itself, None);
    assert_eq!(driven.opened, vec!["/data".to_string()]);
    assert!(index.paths.is_empty());
    assert_eq!(run.discovered_files(), 0);
}

#[test]
fn the_counts_of_a_run_make_a_percentage() {
    let (mut state, _) = SearchEngineState::new_at(enabled_config(), 1);
    let mut run = IndexingRun::new("/big".to_string(), vec![], 7);
    let mut left = 40;
    let mut reports = 0;
    let mut action = run.step(RunEvent::Ready { stop: false }).action;
    loop {
        let event = match action {
            RunAction::OpenDirectory(_) | RunAction::ReadEntry if left > 0 => {
                left -= 1;
                let path = Some(format!("/big/{}", left));
                RunEvent::Entry { stop: false, path, is_dir: false }
            }
            RunAction::OpenDirectory(_) | RunAction::ReadEntry => RunEvent::DirectoryEnd,
            RunAction::AddPaths(_) | RunAction::Continue { .. } => RunEvent::Ready { stop: false },
            RunAction::Finished => break,
        };
        let step = run.step(event);
        if let Some(report) = step.report {
            reports += 1;
            assert!(report.indexed <= report.discovered && report.discovered > 0);
            let expected = Completion::Discovering {
                indexed: report.indexed,
                discovered: report.discovered,
            };
            state.update_progress_safely(report.discovered, report.indexed, Some(report.path));
            assert_eq!(state.data.progress.percentage_complete, expected);
        }
        let (indexed, total) = (run.indexed_files(), run.discovered_files());
        assert!(indexed <= total);
        state.record_batch_at(indexed, total, 0, 0);
        if total > 0 {
            assert_eq!(
                state.data.progress.percentage_complete,
                Completion::Indexed { indexed, total }
            );
        }
        action = step.action;
    }
    assert_eq!(reports, 5);
    assert_eq!(run.indexed_files(), 40);
}

#[test]
fn a_stop_through_the_state_ends_the_run() {
    let mut fixture = Fixture::new();
    let driven = fixture.index_in_chunks("/data", 1, listing, Some(1)).unwrap();
    assert_eq!(driven.opened, vec!["/data".to_string()]);
    assert_eq!(driven.groups, vec![vec!["/data/a.txt".to_string()]]);
    assert!(fixture.index.stop);
    assert_eq!(fixture.index.paths, vec!["/data/a.txt".to_string()]);
    assert_eq!(fixture.state.data.status, SearchEngineStatus::Cancelled);
    assert_eq!(fixture.state.data.progress.files_indexed, 1);
    assert_eq!(
        fixture.state.data.progress.percentage_complete,
        Completion::Indexed { indexed: 1, total: 1 }
    );
    assert_eq!(fixture.state.data.metrics.last_indexing_duration_ms, Some(7));
    assert_eq!(fixture.stop_indexing().unwrap_err(), "No indexing operation in progress");
    // The next run is not held up by the stop of the last.
    fixture.index_in_chunks("/data", 1, listing, None).unwrap();
    assert!(!fixture.index.stop);
    assert_eq!(fixture.state.data.status, SearchEngineStatus::Idle);
    assert_eq!(fixture.index.paths.len(), 4);
}

#[test]
fn a_directory_that_lists_itself_is_opened_down_to_the_depth_limit() {
    let mut fixture = Fixture::new();
    let driven = fixture.index_in_chunks("/data", 10, with_itself, None).unwrap();
    // The root comes up once on each of the levels, the directory in it as
    // often as there are levels above, and each opening tells of three paths.
    assert_eq!(driven.opened.iter().filter(|dir| *dir == "/data").count(), 25);
    assert_eq!(driven.opened.iter().filter(|dir| *dir == "/data/sub").count(), 300);
    assert_eq!(driven.opened.len(), 325);
    assert_eq!(
        driven.opened[..6],
        ["/data", "/data", "/data/sub", "/data", "/data/sub", "/data/sub"]
    );
    assert_eq!(fixture.index.paths.len(), 975);
    assert_eq!(
        fixture.index.paths[..6],
        ["/data", "/data/a.txt", "/data/sub", "/data", "/data/a.txt", "/data/sub"]
    );
    assert!(!fixture.index.paths.iter().any(|path| path.contains(".git")));
    assert_eq!(fixture.state.data.progress.files_discovered, 975);
    assert_eq!(fixture.state.data.progress.files_indexed, 975);
    assert_eq!(fixture.state.data.status, SearchEngineStatus::Idle);
}

#[test]
fn chunk_size_does_not_show_in_the_result() {
    let mut first = Fixture::new();
    let once = first.index_in_chunks("/data", 1, with_itself, None).unwrap();
    assert_eq!(once.groups.len(), 975);
    // The last chunk is full, or partial, or the only one.
    for chunk_size in [25, 26, 100, 974, 975, 976, 5000] {
        let mut fixture = Fixture::new();
        let driven = fixture.index_in_chunks("/data", chunk_size, with_itself, None).unwrap();
        assert_eq!(driven.groups.concat(), once.groups.concat());
        assert_eq!(driven.opened, once.opened);
        assert_eq!(fixture.index.paths, first.index.paths);
        let progress = &fixture.state.data.progress;
        assert_eq!(progress.files_indexed, 975);
        assert_eq!(progress.files_discovered, 975);
        assert_eq!(progress.percentage_complete, Completion::Full);
        assert_eq!(progress.current_path, None);
        assert_eq!(fixture.state.data.status, SearchEngineStatus::Idle);
    }
}

#[test]
fn run_beginning_and_end_are_recorded() {
    let (mut state, _) = SearchEngineState::new_at(enabled_config(), 1);
    state.data.progress.files_indexed = 8;
    state.begin_run_at("/data".to_string(), 20);
    assert_eq!(state.data.progress.files_indexed, 0);
    assert_eq!(state.data.progress.current_path, Some("/data".to_string()));
    assert_eq!(state.data.last_updated, 20);
    let run = IndexingRun::new("/data".to_string(), vec![], 10);
    state.finish_run_at(&run, 33, true, 50);
    assert_eq!(state.data.status, SearchEngineStatus::Cancelled);
    assert_eq!(state.data.metrics.last_indexing_duration_ms, Some(33));
    assert_eq!(state.data.progress.current_path, Some("/data".to_string()));
    assert_eq!(state.data.last_updated, 20);
    state.finish_run_at(&run, 34, false, 51);
    assert_eq!(state.data.status, SearchEngineStatus::Idle);
    assert_eq!(state.data.progress.percentage_complete, Completion::Full);
    assert_eq!(state.data.last_updated, 51);
}

#[test]
fn a_stop_gives_up_the_rest_of_the_batch() {
    let mut index = Index::new();
    let mut run = IndexingRun::new("/data".to_string(), vec![], 1);
    let driven = drive(&mut run, &mut index, None, listing, Some(2));
    assert_eq!(driven.groups.len(), 2);
    assert_eq!(run.phase(), RunPhase::Finished);
    assert_eq!(run.indexed_files(), 2);
    assert_eq!(index.paths, vec!["/data/a.txt".to_string(), "/data/sub".to_string()]);
}

#[test]
fn a_run_asked_to_stop_at_once_opens_nothing() {
    let mut run = IndexingRun::new("/data".to_string(), vec![], 10);
    let step = run.step(RunEvent::Ready { stop: true });
    assert!(matches!(step.action, RunAction::Finished));
    assert_eq!(run.phase(), RunPhase::Finished);
}

#[test]
fn large_batches_go_in_groups() {
    let mut run = IndexingRun::new("/big".to_string(), vec!["skip".to_string()], 1000);
    assert!(matches!(
        run.step(RunEvent::Ready { stop: false }).action,
        RunAction::OpenDirectory(dir) if dir == "/big"
    ));
    let mut reports = Vec::new();
    for i in 1..61 {
        let step = run.step(RunEvent::Entry {
            stop: false,
            path: Some(format!("/big/{}", i)),
            is_dir: false,
        });
        if let Some(report) = step.report {
            assert_eq!(report.indexed, 0);
            assert_eq!(report.path, format!("/big/{}", i));
            reports.push(report.discovered);
        }
        assert!(matches!(step.action, RunAction::ReadEntry));
    }
    assert_eq!(reports, vec![1, 10, 20, 30, 40, 50, 60]);
    // Neither an excluded path nor one that is not text counts.
    for path in [Some("/big/skipped".to_string()), None] {
        let step = run.step(RunEvent::Entry { stop: false, path, is_dir: true });
        assert!(step.report.is_none());
        assert!(matches!(step.action, RunAction::ReadEntry));
    }
    assert_eq!(run.discovered_files(), 60);
    let step = run.step(RunEvent::DirectoryEnd);
    assert!(matches!(step.action, RunAction::Continue { pause: true }));
    let mut sizes = Vec::new();
    loop {
        match run.step(RunEvent::Ready { stop: false }).action {
            RunAction::AddPaths(paths) => sizes.push(paths.len()),
            RunAction::Continue { pause } => assert!(!pause),
            RunAction::Finished => break,
            other => panic!("{:?}", other),
        }
    }
    assert_eq!(sizes, vec![25, 25, 10]);
    assert_eq!(run.indexed_files(), 60);
}

#[test]
fn walk_stops_at_the_depth_limit() {
    let mut run = IndexingRun::new("/0".to_string(), vec![], 1000);
    let mut opened = 0;
    let mut pauses = Vec::new();
    loop {
        match run.step(RunEvent::Ready { stop: false }).action {
            RunAction::OpenDirectory(_) => {
                opened += 1;
                let step = run.step(RunEvent::Entry {
                    stop: false,
                    path: Some(format!("/{}", opened)),
                    is_dir: true,
                });
                assert!(matches!(step.action, RunAction::ReadEntry));
                match run.step(RunEvent::DirectoryEnd).action {
                    RunAction::Continue { pause } => {
                        if pause {
                            pauses.push(opened - 1);
                        }
                    }
                    other => panic!("{:?}", other),
                }
            }
            RunAction::AddPaths(paths) => assert_eq!(paths.len(), 25),
            RunAction::Continue { .. } => {}
            RunAction::Finished => break,
            other => panic!("{:?}", other),
        }
    }
    assert_eq!(opened, 25);
    assert_eq!(pauses, vec![0, 10, 20]);
}

#[test]
fn excluded_paths_match_anywhere() {
    let patterns = vec!["node_modules".to_string(), ".log".to_string(), "äö".to_string()];
    assert!(should_exclude("/a/node_modules/b", &patterns));
    assert!(should_exclude("/a/b.log", &patterns));
    assert!(should_exclude("/a/b.logs/c", &patterns));
    assert!(should_exclude("/xäöy", &patterns));
    assert!(!should_exclude("/a/node_module", &patterns));
    assert!(!should_exclude("/a/b", &vec![]));
    assert!(should_exclude("/a/b", &vec!["".to_string()]));
    assert!(should_exclude("", &vec!["".to_string()]));
    assert!(!should_exclude("ab", &vec!["abc".to_string()]));
}

#[test]
fn paths_are_added_and_removed_as_told() {
    let mut fixture = Fixture::new();
    fixture.add_path("/a/.git/x").unwrap();
    assert!(fixture.index.paths.is_empty());
    fixture.add_path("/a/b").unwrap();
    fixture.add_path("/a/c").unwrap();
    fixture.add_path("/d").unwrap();
    fixture.remove_paths_recursive("/a").unwrap();
    assert_eq!(fixture.index.paths, vec!["/d".to_string()]);
}

#[test]
fn config_update_reaches_state_and_index() {
    let (mut state, _) = SearchEngineState::new_at(disabled_config(), 1);
    let mut commands = Vec::new();
    state.update_config_at(enabled_config(), Some("/here".to_string()), 5, &mut commands);
    assert!(state.data.config.search_engine_enabled);
    assert_eq!(state.data.current_directory, Some("/here".to_string()));
    assert_eq!(state.data.last_updated, 5);
    assert!(matches!(
        commands.as_slice(),
        [EngineCommand::SetPreferredExtensions(list)] if list == &vec!["txt".to_string()]
    ));
}

#[test]
fn info_shows_the_state() {
    let mut fixture = Fixture::new();
    fixture.search("file").unwrap();
    let stats = EngineStats { cache_size: 3, trie_size: 8 };
    let info = fixture.state.get_search_engine_info(stats);
    assert_eq!(info.status, SearchEngineStatus::Idle);
    assert_eq!(info.metrics, fixture.state.data.metrics);
    assert_eq!(info.recent_activity.recent_searches, vec!["file".to_string()]);
    assert_eq!(info.stats, EngineStatsSerializable { cache_size: 3, trie_size: 8 });
    assert_eq!(info.last_updated, fixture.state.data.last_updated);
    assert_eq!(info.progress.files_indexed, 0);
    assert_eq!(fixture.state.get_stats(stats), EngineStatsSerializable::from(stats));
    let copy = info.clone();
    assert_eq!(copy.stats.trie_size, 8);
    let data = fixture.state.data.clone();
    assert_eq!(data.recent_activity.recent_searches, vec!["file".to_string()]);
}

#[test]
fn test_paths_are_gathered_depth_first() {
    assert_eq!(
        gather(None),
        vec![
            "/data/a.txt".to_string(),
            "/data/sub".to_string(),
            "/data/sub/b.txt".to_string(),
            "/data/sub/c.rs".to_string(),
            "/data/.git".to_string(),
            "/data/.git/config".to_string(),
        ]
    );
    // The limit is reached inside a directory; the one around it adds one more.
    assert_eq!(
        gather(Some(3)),
        vec![
            "/data/a.txt".to_string(),
            "/data/sub".to_string(),
            "/data/sub/b.txt".to_string(),
            "/data/.git".to_string(),
        ]
    );
    assert_eq!(gather(Some(2)).len(), 2);
    assert_eq!(test_dir(), "/data/sub");
}

#[test]
fn entries_that_are_no_text_are_passed_over_but_opened() {
    let (mut collector, action) = collect_test_paths(Some(3));
    assert_eq!(action, CollectAction::Open);
    assert_eq!(collector.step(CollectEvent::Opened { ok: true }), CollectAction::Read);
    let entry = |path: &str, is_dir: bool| CollectEvent::Entry {
        path: Some(path.to_string()),
        is_dir,
    };
    assert_eq!(collector.step(entry("/a", false)), CollectAction::Read);
    let unnamed = CollectEvent::Entry { path: None, is_dir: true };
    assert_eq!(collector.step(unnamed), CollectAction::Open);
    assert_eq!(collector.step(CollectEvent::Opened { ok: true }), CollectAction::Read);
    assert_eq!(collector.step(entry("/b", true)), CollectAction::Open);
    // A directory that cannot be opened is as good as an empty one.
    assert_eq!(collector.step(CollectEvent::Opened { ok: false }), CollectAction::Read);
    assert_eq!(collector.step(CollectEvent::End), CollectAction::Leave);
    assert_eq!(collector.step(CollectEvent::End), CollectAction::Finish);
    assert_eq!(collector.into_paths(), vec!["/a".to_string(), "/b".to_string()]);
}

#[test]
fn made_up_paths_stand_in_for_none() {
    let paths = gather_from(vec![], Some(20));
    assert_eq!(paths.len(), 100);
    assert_eq!(paths[0], "/path/to/file0.txt");
    assert_eq!(paths[9], "/path/to/file9.txt");
    assert_eq!(paths[10], "/path/to/file10.txt");
    assert_eq!(paths[99], "/path/to/file99.txt");
    assert_eq!(gather(Some(0)).len(), 100);
    let (mut collector, _) = collect_test_paths(None);
    assert_eq!(collector.step(CollectEvent::Opened { ok: false }), CollectAction::Finish);
    assert_eq!(collector.into_paths().len(), 100);
}

#[test]
fn test_folder_falls_back_to_the_data() {
    let none = vec![Candidate { path: "/x".to_string(), is_dir: false }];
    assert_eq!(get_test_dir_for_indexing(&none, "./data"), "./data");
    assert_eq!(get_test_data_path("./data"), "./data");
}

#[test]
fn walk_stops_at_the_file_limit() {
    let mut run = IndexingRun::new("/r".to_string(), vec![], usize::MAX);
    assert!(matches!(
        run.step(RunEvent::Ready { stop: false }).action,
        RunAction::OpenDirectory(_)
    ));
    for i in 0..500000 {
        let path = Some(format!("/r/{}", i));
        run.step(RunEvent::Entry { stop: false, path, is_dir: i < 2 });
    }
    run.step(RunEvent::DirectoryEnd);
    assert_eq!(run.discovered_files(), 500000);
    // The limit itself is still allowed.
    assert!(matches!(
        run.step(RunEvent::Ready { stop: false }).action,
        RunAction::OpenDirectory(dir) if dir == "/r/0"
    ));
    let path = Some("/r/0/one-more".to_string());
    run.step(RunEvent::Entry { stop: false, path, is_dir: true });
    assert_eq!(run.phase(), RunPhase::Directory { depth: 1 });
    assert!(matches!(
        run.step(RunEvent::DirectoryEnd).action,
        RunAction::Continue { pause: false }
    ));
    // Neither the directory left from the root nor the new one is opened.
    assert!(matches!(
        run.step(RunEvent::Ready { stop: false }).action,
        RunAction::Continue { pause: false }
    ));
    assert!(matches!(
        run.step(RunEvent::Ready { stop: false }).action,
        RunAction::AddPaths(paths) if paths.len() == 25
    ));
}

#[test]
fn walk_goes_level_by_level_in_chunks() {
    let mut run = IndexingRun::new("/0".to_string(), vec![], 2);
    let mut opened = Vec::new();
    let mut waiting: Vec<(String, bool)> = Vec::new();
    let mut action = run.step(RunEvent::Ready { stop: false }).action;
    loop {
        let event = match action {
            RunAction::OpenDirectory(dir) => {
                waiting = match dir.as_str() {
                    "/0" => vec![("/0/a".to_string(), true), ("/0/b".to_string(), true)],
                    "/0/a" => vec![("/0/a/c".to_string(), true)],
                    _ => vec![],
                };
                opened.push(dir);
                None
            }
            RunAction::ReadEntry => None,
            RunAction::AddPaths(paths) => {
                assert!(paths.len() <= 2);
                Some(RunEvent::Ready { stop: false })
            }
            RunAction::Continue { .. } => Some(RunEvent::Ready { stop: false }),
            RunAction::Finished => break,
        };
        let event = match event {
            Some(event) => event,
            None if waiting.is_empty() => RunEvent::DirectoryEnd,
            None => {
                let (path, is_dir) = waiting.remove(0);
                RunEvent::Entry { stop: false, path: Some(path), is_dir }
            }
        };
        action = run.step(event).action;
    }
    assert_eq!(
        opened,
        vec!["/0".to_string(), "/0/a".to_string(), "/0/b".to_string(), "/0/a/c".to_string()]
    );
    assert_eq!(run.indexed_files(), 3);
}
