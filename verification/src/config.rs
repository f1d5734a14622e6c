//! Configuration of the search engine.
use crate::text;
use vstd::prelude::*;

verus! {

/// How long the cache keeps an answer where the configuration does not say:
/// one hour.
pub const DEFAULT_CACHE_TTL_SECS: u64 = 3600;

/// A span of time.
#[derive(Debug, Clone, Copy, PartialEq, Eq, Structural)]
pub struct TimeSpan {
    pub secs: u64,
    pub nanos: u32,
}

/// How results are ranked.
#[derive(Debug, Clone, Copy, PartialEq, Eq, Structural)]
pub struct RankingConfig {
    /// By how much directories come before files, as the bits of an IEEE 754
    /// single; zero is no boost.
    pub directory_ranking_boost: u32,
}

/// Configuration of the search engine.
#[derive(Debug)]
pub struct SearchEngineConfig {
    pub search_engine_enabled: bool,
    pub cache_size: usize,
    pub max_results: usize,
    pub cache_ttl: Option<TimeSpan>,
    pub ranking_config: RankingConfig,
    pub prefer_directories: bool,
    pub excluded_patterns: Option<Vec<String>>,
    pub preferred_extensions: Vec<String>,
}

/// The contents of a [`SearchEngineConfig`].
pub struct ConfigModel {
    pub search_engine_enabled: bool,
    pub cache_size: usize,
    pub max_results: usize,
    pub cache_ttl: Option<TimeSpan>,
    pub ranking_config: RankingConfig,
    pub prefer_directories: bool,
    pub excluded_patterns: Option<Seq<Seq<char>>>,
    pub preferred_extensions: Seq<Seq<char>>,
}

/// What an index is made with.
#[derive(Debug, Clone, Copy, PartialEq, Eq, Structural)]
pub struct EngineSettings {
    pub cache_size: usize,
    pub max_results: usize,
    pub cache_ttl: TimeSpan,
    pub ranking_config: RankingConfig,
}

impl View for SearchEngineConfig {
    type V = ConfigModel;

    open spec fn view(&self) -> ConfigModel {
        ConfigModel {
            search_engine_enabled: self.search_engine_enabled,
            cache_size: self.cache_size,
            max_results: self.max_results,
            cache_ttl: self.cache_ttl,
            ranking_config: self.ranking_config,
            prefer_directories: self.prefer_directories,
            excluded_patterns: text::opt_texts(self.excluded_patterns),
            preferred_extensions: text::texts(self.preferred_extensions@),
        }
    }
}

impl ConfigModel {
    /// The settings of an index under this configuration: directories are
    /// boosted only where they are preferred, and the cache keeps an answer
    /// for an hour where nothing else is said.
    pub open spec fn engine_settings(self) -> EngineSettings {
        EngineSettings {
            cache_size: self.cache_size,
            max_results: self.max_results,
            cache_ttl: match self.cache_ttl {
                Some(ttl) => ttl,
                None => TimeSpan { secs: DEFAULT_CACHE_TTL_SECS, nanos: 0 },
            },
            ranking_config: if self.prefer_directories {
                self.ranking_config
            } else {
                RankingConfig { directory_ranking_boost: 0, ..self.ranking_config }
            },
        }
    }

    /// The patterns that keep paths out of the index; none where the
    /// configuration does not say.
    pub open spec fn patterns(self) -> Seq<Seq<char>> {
        match self.excluded_patterns {
            Some(patterns) => patterns,
            None => Seq::empty(),
        }
    }
}

impl Clone for SearchEngineConfig {
    fn clone(&self) -> (res: Self)
        ensures
            res@ == self@,
    {
        SearchEngineConfig {
            search_engine_enabled: self.search_engine_enabled,
            cache_size: self.cache_size,
            max_results: self.max_results,
            cache_ttl: self.cache_ttl,
            ranking_config: self.ranking_config,
            prefer_directories: self.prefer_directories,
            excluded_patterns: text::clone_opt_texts(&self.excluded_patterns),
            preferred_extensions: text::clone_texts(&self.preferred_extensions),
        }
    }
}

impl SearchEngineConfig {
    /// The settings of an index under this configuration.
    pub fn engine_settings(&self) -> (settings: EngineSettings)
        ensures
            settings == self@.engine_settings(),
            settings.cache_size == self.cache_size,
            settings.max_results == self.max_results,
            self.cache_ttl matches Some(ttl) ==> settings.cache_ttl == ttl,
            self.cache_ttl is None ==> settings.cache_ttl.secs == 3600 && settings.cache_ttl.nanos
                == 0,
            self.prefer_directories ==> settings.ranking_config == self.ranking_config,
            !self.prefer_directories ==> settings.ranking_config.directory_ranking_boost == 0,
    {
        let mut ranking_config: RankingConfig = self.ranking_config;
        if !self.prefer_directories {
            ranking_config.directory_ranking_boost = 0;
        }
        EngineSettings {
            cache_size: self.cache_size,
            max_results: self.max_results,
            cache_ttl: match self.cache_ttl {
                Some(ttl) => ttl,
                None => TimeSpan { secs: DEFAULT_CACHE_TTL_SECS, nanos: 0 },
            },
            ranking_config,
        }
    }

    /// The patterns that keep paths out of the index.
    pub fn patterns(&self) -> (patterns: Vec<String>)
        ensures
            text::texts(patterns@) == self@.patterns(),
            self.excluded_patterns is None ==> patterns@.len() == 0,
            self.excluded_patterns matches Some(list) ==> {
                &&& patterns@.len() == list@.len()
                &&& forall|i: int|
                    0 <= i < patterns@.len() ==> (#[trigger] patterns@[i])@ == list@[i]@
            },
    {
        match &self.excluded_patterns {
            Some(patterns) => text::clone_texts(patterns),
            None => {
                let none: Vec<String> = Vec::new();
                assert(text::texts(none@) =~= Seq::empty());
                none
            },
        }
    }
}

/// The patterns of a configuration are all of those it names, in order, and
/// none where it names none.
pub proof fn law_no_pattern_is_dropped(config: ConfigModel)
    ensures
        config.excluded_patterns matches Some(list) ==> {
            &&& config.patterns().len() == list.len()
            &&& forall|i: int| 0 <= i < list.len() ==> #[trigger] config.patterns()[i] == list[i]
        },
        config.excluded_patterns is None ==> config.patterns().len() == 0,
{
}

/// The index is made as the configuration says. Where it names no time the
/// cache keeps an answer for an hour, and directories are boosted, by what it
/// names, exactly where they are preferred.
pub proof fn law_settings_follow_the_configuration(config: ConfigModel)
    ensures
        ({
            let settings = config.engine_settings();
            &&& settings.cache_size == config.cache_size
            &&& settings.max_results == config.max_results
            &&& config.cache_ttl matches Some(ttl) ==> settings.cache_ttl == ttl
            &&& config.cache_ttl is None ==> settings.cache_ttl.secs == 3600
                && settings.cache_ttl.nanos == 0
            &&& settings.ranking_config.directory_ranking_boost == if config.prefer_directories {
                config.ranking_config.directory_ranking_boost
            } else {
                0
            }
        }),
{
}

/// A configuration stands in the specifications field by field.
pub proof fn law_configuration_shows_its_fields(config: SearchEngineConfig)
    ensures
        config@.search_engine_enabled == config.search_engine_enabled,
        config@.cache_size == config.cache_size,
        config@.max_results == config.max_results,
        config@.cache_ttl == config.cache_ttl,
        config@.ranking_config == config.ranking_config,
        config@.prefer_directories == config.prefer_directories,
        config@.excluded_patterns is Some <==> config.excluded_patterns is Some,
        config.excluded_patterns matches Some(list) ==> {
            &&& config@.excluded_patterns->0.len() == list@.len()
            &&& forall|i: int|
                0 <= i < list@.len() ==> #[trigger] config@.excluded_patterns->0[i] == list@[i]@
        },
        config@.preferred_extensions.len() == config.preferred_extensions@.len(),
        forall|i: int|
            0 <= i < config.preferred_extensions@.len()
                ==> #[trigger] config@.preferred_extensions[i] == config.preferred_extensions@[i]@,
{
}

} // verus!
