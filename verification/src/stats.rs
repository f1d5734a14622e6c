//! Statistics of the index.
use vstd::prelude::*;
use vstd::std_specs::convert::{FromSpec, FromSpecImpl};

verus! {

/// Statistics as the index counts them.
#[derive(Debug, Clone, Copy, PartialEq, Eq, Structural)]
pub struct EngineStats {
    pub cache_size: usize,
    pub trie_size: usize,
}

/// Statistics of the index as they are shown and stored.
#[derive(Debug, Clone, Copy, PartialEq, Eq, Structural)]
pub struct EngineStatsSerializable {
    pub cache_size: usize,
    pub trie_size: usize,
}

impl From<EngineStats> for EngineStatsSerializable {
    fn from(stats: EngineStats) -> (res: Self) {
        EngineStatsSerializable { cache_size: stats.cache_size, trie_size: stats.trie_size }
    }
}

impl FromSpecImpl<EngineStats> for EngineStatsSerializable {
    open spec fn obeys_from_spec() -> bool {
        true
    }

    open spec fn from_spec(stats: EngineStats) -> EngineStatsSerializable {
        EngineStatsSerializable { cache_size: stats.cache_size, trie_size: stats.trie_size }
    }
}

/// The statistics are shown as they are counted.
pub proof fn law_statistics_are_shown_as_counted(stats: EngineStats)
    ensures
        <EngineStatsSerializable as FromSpec<EngineStats>>::from_spec(stats).cache_size
            == stats.cache_size,
        <EngineStatsSerializable as FromSpec<EngineStats>>::from_spec(stats).trie_size
            == stats.trie_size,
{
}

} // verus!
