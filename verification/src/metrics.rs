//! How searches perform.
use vstd::prelude::*;

verus! {

/// The average time of a search: `total_ms / searches` milliseconds.
#[derive(Debug, Clone, Copy, PartialEq, Eq, Structural)]
pub struct AverageTime {
    pub total_ms: u128,
    pub searches: usize,
}

/// The share of searches that the cache answered: `100 * hits / searches`
/// percent.
#[derive(Debug, Clone, Copy, PartialEq, Eq, Structural)]
pub struct HitRate {
    pub hits: usize,
    pub searches: usize,
}

/// Performance metrics for the search engine.
#[derive(Debug, Clone, Copy, PartialEq, Eq, Structural)]
pub struct SearchEngineMetrics {
    pub last_indexing_duration_ms: Option<u64>,
    pub average_search_time_ms: Option<AverageTime>,
    pub cache_hit_rate: Option<HitRate>,
    pub total_searches: usize,
    pub cache_hits: usize,
}

impl SearchEngineMetrics {
    /// No search and no indexing took place.
    pub open spec fn initial() -> SearchEngineMetrics {
        SearchEngineMetrics {
            last_indexing_duration_ms: None,
            average_search_time_ms: None,
            cache_hit_rate: None,
            total_searches: 0,
            cache_hits: 0,
        }
    }

    /// The average, where there is one, is over all the searches counted.
    pub open spec fn wf(self) -> bool {
        self.average_search_time_ms matches Some(average) ==> {
            &&& 0 < average.searches
            &&& average.searches == self.total_searches
            &&& average.total_ms <= average.searches * u64::MAX
        }
    }

    /// Another search can be counted.
    pub open spec fn has_room(self, cache_hit: bool) -> bool {
        &&& self.total_searches < usize::MAX
        &&& cache_hit ==> self.cache_hits < usize::MAX
    }

    /// The average over one search more, which took `ms`. Where there was no
    /// average, the one search stands for all that were counted.
    pub open spec fn average_with(self, ms: u64) -> AverageTime {
        let searches = (self.total_searches + 1) as usize;
        AverageTime {
            total_ms: match self.average_search_time_ms {
                Some(average) => (average.total_ms + ms) as u128,
                None => (ms * searches) as u128,
            },
            searches,
        }
    }

    /// The metrics after one search more, which took `ms`. The hit rate never
    /// exceeds 100 percent.
    pub open spec fn after_search(self, ms: u64, cache_hit: bool) -> SearchEngineMetrics {
        let searches = (self.total_searches + 1) as usize;
        let cache_hits = if cache_hit {
            (self.cache_hits + 1) as usize
        } else {
            self.cache_hits
        };
        SearchEngineMetrics {
            total_searches: searches,
            cache_hits,
            cache_hit_rate: Some(
                HitRate {
                    hits: if cache_hits <= searches {
                        cache_hits
                    } else {
                        searches
                    },
                    searches,
                },
            ),
            average_search_time_ms: Some(self.average_with(ms)),
            ..self
        }
    }
}

impl Default for SearchEngineMetrics {
    fn default() -> (metrics: Self)
        ensures
            metrics == SearchEngineMetrics::initial(),
            metrics.wf(),
            metrics.last_indexing_duration_ms is None,
            metrics.average_search_time_ms is None,
            metrics.cache_hit_rate is None,
            metrics.total_searches == 0,
            metrics.cache_hits == 0,
    {
        SearchEngineMetrics {
            last_indexing_duration_ms: None,
            average_search_time_ms: None,
            cache_hit_rate: None,
            total_searches: 0,
            cache_hits: 0,
        }
    }
}

impl SearchEngineMetrics {
    /// Counts a search that took `ms`.
    pub fn record_search(&mut self, ms: u64, cache_hit: bool)
        requires
            old(self).wf(),
            old(self).has_room(cache_hit),
        ensures
            *final(self) == old(self).after_search(ms, cache_hit),
            final(self).wf(),
    {
        proof {
            lemma_total_fits(*self, ms);
        }
        self.total_searches = self.total_searches + 1;
        if cache_hit {
            self.cache_hits = self.cache_hits + 1;
        }
        let searches: usize = self.total_searches;
        let hits: usize = if self.cache_hits <= searches {
            self.cache_hits
        } else {
            searches
        };
        self.cache_hit_rate = Some(HitRate { hits, searches });
        let total_ms: u128 = match self.average_search_time_ms {
            Some(average) => average.total_ms + ms as u128,
            None => ms as u128 * searches as u128,
        };
        self.average_search_time_ms = Some(AverageTime { total_ms, searches });
    }

    /// Whether the average, where there is one, is over all the searches
    /// counted.
    pub fn is_consistent(&self) -> (consistent: bool)
        ensures
            consistent == self.wf(),
    {
        match self.average_search_time_ms {
            Some(average) => {
                proof {
                    lemma_longest_fits(average.searches);
                }
                0 < average.searches && average.searches == self.total_searches
                    && average.total_ms <= average.searches as u128 * u64::MAX as u128
            },
            None => true,
        }
    }

    /// Whether another search can be counted.
    pub fn can_record(&self, cache_hit: bool) -> (room: bool)
        ensures
            room == self.has_room(cache_hit),
    {
        self.total_searches < usize::MAX && (!cache_hit || self.cache_hits < usize::MAX)
    }
}

/// So many searches of the longest time have a total that fits.
proof fn lemma_longest_fits(searches: usize)
    ensures
        0 <= searches * u64::MAX <= u128::MAX,
{
    let n = searches as int;
    let top = u64::MAX as int;
    assert(0 <= n * top <= u128::MAX) by (nonlinear_arith)
        requires
            0 <= n < 0x1_0000_0000_0000_0000,
            top == 0xffff_ffff_ffff_ffff,
    ;
}

/// The new total is no more than a search of the longest time for every one
/// counted, which fits.
pub proof fn lemma_total_fits(metrics: SearchEngineMetrics, ms: u64)
    requires
        metrics.wf(),
        metrics.total_searches < usize::MAX,
    ensures
        0 <= ms * (metrics.total_searches + 1) <= (metrics.total_searches + 1) * u64::MAX
            <= u128::MAX,
        metrics.average_search_time_ms matches Some(average) ==> average.total_ms + ms <= (
        metrics.total_searches + 1) * u64::MAX,
        (metrics.total_searches + 1) * u64::MAX == metrics.total_searches * u64::MAX + u64::MAX,
{
    let n = metrics.total_searches as int;
    let top = u64::MAX as int;
    let m = ms as int;
    assert(0 <= m * (n + 1) <= (n + 1) * top) by (nonlinear_arith)
        requires
            0 <= m <= top,
            0 <= n,
    ;
    assert((n + 1) * top <= u128::MAX) by (nonlinear_arith)
        requires
            0 <= n < 0x1_0000_0000_0000_0000,
            top == 0xffff_ffff_ffff_ffff,
    ;
    assert((n + 1) * top == n * top + top) by (nonlinear_arith);
}

/// The metrics after searches of the given times and cache answers.
pub open spec fn after_searches(searches: Seq<(u64, bool)>) -> SearchEngineMetrics
    decreases searches.len(),
{
    if searches.len() == 0 {
        SearchEngineMetrics::initial()
    } else {
        after_searches(searches.drop_last()).after_search(searches.last().0, searches.last().1)
    }
}

/// The sum of the times of the searches.
pub open spec fn sum_of_times(searches: Seq<(u64, bool)>) -> int
    decreases searches.len(),
{
    if searches.len() == 0 {
        0
    } else {
        sum_of_times(searches.drop_last()) + searches.last().0
    }
}

/// The number of searches that the cache answered.
pub open spec fn count_of_hits(searches: Seq<(u64, bool)>) -> int
    decreases searches.len(),
{
    if searches.len() == 0 {
        0
    } else {
        count_of_hits(searches.drop_last()) + if searches.last().1 {
            1int
        } else {
            0int
        }
    }
}

/// After any searches, the metrics count them and the cache's answers, the
/// average search time is the mean of all the times, and the hit rate is the
/// share of cache answers, which is at most the whole.
pub proof fn law_metrics_summarize_searches(searches: Seq<(u64, bool)>)
    requires
        0 < searches.len() <= usize::MAX,
    ensures
        ({
            let metrics = after_searches(searches);
            &&& metrics.wf()
            &&& metrics.total_searches == searches.len()
            &&& metrics.cache_hits == count_of_hits(searches)
            &&& 0 <= count_of_hits(searches) <= searches.len()
            &&& metrics.average_search_time_ms == Some(
                AverageTime {
                    total_ms: sum_of_times(searches) as u128,
                    searches: searches.len() as usize,
                },
            )
            &&& 0 <= sum_of_times(searches) <= u128::MAX
            &&& metrics.cache_hit_rate == Some(
                HitRate { hits: count_of_hits(searches) as usize, searches: searches.len() as usize },
            )
        }),
    decreases searches.len(),
{
    let before = searches.drop_last();
    let ms = searches.last().0;
    if before.len() == 0 {
        assert(after_searches(before) == SearchEngineMetrics::initial());
        assert(sum_of_times(before) == 0);
        assert(count_of_hits(before) == 0);
        let one = (SearchEngineMetrics::initial().total_searches + 1) as usize;
        assert(ms * one == ms) by (nonlinear_arith)
            requires
                one == 1,
        ;
    } else {
        law_metrics_summarize_searches(before);
    }
    lemma_total_fits(after_searches(before), ms);
}

/// A search counts once, and once more among the hits exactly where the cache
/// answered. The hit rate is the share of the hits, at most the whole. The
/// average gains the time of the search; where there was none, that time
/// stands for every search counted.
pub proof fn law_search_is_counted(metrics: SearchEngineMetrics, ms: u64, cache_hit: bool)
    requires
        metrics.wf(),
        metrics.total_searches < usize::MAX,
        cache_hit ==> metrics.cache_hits < usize::MAX,
    ensures
        ({
            let after = metrics.after_search(ms, cache_hit);
            let searches = metrics.total_searches + 1;
            &&& after.total_searches == searches
            &&& cache_hit ==> after.cache_hits == metrics.cache_hits + 1
            &&& !cache_hit ==> after.cache_hits == metrics.cache_hits
            &&& after.cache_hit_rate matches Some(rate) && rate.searches == searches && rate.hits
                == if after.cache_hits <= searches {
                after.cache_hits as int
            } else {
                searches
            }
            &&& after.average_search_time_ms matches Some(average) && average.searches == searches
                && average.total_ms == match metrics.average_search_time_ms {
                Some(before) => before.total_ms + ms,
                None => ms * searches,
            }
            &&& after.last_indexing_duration_ms == metrics.last_indexing_duration_ms
            &&& after.wf()
        }),
{
    lemma_total_fits(metrics, ms);
}

/// Only full counters keep a search from being counted, and only an average
/// that is not over the searches counted, or longer than any searches could
/// take, is not consistent.
pub proof fn law_only_full_counters_refuse(metrics: SearchEngineMetrics, cache_hit: bool)
    ensures
        metrics.has_room(cache_hit) <==> metrics.total_searches < usize::MAX && (!cache_hit
            || metrics.cache_hits < usize::MAX),
        metrics.wf() <==> match metrics.average_search_time_ms {
            Some(average) => 0 < average.searches && average.searches == metrics.total_searches
                && average.total_ms <= average.searches * u64::MAX,
            None => true,
        },
{
}

} // verus!
