//! What the user searched for.
use crate::text;
use vstd::prelude::*;

verus! {

/// How many recent searches are kept.
pub const MAX_RECENT_SEARCHES: usize = 10;

/// User activity data related to search operations.
#[derive(Debug)]
pub struct RecentActivity {
    /// The searches made last, the newest first.
    pub recent_searches: Vec<String>,
    pub most_accessed_paths: Vec<String>,
}

/// The contents of a [`RecentActivity`].
pub struct ActivityModel {
    pub recent_searches: Seq<Seq<char>>,
    pub most_accessed_paths: Seq<Seq<char>>,
}

impl View for RecentActivity {
    type V = ActivityModel;

    open spec fn view(&self) -> ActivityModel {
        ActivityModel {
            recent_searches: text::texts(self.recent_searches@),
            most_accessed_paths: text::texts(self.most_accessed_paths@),
        }
    }
}

impl ActivityModel {
    /// Nothing happened yet.
    pub open spec fn initial() -> ActivityModel {
        ActivityModel { recent_searches: Seq::empty(), most_accessed_paths: Seq::empty() }
    }

    /// No more recent searches than are to be kept.
    pub open spec fn wf(self) -> bool {
        self.recent_searches.len() <= MAX_RECENT_SEARCHES
    }

    /// The activity after a search: the query stands first, and where the list
    /// has become too long the oldest leaves it. An empty query is not kept.
    pub open spec fn with_search(self, query: Seq<char>) -> ActivityModel {
        if query.len() == 0 {
            self
        } else {
            let longer = seq![query] + self.recent_searches;
            ActivityModel {
                recent_searches: if longer.len() > MAX_RECENT_SEARCHES {
                    longer.drop_last()
                } else {
                    longer
                },
                ..self
            }
        }
    }
}

impl Default for RecentActivity {
    fn default() -> (activity: Self)
        ensures
            activity@ == ActivityModel::initial(),
            activity@.wf(),
            activity.recent_searches@.len() == 0,
            activity.most_accessed_paths@.len() == 0,
    {
        let activity = RecentActivity {
            recent_searches: Vec::new(),
            most_accessed_paths: Vec::new(),
        };
        assert(activity@.recent_searches =~= Seq::empty());
        assert(activity@.most_accessed_paths =~= Seq::empty());
        activity
    }
}

impl Clone for RecentActivity {
    fn clone(&self) -> (res: Self)
        ensures
            res@ == self@,
    {
        RecentActivity {
            recent_searches: text::clone_texts(&self.recent_searches),
            most_accessed_paths: text::clone_texts(&self.most_accessed_paths),
        }
    }
}

impl RecentActivity {
    /// Puts a query in front of the recent searches.
    pub fn record_search(&mut self, query: &str)
        ensures
            final(self)@ == old(self)@.with_search(query@),
            old(self)@.wf() ==> final(self)@.wf(),
    {
        if !query.is_empty() {
            let ghost before = self@.recent_searches;
            self.recent_searches.insert(0, query.to_owned());
            assert(self@.recent_searches =~= seq![query@] + before);
            if self.recent_searches.len() > MAX_RECENT_SEARCHES {
                self.recent_searches.pop();
                assert(self@.recent_searches =~= (seq![query@] + before).drop_last());
            }
        }
    }
}

/// The activity after the given queries, asked one after the other.
pub open spec fn after_queries(queries: Seq<Seq<char>>) -> ActivityModel
    decreases queries.len(),
{
    if queries.len() == 0 {
        ActivityModel::initial()
    } else {
        after_queries(queries.drop_last()).with_search(queries.last())
    }
}

/// After any queries, the recent searches are the last ten of those that were
/// not empty (all of them, where there are fewer), the newest first.
pub proof fn law_recent_searches_are_the_newest(queries: Seq<Seq<char>>)
    ensures
        ({
            let asked = queries.filter(|q: Seq<char>| q.len() > 0);
            let kept = if asked.len() < MAX_RECENT_SEARCHES {
                asked.len() as int
            } else {
                MAX_RECENT_SEARCHES as int
            };
            &&& after_queries(queries).wf()
            &&& after_queries(queries).recent_searches == asked.reverse().take(kept)
        }),
    decreases queries.len(),
{
    let asks = |q: Seq<char>| q.len() > 0;
    let asked = queries.filter(asks);
    reveal(Seq::filter);
    if queries.len() > 0 {
        let before = queries.drop_last();
        let query = queries.last();
        law_recent_searches_are_the_newest(before);
        let asked_before = before.filter(asks);
        if query.len() > 0 {
            assert(asked == asked_before.push(query));
            assert(asked.reverse() =~= seq![query] + asked_before.reverse());
        } else {
            assert(asked == asked_before);
        }
        let kept = if asked.len() < MAX_RECENT_SEARCHES {
            asked.len() as int
        } else {
            MAX_RECENT_SEARCHES as int
        };
        assert(after_queries(queries).recent_searches =~= asked.reverse().take(kept));
    } else {
        assert(after_queries(queries).recent_searches =~= asked.reverse().take(0));
    }
}

/// A query comes first among the recent searches, in front of those there
/// were, of which only the oldest leaves, where there were ten. An empty query
/// changes nothing, and nothing changes the most accessed paths.
pub proof fn law_search_comes_first(activity: ActivityModel, query: Seq<char>)
    ensures
        ({
            let old = activity.recent_searches;
            let new = activity.with_search(query).recent_searches;
            &&& activity.with_search(query).most_accessed_paths == activity.most_accessed_paths
            &&& query.len() == 0 ==> new == old
            &&& query.len() > 0 ==> {
                &&& new.len() == if old.len() < 10 {
                    old.len() + 1
                } else {
                    old.len()
                }
                &&& new[0] == query
                &&& forall|i: int| 1 <= i < new.len() ==> #[trigger] new[i] == old[i - 1]
            }
        }),
{
}

/// The activity stands in the specifications string by string.
pub proof fn law_activity_shows_its_fields(activity: RecentActivity)
    ensures
        activity@.recent_searches.len() == activity.recent_searches@.len(),
        forall|i: int|
            0 <= i < activity.recent_searches@.len() ==> #[trigger] activity@.recent_searches[i]
                == activity.recent_searches@[i]@,
        activity@.most_accessed_paths.len() == activity.most_accessed_paths@.len(),
        forall|i: int|
            0 <= i < activity.most_accessed_paths@.len()
                ==> #[trigger] activity@.most_accessed_paths[i]
                == activity.most_accessed_paths@[i]@,
{
}

} // verus!
