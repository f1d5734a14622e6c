//! How far an indexing operation has come.
use crate::text;
use vstd::prelude::*;

verus! {

/// How much of an indexing operation is done, as the counts from which the
/// percentage shown to the user is computed.
#[derive(Debug, Clone, Copy, PartialEq, Eq, Structural)]
pub enum Completion {
    /// Nothing is done: 0 percent.
    Zero,
    /// The share of the files known that has been indexed:
    /// `100 * indexed / total` percent.
    Indexed { indexed: usize, total: usize },
    /// While files are still being discovered: indexing counts for 85 percent
    /// and discovery for 15, which it approaches as the number of files grows:
    /// `85 * indexed / discovered + 15 * discovered / (discovered + 50)`.
    Discovering { indexed: usize, discovered: usize },
    /// Everything is done: 100 percent.
    Full,
}

/// What the remaining time of an indexing operation is estimated from: the
/// average time per file indexed so far, for every file that is left, that is
/// `elapsed_ms / files_indexed * files_remaining` milliseconds.
#[derive(Debug, Clone, Copy, PartialEq, Eq, Structural)]
pub struct RemainingTime {
    pub elapsed_ms: u64,
    pub files_indexed: usize,
    pub files_remaining: usize,
}

/// Progress information for ongoing indexing operations.
#[derive(Debug)]
pub struct IndexingProgress {
    pub files_discovered: usize,
    pub files_indexed: usize,
    pub percentage_complete: Completion,
    pub current_path: Option<String>,
    /// As milliseconds since the Unix epoch.
    pub start_time: Option<u64>,
    pub estimated_time_remaining: Option<RemainingTime>,
}

/// The contents of an [`IndexingProgress`].
pub struct ProgressModel {
    pub files_discovered: usize,
    pub files_indexed: usize,
    pub percentage_complete: Completion,
    pub current_path: Option<Seq<char>>,
    pub start_time: Option<u64>,
    pub estimated_time_remaining: Option<RemainingTime>,
}

impl View for IndexingProgress {
    type V = ProgressModel;

    open spec fn view(&self) -> ProgressModel {
        ProgressModel {
            files_discovered: self.files_discovered,
            files_indexed: self.files_indexed,
            percentage_complete: self.percentage_complete,
            current_path: text::opt_text(self.current_path),
            start_time: self.start_time,
            estimated_time_remaining: self.estimated_time_remaining,
        }
    }
}

impl Completion {
    /// The numerator of the percentage as a fraction.
    pub open spec fn numerator(self) -> int {
        match self {
            Completion::Zero => 0,
            Completion::Indexed { indexed, total } => 100 * indexed,
            Completion::Discovering { indexed, discovered } => 85 * indexed * (discovered + 50)
                + 15 * discovered * discovered,
            Completion::Full => 100,
        }
    }

    /// The denominator of the percentage as a fraction.
    pub open spec fn denominator(self) -> int {
        match self {
            Completion::Zero => 1,
            Completion::Indexed { indexed, total } => total as int,
            Completion::Discovering { indexed, discovered } => discovered * (discovered + 50),
            Completion::Full => 1,
        }
    }

    /// The counts make sense: there is something to divide by, and no more
    /// files are indexed than are known.
    pub open spec fn wf(self) -> bool {
        match self {
            Completion::Zero => true,
            Completion::Indexed { indexed, total } => 0 < total && indexed <= total,
            Completion::Discovering { indexed, discovered } => 0 < discovered && indexed
                <= discovered,
            Completion::Full => true,
        }
    }
}

impl ProgressModel {
    /// Nothing discovered, nothing indexed, not started.
    pub open spec fn initial() -> ProgressModel {
        ProgressModel {
            files_discovered: 0,
            files_indexed: 0,
            percentage_complete: Completion::Zero,
            current_path: None,
            start_time: None,
            estimated_time_remaining: None,
        }
    }

    /// The progress of an operation that starts at `now`.
    pub open spec fn started(now: u64) -> ProgressModel {
        ProgressModel { start_time: Some(now), ..ProgressModel::initial() }
    }

    /// The counts set back to zero, with `path` as the path worked on.
    pub open spec fn restarted(self, path: Seq<char>) -> ProgressModel {
        ProgressModel {
            files_discovered: 0,
            files_indexed: 0,
            percentage_complete: Completion::Zero,
            current_path: Some(path),
            ..self
        }
    }

    /// The counts of a walk that is still discovering files.
    pub open spec fn reported(
        self,
        discovered: usize,
        indexed: usize,
        path: Option<Seq<char>>,
    ) -> ProgressModel {
        ProgressModel {
            files_discovered: discovered,
            files_indexed: indexed,
            current_path: path,
            percentage_complete: if discovered > 0 {
                Completion::Discovering { indexed, discovered }
            } else {
                self.percentage_complete
            },
            ..self
        }
    }

    /// The clock at `now` has not fallen behind the start of the operation.
    pub open spec fn clock_ok(self, now: u64) -> bool {
        self.start_time matches Some(start) ==> start <= now
    }

    /// The estimate after `indexed` of `total` files, at `now`. It is made anew
    /// where the start is known and some file is indexed.
    pub open spec fn estimate_at(self, indexed: usize, total: usize, now: u64) -> Option<
        RemainingTime,
    > {
        match self.start_time {
            Some(start) if indexed > 0 => Some(
                RemainingTime {
                    elapsed_ms: (now - start) as u64,
                    files_indexed: indexed,
                    files_remaining: if indexed <= total {
                        (total - indexed) as usize
                    } else {
                        0
                    },
                },
            ),
            _ => self.estimated_time_remaining,
        }
    }

    /// The counts after a batch of files went into the index, at `now`.
    pub open spec fn after_batch(self, indexed: usize, total: usize, now: u64) -> ProgressModel {
        ProgressModel {
            files_discovered: total,
            files_indexed: indexed,
            percentage_complete: if total > 0 {
                Completion::Indexed { indexed, total }
            } else {
                Completion::Zero
            },
            estimated_time_remaining: self.estimate_at(indexed, total, now),
            ..self
        }
    }

    /// The counts as the indexer states them, at `now`. Of no files at all no
    /// share is computed.
    pub open spec fn updated(
        self,
        indexed: usize,
        total: usize,
        path: Option<Seq<char>>,
        now: u64,
    ) -> ProgressModel {
        ProgressModel {
            files_discovered: total,
            files_indexed: indexed,
            current_path: path,
            percentage_complete: if total > 0 {
                Completion::Indexed { indexed, total }
            } else {
                self.percentage_complete
            },
            estimated_time_remaining: self.estimate_at(indexed, total, now),
            ..self
        }
    }

    /// The counts of an operation that ran to its end.
    pub open spec fn finished(self, indexed: usize, discovered: usize) -> ProgressModel {
        ProgressModel {
            files_discovered: discovered,
            files_indexed: indexed,
            percentage_complete: Completion::Full,
            current_path: None,
            ..self
        }
    }
}

impl Default for IndexingProgress {
    fn default() -> (progress: Self)
        ensures
            progress@ == ProgressModel::initial(),
            progress.files_discovered == 0,
            progress.files_indexed == 0,
            progress.percentage_complete == Completion::Zero,
            progress.current_path is None,
            progress.start_time is None,
            progress.estimated_time_remaining is None,
    {
        IndexingProgress {
            files_discovered: 0,
            files_indexed: 0,
            percentage_complete: Completion::Zero,
            current_path: None,
            start_time: None,
            estimated_time_remaining: None,
        }
    }
}

impl Clone for IndexingProgress {
    fn clone(&self) -> (res: Self)
        ensures
            res@ == self@,
    {
        IndexingProgress {
            files_discovered: self.files_discovered,
            files_indexed: self.files_indexed,
            percentage_complete: self.percentage_complete,
            current_path: self.current_path.clone(),
            start_time: self.start_time,
            estimated_time_remaining: self.estimated_time_remaining,
        }
    }
}

impl IndexingProgress {
    /// Sets the counts back to zero and names the path worked on.
    pub fn restart(&mut self, path: String)
        ensures
            final(self)@ == old(self)@.restarted(path@),
            final(self).files_discovered == 0,
            final(self).files_indexed == 0,
            final(self).percentage_complete == Completion::Zero,
            final(self).current_path == Some(path),
    {
        self.files_discovered = 0;
        self.files_indexed = 0;
        self.percentage_complete = Completion::Zero;
        self.current_path = Some(path);
    }

    /// Records the counts of a walk that is still discovering files.
    pub fn report(&mut self, discovered: usize, indexed: usize, current_path: Option<String>)
        ensures
            final(self)@ == old(self)@.reported(discovered, indexed, text::opt_text(current_path)),
            final(self).files_discovered == discovered,
            final(self).files_indexed == indexed,
            final(self).current_path == current_path,
    {
        self.files_discovered = discovered;
        self.files_indexed = indexed;
        self.current_path = current_path;
        if discovered > 0 {
            self.percentage_complete = Completion::Discovering { indexed, discovered };
        }
    }

    /// Makes the estimate of the remaining time anew where it can be made.
    fn estimate(&mut self, indexed: usize, total: usize, now: u64)
        requires
            old(self)@.clock_ok(now),
        ensures
            final(self)@ == (ProgressModel {
                estimated_time_remaining: old(self)@.estimate_at(indexed, total, now),
                ..old(self)@
            }),
            final(self).current_path == old(self).current_path,
    {
        if let Some(start) = self.start_time {
            let elapsed_ms: u64 = now - start;
            if indexed > 0 {
                let files_remaining: usize = total.saturating_sub(indexed);
                self.estimated_time_remaining = Some(
                    RemainingTime { elapsed_ms, files_indexed: indexed, files_remaining },
                );
            }
        }
    }

    /// Records that `indexed` of `total` files are in the index.
    pub fn record_batch(&mut self, indexed: usize, total: usize, now: u64)
        requires
            old(self)@.clock_ok(now),
        ensures
            final(self)@ == old(self)@.after_batch(indexed, total, now),
            final(self).files_discovered == total,
            final(self).files_indexed == indexed,
    {
        self.files_indexed = indexed;
        self.files_discovered = total;
        self.percentage_complete = if total > 0 {
            Completion::Indexed { indexed, total }
        } else {
            Completion::Zero
        };
        self.estimate(indexed, total, now);
    }

    /// Records the counts as the indexer states them.
    pub fn update(&mut self, indexed: usize, total: usize, current_path: Option<String>, now: u64)
        requires
            old(self)@.clock_ok(now),
        ensures
            final(self)@ == old(self)@.updated(indexed, total, text::opt_text(current_path), now),
            final(self).files_discovered == total,
            final(self).files_indexed == indexed,
            final(self).current_path == current_path,
    {
        self.files_indexed = indexed;
        self.files_discovered = total;
        self.current_path = current_path;
        if total > 0 {
            self.percentage_complete = Completion::Indexed { indexed, total };
        }
        self.estimate(indexed, total, now);
    }

    /// Records that the operation ran to its end.
    pub fn finish(&mut self, indexed: usize, discovered: usize)
        ensures
            final(self)@ == old(self)@.finished(indexed, discovered),
            final(self).files_discovered == discovered,
            final(self).files_indexed == indexed,
            final(self).percentage_complete == Completion::Full,
            final(self).current_path is None,
    {
        self.files_indexed = indexed;
        self.files_discovered = discovered;
        self.percentage_complete = Completion::Full;
        self.current_path = None;
    }

    /// Whether the clock at `now` has not fallen behind the start of the
    /// operation.
    pub fn clock_is_ok(&self, now: u64) -> (ok: bool)
        ensures
            ok == self@.clock_ok(now),
            ok <==> !(self.start_time matches Some(start) && now < start),
    {
        match self.start_time {
            Some(start) => start <= now,
            None => true,
        }
    }
}

/// As long as no more files are indexed than are known, the percentage lies
/// between 0 and 100.
pub proof fn law_percentage_in_range(completion: Completion)
    requires
        completion.wf(),
    ensures
        0 < completion.denominator(),
        0 <= completion.numerator() <= 100 * completion.denominator(),
{
    match completion {
        Completion::Discovering { indexed, discovered } => {
            lemma_discovering_below_full(indexed as int, discovered as int);
        },
        _ => {},
    }
}

/// While files are still being discovered the percentage stays below 100.
pub proof fn law_discovering_is_never_full(indexed: usize, discovered: usize)
    requires
        0 < discovered,
        indexed <= discovered,
    ensures
        ({
            let completion = Completion::Discovering { indexed, discovered };
            completion.numerator() < 100 * completion.denominator()
        }),
{
    lemma_discovering_below_full(indexed as int, discovered as int);
}

proof fn lemma_discovering_below_full(i: int, d: int)
    by (nonlinear_arith)
    requires
        0 <= i <= d,
        0 < d,
    ensures
        0 < d * (d + 50),
        0 <= 85 * i * (d + 50) + 15 * d * d,
        85 * i * (d + 50) + 15 * d * d < 100 * (d * (d + 50)),
{
    assert(i * (d + 50) <= d * (d + 50));
    assert(d * d < d * (d + 50));
    assert(0 <= i * (d + 50));
    assert(85 * i * (d + 50) == 85 * (i * (d + 50)));
    assert(15 * d * d == 15 * (d * d));
}

/// With more files indexed of the same number, the percentage is no smaller.
pub proof fn law_percentage_grows_with_indexed(a: usize, b: usize, total: usize)
    requires
        a <= b,
    ensures
        (Completion::Indexed { indexed: a, total }).numerator() <= (Completion::Indexed {
            indexed: b,
            total,
        }).numerator(),
        (Completion::Discovering { indexed: a, discovered: total }).numerator() <= (
        Completion::Discovering { indexed: b, discovered: total }).numerator(),
{
    assert(85 * a * (total + 50) <= 85 * b * (total + 50)) by (nonlinear_arith)
        requires
            a <= b,
    ;
}

/// The percentages are what they are named for: of files indexed, their share
/// of the total; while files are still discovered, 85 for the share indexed
/// and 15 for how far the discovery has come, which is half done at fifty
/// files.
pub proof fn law_percentage_is_of_its_counts(indexed: usize, total: usize)
    requires
        total > 0,
    ensures
        ({
            let share = Completion::Indexed { indexed, total };
            share.numerator() * total == 100 * indexed * share.denominator()
        }),
        ({
            let known = Completion::Discovering { indexed, discovered: total };
            known.numerator() * (total * (total + 50)) == (85 * indexed * (total + 50) + 15 * total
                * total) * known.denominator()
        }),
        Completion::Zero.numerator() == 0,
        Completion::Zero.denominator() > 0,
        Completion::Full.numerator() == 100 * Completion::Full.denominator(),
        Completion::Full.denominator() > 0,
{
}

/// The progress stands in the specifications field by field.
pub proof fn law_progress_shows_its_fields(progress: IndexingProgress)
    ensures
        progress@.files_discovered == progress.files_discovered,
        progress@.files_indexed == progress.files_indexed,
        progress@.percentage_complete == progress.percentage_complete,
        progress@.current_path is Some <==> progress.current_path is Some,
        progress.current_path matches Some(path) ==> progress@.current_path == Some(path@),
        progress@.start_time == progress.start_time,
        progress@.estimated_time_remaining == progress.estimated_time_remaining,
{
}

} // verus!
