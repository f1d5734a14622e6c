//! Paths to try the search engine on, gathered from a directory tree.
//!
//! A [`PathCollector`] gathers paths depth first. The caller reads the
//! directories; the collector decides, event by event, which are opened and
//! when enough paths are gathered.
use crate::text;
use vstd::prelude::*;

verus! {

/// How many paths are made up where none are found.
pub const MADE_UP_PATHS: usize = 100;

/// Where a collector stands.
#[derive(Debug, Clone, Copy, PartialEq, Eq, Structural)]
pub enum CollectPhase {
    /// A directory is to be opened.
    Opening,
    /// The innermost open directory is being read.
    Reading,
    /// Nothing is left to do.
    Finished,
}

/// What the caller tells a collector.
#[derive(Debug)]
pub enum CollectEvent {
    /// The directory was opened, or could not be.
    Opened { ok: bool },
    /// The innermost open directory has this entry. The path is given where it
    /// is Unicode text.
    Entry { path: Option<String>, is_dir: bool },
    /// The innermost open directory has no more entries.
    End,
}

/// What the caller is to do next.
#[derive(Debug, Clone, Copy, PartialEq, Eq, Structural)]
pub enum CollectAction {
    /// Open the directory named last (the root, at first) inside those open.
    Open,
    /// Read the innermost open directory on.
    Read,
    /// Close the innermost open directory and read the one around it on.
    Leave,
    /// Close what is open; all is gathered.
    Finish,
}

/// Gathers paths from a directory tree.
#[derive(Debug)]
pub struct PathCollector {
    paths: Vec<String>,
    limit: Option<usize>,
    open: usize,
    phase: CollectPhase,
}

/// The contents of a [`CollectEvent`].
pub enum CollectEventModel {
    Opened { ok: bool },
    Entry { path: Option<Seq<char>>, is_dir: bool },
    End,
}

/// The contents of a [`PathCollector`].
pub struct CollectorModel {
    pub paths: Seq<Seq<char>>,
    /// How many paths are enough, where that is limited.
    pub limit: Option<usize>,
    /// How many directories are open.
    pub open: usize,
    pub phase: CollectPhase,
}

impl View for CollectEvent {
    type V = CollectEventModel;

    open spec fn view(&self) -> CollectEventModel {
        match *self {
            CollectEvent::Opened { ok } => CollectEventModel::Opened { ok },
            CollectEvent::Entry { path, is_dir } => CollectEventModel::Entry {
                path: text::opt_text(path),
                is_dir,
            },
            CollectEvent::End => CollectEventModel::End,
        }
    }
}

impl View for PathCollector {
    type V = CollectorModel;

    closed spec fn view(&self) -> CollectorModel {
        CollectorModel {
            paths: text::texts(self.paths@),
            limit: self.limit,
            open: self.open,
            phase: self.phase,
        }
    }
}

impl CollectorModel {
    /// Nothing gathered; the root is to be opened unless nothing is wanted.
    pub open spec fn initial(limit: Option<usize>) -> CollectorModel {
        CollectorModel {
            paths: Seq::empty(),
            limit,
            open: 0,
            phase: if limit == Some(0usize) {
                CollectPhase::Finished
            } else {
                CollectPhase::Opening
            },
        }
    }

    /// As many paths as were asked for are gathered.
    pub open spec fn enough(self) -> bool {
        self.limit matches Some(max) && self.paths.len() >= max
    }

    /// What holds of a collector at all times: directories are opened only
    /// while paths are wanted, and one is open while one is read.
    pub open spec fn wf(self) -> bool {
        match self.phase {
            CollectPhase::Opening => !self.enough(),
            CollectPhase::Reading => self.open > 0,
            CollectPhase::Finished => self.open == 0,
        }
    }

    /// The collector waits for such an event.
    pub open spec fn accepts(self, event: CollectEventModel) -> bool {
        match event {
            CollectEventModel::Opened { ok } => self.phase is Opening && self.open < usize::MAX,
            _ => self.phase is Reading,
        }
    }

    /// The innermost directory is done with: the one around it is read on.
    pub open spec fn left(self) -> (CollectorModel, CollectAction) {
        let open = (self.open - 1) as usize;
        if open == 0 {
            (
                CollectorModel { open, phase: CollectPhase::Finished, ..self },
                CollectAction::Finish,
            )
        } else {
            (CollectorModel { open, ..self }, CollectAction::Leave)
        }
    }

    /// A path is gathered, where it is text; where that is enough, the
    /// directory it lies in is done with. Else a directory is opened, as long
    /// as paths are wanted.
    pub open spec fn entry(self, path: Option<Seq<char>>, is_dir: bool) -> (
        CollectorModel,
        CollectAction,
    ) {
        let next = match path {
            Some(p) => CollectorModel { paths: self.paths.push(p), ..self },
            None => self,
        };
        if path is Some && next.enough() {
            next.left()
        } else if is_dir && !next.enough() {
            (CollectorModel { phase: CollectPhase::Opening, ..next }, CollectAction::Open)
        } else {
            (next, CollectAction::Read)
        }
    }

    /// What an event leads to.
    pub open spec fn step(self, event: CollectEventModel) -> (CollectorModel, CollectAction) {
        match event {
            CollectEventModel::Opened { ok } => if ok {
                (
                    CollectorModel {
                        open: (self.open + 1) as usize,
                        phase: CollectPhase::Reading,
                        ..self
                    },
                    CollectAction::Read,
                )
            } else if self.open == 0 {
                (
                    CollectorModel { phase: CollectPhase::Finished, ..self },
                    CollectAction::Finish,
                )
            } else {
                (CollectorModel { phase: CollectPhase::Reading, ..self }, CollectAction::Read)
            },
            CollectEventModel::Entry { path, is_dir } => self.entry(path, is_dir),
            CollectEventModel::End => self.left(),
        }
    }

    /// The paths to be used: those gathered, or made-up ones where there are
    /// none.
    pub open spec fn result(self) -> Seq<Seq<char>> {
        if self.paths.len() == 0 {
            Seq::new(MADE_UP_PATHS as nat, |i: int| made_up_path(i as nat))
        } else {
            self.paths
        }
    }
}

/// A number in decimal notation.
pub open spec fn decimal(n: nat) -> Seq<char>
    decreases n,
{
    if n < 10 {
        seq!["0123456789"@[n as int]]
    } else {
        decimal(n / 10).push("0123456789"@[(n % 10) as int])
    }
}

/// The made-up path with this number.
pub open spec fn made_up_path(n: nat) -> Seq<char> {
    "/path/to/file"@ + decimal(n) + ".txt"@
}

/// A digit in decimal notation.
fn digit(d: usize) -> (res: &'static str)
    requires
        d < 10,
    ensures
        res@ == seq!["0123456789"@[d as int]],
{
    proof {
        reveal_strlit("0123456789");
        reveal_strlit("0");
        reveal_strlit("1");
        reveal_strlit("2");
        reveal_strlit("3");
        reveal_strlit("4");
        reveal_strlit("5");
        reveal_strlit("6");
        reveal_strlit("7");
        reveal_strlit("8");
        reveal_strlit("9");
    }
    let res: &'static str = match d {
        0 => "0",
        1 => "1",
        2 => "2",
        3 => "3",
        4 => "4",
        5 => "5",
        6 => "6",
        7 => "7",
        8 => "8",
        _ => "9",
    };
    assert(res@ =~= seq!["0123456789"@[d as int]]);
    res
}

/// Writes a number in decimal notation behind a text.
fn append_decimal(text: &mut String, n: usize)
    ensures
        final(text)@ == old(text)@ + decimal(n as nat),
    decreases n,
{
    if n >= 10 {
        append_decimal(text, n / 10);
    }
    let ghost before = text@;
    text.append(digit(n % 10));
    assert(text@ =~= before.push("0123456789"@[(n % 10) as int]));
    assert(text@ =~= old(text)@ + decimal(n as nat));
}

/// The made-up paths.
fn made_up_paths() -> (paths: Vec<String>)
    ensures
        text::texts(paths@) == Seq::new(MADE_UP_PATHS as nat, |i: int| made_up_path(i as nat)),
{
    let mut paths: Vec<String> = Vec::new();
    let mut i: usize = 0;
    while i < MADE_UP_PATHS
        invariant
            i <= MADE_UP_PATHS,
            paths@.len() == i,
            forall|k: int| 0 <= k < i ==> (#[trigger] paths@[k])@ == made_up_path(k as nat),
        decreases MADE_UP_PATHS - i,
    {
        let mut path: String = "/path/to/file".to_owned();
        append_decimal(&mut path, i);
        path.append(".txt");
        paths.push(path);
        i += 1;
    }
    assert(text::texts(paths@) =~= Seq::new(
        MADE_UP_PATHS as nat,
        |k: int| made_up_path(k as nat),
    ));
    paths
}

/// Begins to gather paths, no more than about `limit` where one is given, and
/// tells what to do first.
pub fn collect_test_paths(limit: Option<usize>) -> (res: (PathCollector, CollectAction))
    ensures
        res.0@ == CollectorModel::initial(limit),
        res.0@.wf(),
        res.1 == if limit == Some(0usize) {
            CollectAction::Finish
        } else {
            CollectAction::Open
        },
{
    let nothing_wanted: bool = match limit {
        Some(max) => max == 0,
        None => false,
    };
    let mut collector = PathCollector {
        paths: Vec::new(),
        limit,
        open: 0,
        phase: CollectPhase::Opening,
    };
    assert(collector@.paths =~= Seq::empty());
    if nothing_wanted {
        collector.phase = CollectPhase::Finished;
        (collector, CollectAction::Finish)
    } else {
        (collector, CollectAction::Open)
    }
}

impl PathCollector {
    /// Where the collector stands.
    pub fn phase(&self) -> (phase: CollectPhase)
        ensures
            phase == self@.phase,
    {
        self.phase
    }

    /// Whether as many paths as were asked for are gathered.
    fn has_enough(&self) -> (enough: bool)
        ensures
            enough == self@.enough(),
    {
        match self.limit {
            Some(max) => self.paths.len() >= max,
            None => false,
        }
    }

    /// Leaves the innermost directory.
    fn leave(&mut self) -> (action: CollectAction)
        requires
            old(self)@.open > 0,
        ensures
            (final(self)@, action) == old(self)@.left(),
    {
        self.open = self.open - 1;
        if self.open == 0 {
            self.phase = CollectPhase::Finished;
            CollectAction::Finish
        } else {
            CollectAction::Leave
        }
    }

    /// Takes the collector one event further.
    pub fn step(&mut self, event: CollectEvent) -> (action: CollectAction)
        requires
            old(self)@.wf(),
            old(self)@.accepts(event@),
        ensures
            (final(self)@, action) == old(self)@.step(event@),
            final(self)@.wf(),
    {
        match event {
            CollectEvent::Opened { ok } => {
                if ok {
                    self.open = self.open + 1;
                    self.phase = CollectPhase::Reading;
                    CollectAction::Read
                } else if self.open == 0 {
                    self.phase = CollectPhase::Finished;
                    CollectAction::Finish
                } else {
                    self.phase = CollectPhase::Reading;
                    CollectAction::Read
                }
            },
            CollectEvent::Entry { path, is_dir } => {
                let ghost before = self@.paths;
                if let Some(path) = path {
                    let ghost path_text = path@;
                    self.paths.push(path);
                    assert(self@.paths =~= before.push(path_text));
                    if self.has_enough() {
                        return self.leave();
                    }
                }
                if is_dir && !self.has_enough() {
                    self.phase = CollectPhase::Opening;
                    CollectAction::Open
                } else {
                    CollectAction::Read
                }
            },
            CollectEvent::End => self.leave(),
        }
    }

    /// The paths to be used.
    pub fn into_paths(self) -> (paths: Vec<String>)
        ensures
            text::texts(paths@) == self@.result(),
    {
        if self.paths.len() == 0 {
            made_up_paths()
        } else {
            self.paths
        }
    }
}

/// A path, and whether a directory lies there.
#[derive(Debug)]
pub struct Candidate {
    pub path: String,
    pub is_dir: bool,
}

/// The folder to try indexing on: the first of the candidates that is a
/// directory, or the whole test data where none is.
pub fn get_test_dir_for_indexing(candidates: &Vec<Candidate>, test_data: &str) -> (folder: String)
    ensures
        match first_directory(candidates@) {
            Some(i) => folder@ == candidates@[i].path@,
            None => folder@ == test_data@,
        },
{
    let mut i: usize = 0;
    while i < candidates.len()
        invariant
            i <= candidates.len(),
            forall|k: int| 0 <= k < i ==> !(#[trigger] candidates@[k]).is_dir,
        decreases candidates.len() - i,
    {
        if candidates[i].is_dir {
            proof {
                lemma_first_directory(candidates@, i as int);
            }
            return candidates[i].path.clone();
        }
        i += 1;
    }
    proof {
        lemma_no_directory(candidates@);
    }
    get_test_data_path(test_data)
}

/// Where the first directory stands among the candidates.
pub open spec fn first_directory(candidates: Seq<Candidate>) -> Option<int>
    decreases candidates.len(),
{
    if candidates.len() == 0 {
        None
    } else {
        match first_directory(candidates.drop_last()) {
            Some(i) => Some(i),
            None => if candidates.last().is_dir {
                Some(candidates.len() - 1)
            } else {
                None
            },
        }
    }
}

proof fn lemma_no_directory(candidates: Seq<Candidate>)
    requires
        forall|k: int| 0 <= k < candidates.len() ==> !(#[trigger] candidates[k]).is_dir,
    ensures
        first_directory(candidates) is None,
    decreases candidates.len(),
{
    if candidates.len() > 0 {
        assert forall|k: int| 0 <= k < candidates.drop_last().len() implies !(
        #[trigger] candidates.drop_last()[k]).is_dir by {
            assert(candidates.drop_last()[k] == candidates[k]);
        }
        assert(!candidates[candidates.len() - 1].is_dir);
        lemma_no_directory(candidates.drop_last());
    }
}

proof fn lemma_first_directory(candidates: Seq<Candidate>, i: int)
    requires
        0 <= i < candidates.len(),
        candidates[i].is_dir,
        forall|k: int| 0 <= k < i ==> !(#[trigger] candidates[k]).is_dir,
    ensures
        first_directory(candidates) == Some(i),
    decreases candidates.len(),
{
    let shorter = candidates.drop_last();
    if i == candidates.len() - 1 {
        assert forall|k: int| 0 <= k < shorter.len() implies !(#[trigger] shorter[k]).is_dir by {
            assert(shorter[k] == candidates[k]);
        }
        lemma_no_directory(shorter);
    } else {
        assert(shorter[i] == candidates[i]);
        assert forall|k: int| 0 <= k < i implies !(#[trigger] shorter[k]).is_dir by {
            assert(shorter[k] == candidates[k]);
        }
        lemma_first_directory(shorter, i);
    }
}

/// Where the test data lies: at the place it is kept, whether or not it could
/// be made anew there.
pub fn get_test_data_path(test_data: &str) -> (path: String)
    ensures
        path@ == test_data@,
{
    test_data.to_owned()
}

/// The collector after the events.
pub open spec fn collected_after(start: CollectorModel, events: Seq<CollectEventModel>) -> CollectorModel
    decreases events.len(),
{
    if events.len() == 0 {
        start
    } else {
        collected_after(start, events.drop_last()).step(events.last()).0
    }
}

/// Every event came when the collector waited for it, and no more than
/// `deepest` directories were open at once.
pub open spec fn walk_within(
    start: CollectorModel,
    events: Seq<CollectEventModel>,
    deepest: int,
) -> bool
    decreases events.len(),
{
    &&& collected_after(start, events).open <= deepest
    &&& events.len() == 0 || {
        &&& walk_within(start, events.drop_last(), deepest)
        &&& collected_after(start, events.drop_last()).accepts(events.last())
    }
}

/// Where a limit is given, no more paths are gathered than that, plus one for
/// each directory that was open around the one in which it was reached.
pub proof fn law_limit_is_nearly_kept(max: usize, events: Seq<CollectEventModel>, deepest: int)
    requires
        walk_within(CollectorModel::initial(Some(max)), events, deepest),
    ensures
        ({
            let start = CollectorModel::initial(Some(max));
            let now = collected_after(start, events);
            &&& now.wf()
            &&& now.limit == Some(max)
            &&& now.paths.len() < max || now.paths.len() + now.open <= max + (if deepest > 0 {
                deepest - 1
            } else {
                0
            })
        }),
    decreases events.len(),
{
    if events.len() > 0 {
        reveal_with_fuel(walk_within, 2);
        law_limit_is_nearly_kept(max, events.drop_last(), deepest);
    }
}

/// The paths of the entries that a collector was told of, where they are text,
/// in that order.
pub open spec fn text_entries(events: Seq<CollectEventModel>) -> Seq<Seq<char>>
    decreases events.len(),
{
    if events.len() == 0 {
        Seq::empty()
    } else {
        let before = text_entries(events.drop_last());
        match events.last() {
            CollectEventModel::Entry { path: Some(path), is_dir } => before.push(path),
            _ => before,
        }
    }
}

/// What is gathered is what was told: the paths are exactly the entries that
/// are text, in the order in which they came, whether or not they were enough.
pub proof fn law_paths_are_the_entries(limit: Option<usize>, events: Seq<CollectEventModel>)
    ensures
        collected_after(CollectorModel::initial(limit), events).paths == text_entries(events),
        collected_after(CollectorModel::initial(limit), events).limit == limit,
    decreases events.len(),
{
    if events.len() > 0 {
        law_paths_are_the_entries(limit, events.drop_last());
    }
}

/// As long as more paths are wanted, nothing of the tree is passed over: every
/// directory among the entries is to be opened, one that is open is read on,
/// and it is left only at its end.
pub proof fn law_nothing_is_passed_over_until_enough(
    collector: CollectorModel,
    event: CollectEventModel,
)
    requires
        collector.wf(),
        collector.accepts(event),
        !collector.step(event).0.enough(),
    ensures
        match event {
            CollectEventModel::Entry { path, is_dir } => collector.step(event).1 == if is_dir {
                CollectAction::Open
            } else {
                CollectAction::Read
            },
            CollectEventModel::Opened { ok } => ok || collector.open > 0 ==> collector.step(event).1
                == CollectAction::Read,
            CollectEventModel::End => collector.step(event).1 == if collector.open == 1 {
                CollectAction::Finish
            } else {
                CollectAction::Leave
            },
        },
{
}

/// There is always a path to be used.
pub proof fn law_some_path_is_used(collector: CollectorModel)
    ensures
        collector.result().len() > 0,
{
}

/// A collector begins with nothing gathered and nothing open; it is finished
/// at once where no path is wanted. It has enough exactly where it has as many
/// paths as it is limited to. It waits to hear of an opening where it asked
/// for one, and of entries and their end while it reads.
pub proof fn law_collector_begins_and_waits(collector: CollectorModel, limit: Option<usize>)
    ensures
        ({
            let start = CollectorModel::initial(limit);
            &&& start.paths.len() == 0
            &&& start.limit == limit
            &&& start.open == 0
            &&& limit == Some(0usize) ==> start.phase == CollectPhase::Finished
            &&& limit != Some(0usize) ==> start.phase == CollectPhase::Opening
        }),
        collector.enough() <==> match collector.limit {
            Some(max) => collector.paths.len() >= max,
            None => false,
        },
        forall|ok: bool|
            #![trigger collector.accepts(CollectEventModel::Opened { ok })]
            collector.accepts(CollectEventModel::Opened { ok }) <==> collector.phase
                == CollectPhase::Opening && collector.open < usize::MAX,
        forall|path: Option<Seq<char>>, is_dir: bool|
            #![trigger collector.accepts(CollectEventModel::Entry { path, is_dir })]
            collector.accepts(CollectEventModel::Entry { path, is_dir }) <==> collector.phase
                == CollectPhase::Reading,
        collector.accepts(CollectEventModel::End) <==> collector.phase == CollectPhase::Reading,
{
}

/// The innermost directory is left: the one around it is read on, and where
/// there is none all is gathered.
pub open spec fn leaves(
    before: CollectorModel,
    after: CollectorModel,
    action: CollectAction,
) -> bool {
    &&& after.open + 1 == before.open
    &&& before.open == 1 ==> after.phase == CollectPhase::Finished && action
        == CollectAction::Finish
    &&& before.open > 1 ==> after.phase == before.phase && action == CollectAction::Leave
}

/// What each event does to a collector: one directory more is open once it was
/// opened; a path is gathered where it is text, and where that makes enough
/// the directory is left; else a directory is to be opened while paths are
/// wanted, and reading goes on; a directory is left at its end.
pub proof fn law_collector_follows_the_tree(collector: CollectorModel, event: CollectEventModel)
    requires
        collector.wf(),
        collector.accepts(event),
    ensures
        ({
            let (next, action) = collector.step(event);
            let full = collector.limit matches Some(max) && next.paths.len() >= max;
            &&& next.limit == collector.limit
            &&& match event {
                CollectEventModel::Opened { ok } => {
                    &&& next.paths == collector.paths
                    &&& ok ==> next.open == collector.open + 1
                    &&& !ok ==> next.open == collector.open
                    &&& next.open > 0 ==> next.phase == CollectPhase::Reading && action
                        == CollectAction::Read
                    &&& next.open == 0 ==> next.phase == CollectPhase::Finished && action
                        == CollectAction::Finish
                },
                CollectEventModel::Entry { path, is_dir } => {
                    &&& match path {
                        Some(p) => next.paths == collector.paths.push(p),
                        None => next.paths == collector.paths,
                    }
                    &&& if path is Some && full {
                        leaves(collector, next, action)
                    } else {
                        &&& next.open == collector.open
                        &&& is_dir && !full ==> next.phase == CollectPhase::Opening && action
                            == CollectAction::Open
                        &&& !is_dir || full ==> next.phase == CollectPhase::Reading && action
                            == CollectAction::Read
                    }
                },
                CollectEventModel::End => {
                    &&& next.paths == collector.paths
                    &&& leaves(collector, next, action)
                },
            }
        }),
{
}

/// What is used is what was gathered. Where nothing was, it is a hundred
/// made-up paths, numbered from zero.
pub proof fn law_gathered_paths_are_used(collector: CollectorModel)
    ensures
        collector.paths.len() > 0 ==> collector.result() == collector.paths,
        collector.paths.len() == 0 ==> {
            &&& collector.result().len() == 100
            &&& forall|i: int|
                0 <= i < 100 ==> #[trigger] collector.result()[i] == "/path/to/file"@ + decimal(
                    i as nat,
                ) + ".txt"@
        },
{
}

/// Decimal notation is by place: the last digit is what is left after division
/// by ten, and the digits before it are those of the quotient.
pub proof fn law_decimal_is_by_place(n: nat)
    ensures
        decimal(n).len() > 0,
        decimal(n).last() as int == '0' as int + n % 10,
        n < 10 ==> decimal(n).len() == 1,
        n >= 10 ==> decimal(n).drop_last() == decimal(n / 10),
{
    reveal_strlit("0123456789");
    let d = n % 10;
    assert("0123456789"@[d as int] as int == '0' as int + d) by {
        if d == 0 {
        } else if d == 1 {
        } else if d == 2 {
        } else if d == 3 {
        } else if d == 4 {
        } else if d == 5 {
        } else if d == 6 {
        } else if d == 7 {
        } else if d == 8 {
        } else {
            assert(d == 9);
        }
    }
    if n >= 10 {
        assert(decimal(n).drop_last() =~= decimal(n / 10));
    }
}

/// The first directory among candidates is one, and none comes before it;
/// where there is none, none of them is.
pub proof fn law_first_directory_is_the_first(candidates: Seq<Candidate>)
    ensures
        match first_directory(candidates) {
            Some(i) => {
                &&& 0 <= i < candidates.len()
                &&& candidates[i].is_dir
                &&& forall|k: int| 0 <= k < i ==> !(#[trigger] candidates[k]).is_dir
            },
            None => forall|k: int|
                0 <= k < candidates.len() ==> !(#[trigger] candidates[k]).is_dir,
        },
    decreases candidates.len(),
{
    if candidates.len() > 0 {
        let shorter = candidates.drop_last();
        law_first_directory_is_the_first(shorter);
        assert(forall|k: int| 0 <= k < shorter.len() ==> shorter[k] == candidates[k]);
        if first_directory(candidates) is None {
            assert forall|k: int| 0 <= k < candidates.len() implies !(
            #[trigger] candidates[k]).is_dir by {
                if k < shorter.len() {
                    assert(!shorter[k].is_dir);
                }
            }
        } else if first_directory(shorter) is None {
            assert forall|k: int| 0 <= k < shorter.len() implies !(
            #[trigger] candidates[k]).is_dir by {
                assert(!shorter[k].is_dir);
            }
        } else {
            let i = first_directory(shorter)->0;
            assert forall|k: int| 0 <= k < i implies !(#[trigger] candidates[k]).is_dir by {
                assert(!shorter[k].is_dir);
            }
        }
    }
}

/// What the caller tells a collector stands in the specifications as it is.
pub proof fn law_collect_events_are_taken_as_they_are(event: CollectEvent)
    ensures
        match event {
            CollectEvent::Opened { ok } => event@ == (CollectEventModel::Opened { ok }),
            CollectEvent::Entry { path: Some(path), is_dir } => event@
                == (CollectEventModel::Entry { path: Some(path@), is_dir }),
            CollectEvent::Entry { path: None, is_dir } => event@ == (CollectEventModel::Entry {
                path: None,
                is_dir,
            }),
            CollectEvent::End => event@ == CollectEventModel::End,
        },
{
}

} // verus!
