//! What the index is asked to do.
use crate::text;
use vstd::prelude::*;

verus! {

/// A request to the index.
#[derive(Debug)]
pub enum EngineCommand {
    /// Ask a running indexing operation to stop.
    StopIndexing,
    /// Forget an earlier request to stop.
    ResetStopFlag,
    /// Empty the index.
    Clear,
    /// Add a path, unless a pattern excludes it.
    AddPath { path: String, excluded_patterns: Option<Vec<String>> },
    /// Remove a path.
    RemovePath(String),
    /// Remove a path and all that lies below it.
    RemovePathsRecursive(String),
    /// Prefer results with these file extensions from now on.
    SetPreferredExtensions(Vec<String>),
    /// Search.
    Search(String),
}

/// The contents of an [`EngineCommand`].
pub enum CommandModel {
    StopIndexing,
    ResetStopFlag,
    Clear,
    AddPath { path: Seq<char>, excluded_patterns: Option<Seq<Seq<char>>> },
    RemovePath(Seq<char>),
    RemovePathsRecursive(Seq<char>),
    SetPreferredExtensions(Seq<Seq<char>>),
    Search(Seq<char>),
}

impl View for EngineCommand {
    type V = CommandModel;

    open spec fn view(&self) -> CommandModel {
        match *self {
            EngineCommand::StopIndexing => CommandModel::StopIndexing,
            EngineCommand::ResetStopFlag => CommandModel::ResetStopFlag,
            EngineCommand::Clear => CommandModel::Clear,
            EngineCommand::AddPath { path, excluded_patterns } => CommandModel::AddPath {
                path: path@,
                excluded_patterns: text::opt_texts(excluded_patterns),
            },
            EngineCommand::RemovePath(path) => CommandModel::RemovePath(path@),
            EngineCommand::RemovePathsRecursive(path) => CommandModel::RemovePathsRecursive(path@),
            EngineCommand::SetPreferredExtensions(extensions) =>
                CommandModel::SetPreferredExtensions(text::texts(extensions@)),
            EngineCommand::Search(query) => CommandModel::Search(query@),
        }
    }
}

/// The contents of a list of commands.
pub open spec fn commands(list: Seq<EngineCommand>) -> Seq<CommandModel> {
    list.map_values(|command: EngineCommand| command@)
}

/// The extensions that an index prefers after it has carried out the commands,
/// where it preferred `extensions` before.
pub open spec fn preferred_after(list: Seq<CommandModel>, extensions: Seq<Seq<char>>) -> Seq<
    Seq<char>,
>
    decreases list.len(),
{
    if list.len() == 0 {
        extensions
    } else {
        match list.last() {
            CommandModel::SetPreferredExtensions(chosen) => chosen,
            _ => preferred_after(list.drop_last(), extensions),
        }
    }
}

/// What a search asks for.
#[derive(Debug)]
pub struct SearchRequest {
    pub query: String,
    /// The extensions to be preferred during this search only, where the
    /// search chooses its own.
    pub extensions: Option<Vec<String>>,
}

/// The contents of a [`SearchRequest`].
pub struct RequestModel {
    pub query: Seq<char>,
    pub extensions: Option<Seq<Seq<char>>>,
}

impl View for SearchRequest {
    type V = RequestModel;

    open spec fn view(&self) -> RequestModel {
        RequestModel { query: self.query@, extensions: text::opt_texts(self.extensions) }
    }
}

impl RequestModel {
    /// What the index has to do for the search: search, and where the search
    /// chooses its own extensions, prefer these before and `preferred`, those
    /// it preferred so far, afterwards.
    pub open spec fn commands(self, preferred: Seq<Seq<char>>) -> Seq<CommandModel> {
        match self.extensions {
            None => seq![CommandModel::Search(self.query)],
            Some(extensions) => seq![
                CommandModel::SetPreferredExtensions(extensions),
                CommandModel::Search(self.query),
                CommandModel::SetPreferredExtensions(preferred),
            ],
        }
    }
}

impl SearchRequest {
    /// What an index that prefers `preferred` has to do for the search.
    pub fn commands(&self, preferred: Vec<String>) -> (list: Vec<EngineCommand>)
        ensures
            commands(list@) == self@.commands(text::texts(preferred@)),
            self.extensions is None ==> list@.len() == 1,
            self.extensions is Some ==> list@.len() == 3,
            ({
                let at = if self.extensions is None {
                    0int
                } else {
                    1
                };
                &&& list@[at] is Search
                &&& list@[at]->Search_0@ == self.query@
            }),
            self.extensions matches Some(chosen) ==> {
                &&& list@[0] matches EngineCommand::SetPreferredExtensions(first) && text::texts(
                    first@,
                ) == text::texts(chosen@)
                &&& list@[2] matches EngineCommand::SetPreferredExtensions(last) && text::texts(
                    last@,
                ) == text::texts(preferred@)
            },
    {
        let mut list: Vec<EngineCommand> = Vec::new();
        match &self.extensions {
            None => {
                list.push(EngineCommand::Search(self.query.clone()));
            },
            Some(extensions) => {
                list.push(EngineCommand::SetPreferredExtensions(text::clone_texts(extensions)));
                list.push(EngineCommand::Search(self.query.clone()));
                list.push(EngineCommand::SetPreferredExtensions(preferred));
            },
        }
        assert(commands(list@) =~= self@.commands(text::texts(preferred@)));
        list
    }
}

/// A search leaves the extensions that the index prefers as they were, whether
/// or not it chooses its own.
pub proof fn law_search_keeps_preferred_extensions(
    request: RequestModel,
    preferred: Seq<Seq<char>>,
)
    ensures
        preferred_after(request.commands(preferred), preferred) == preferred,
{
    if request.extensions is None {
        let list = request.commands(preferred);
        assert(list.drop_last() =~= Seq::empty());
        assert(preferred_after(list.drop_last(), preferred) == preferred);
    }
}

/// A search that chooses its own extensions is made while the index prefers
/// these.
pub proof fn law_search_uses_its_own_extensions(request: RequestModel, preferred: Seq<Seq<char>>)
    requires
        request.extensions is Some,
    ensures
        request.commands(preferred)[1] == CommandModel::Search(request.query),
        preferred_after(request.commands(preferred).take(1), preferred) == request.extensions->0,
{
    let list = request.commands(preferred);
    assert(list.take(1).last() == list[0]);
}

/// Whatever it asks for, a request searches once, for its query. Without
/// extensions of its own it does nothing else; with them it has the index
/// prefer these before the search and what it preferred so far after it.
pub proof fn law_request_searches_once_for_its_query(
    request: RequestModel,
    preferred: Seq<Seq<char>>,
)
    ensures
        ({
            let list = request.commands(preferred);
            &&& exists|i: int| 0 <= i < list.len() && #[trigger] list[i] is Search
            &&& forall|i: int|
                0 <= i < list.len() && (#[trigger] list[i]) is Search ==> list[i]
                    == CommandModel::Search(request.query)
            &&& forall|i: int, j: int|
                0 <= i < list.len() && 0 <= j < list.len() && (#[trigger] list[i]) is Search && (
                #[trigger] list[j]) is Search ==> i == j
            &&& request.extensions is None ==> list.len() == 1
            &&& request.extensions matches Some(chosen) ==> {
                &&& list.len() == 3
                &&& list[0] == CommandModel::SetPreferredExtensions(chosen)
                &&& list[1] is Search
                &&& list[2] == CommandModel::SetPreferredExtensions(preferred)
            }
        }),
{
    let list = request.commands(preferred);
    if request.extensions is None {
        assert(list[0] is Search);
    } else {
        assert(list[1] is Search);
    }
}

/// Commands and requests stand in the specifications as they are, a list of
/// commands one by one and in order.
pub proof fn law_commands_are_taken_as_they_are(
    command: EngineCommand,
    list: Seq<EngineCommand>,
    request: SearchRequest,
)
    ensures
        match command {
            EngineCommand::StopIndexing => command@ is StopIndexing,
            EngineCommand::ResetStopFlag => command@ is ResetStopFlag,
            EngineCommand::Clear => command@ is Clear,
            EngineCommand::AddPath { path, excluded_patterns } => command@
                matches CommandModel::AddPath { path: p, excluded_patterns: patterns } && p
                == path@ && same_texts(patterns, excluded_patterns),
            EngineCommand::RemovePath(path) => command@ == CommandModel::RemovePath(path@),
            EngineCommand::RemovePathsRecursive(path) => command@
                == CommandModel::RemovePathsRecursive(path@),
            EngineCommand::SetPreferredExtensions(extensions) => command@
                matches CommandModel::SetPreferredExtensions(chosen) && same_texts(
                Some(chosen),
                Some(extensions),
            ),
            EngineCommand::Search(query) => command@ == CommandModel::Search(query@),
        },
        commands(list).len() == list.len(),
        forall|i: int| 0 <= i < list.len() ==> #[trigger] commands(list)[i] == list[i]@,
        request@.query == request.query@,
        same_texts(request@.extensions, request.extensions),
{
}

/// The texts are those of the strings, where there are any.
pub open spec fn same_texts(texts: Option<Seq<Seq<char>>>, strings: Option<Vec<String>>) -> bool {
    match (texts, strings) {
        (Some(a), Some(b)) => {
            &&& a.len() == b@.len()
            &&& forall|i: int| 0 <= i < b@.len() ==> #[trigger] a[i] == b@[i]@
        },
        (None, None) => true,
        _ => false,
    }
}

} // verus!
