//! A search as a whole: the walk below its path, the files on the way, and what
//! it comes to.

use crate::io_failure::{ErrorKind, IoFailure, IoFailureView};
use crate::literal_pattern::LiteralPattern;
use crate::output_size;
use crate::search;
use crate::search::{
    search_cancelled, search_failure, search_success, FileSearch, RequestView, SearchRequest,
    SearchResults, SearchStep,
};
use crate::search_model;
use crate::search_model::ResultsView;
use crate::tool::{OutputView, ToolOutput};
use crate::tool_support;
use crate::tool_support::display_relative_path;
use crate::walk;
use crate::walk::{ActionView, DirectoryEntry, DirectoryWalk, WalkAction, WalkView};
use crate::workspace::{WorkspaceContext, WorkspaceView};
use vstd::prelude::*;

verus! {

/// What a search waits for.
#[derive(Clone, Debug, PartialEq, Eq)]
pub enum SearchPhase {
    /// Whether its path is a directory.
    OpenRoot,
    /// The directory to be opened and listed.
    List(String),
    /// Whether it was asked to stop.
    Poll,
    /// The file to be opened.
    OpenFile(String),
    /// The next bytes of the file, none at its end.
    Read,
    Done,
}

/// The mathematical value of a [`SearchPhase`].
pub enum PhaseView {
    OpenRoot,
    List(Seq<char>),
    Poll,
    OpenFile(Seq<char>),
    Read,
    Done,
}

impl View for SearchPhase {
    type V = PhaseView;

    open spec fn view(&self) -> PhaseView {
        match *self {
            SearchPhase::OpenRoot => PhaseView::OpenRoot,
            SearchPhase::List(path) => PhaseView::List(path@),
            SearchPhase::Poll => PhaseView::Poll,
            SearchPhase::OpenFile(path) => PhaseView::OpenFile(path@),
            SearchPhase::Read => PhaseView::Read,
            SearchPhase::Done => PhaseView::Done,
        }
    }
}

/// A file that is being searched: the path that it is shown with, and its bytes
/// so far.
pub struct OpenFileView {
    pub path: Seq<char>,
    pub content: Seq<u8>,
}

/// The mathematical value of a [`SearchRun`].
pub struct SearchRunView {
    pub request: RequestView,
    pub workspace: WorkspaceView,
    /// The path of the request, below the workspace.
    pub root: Seq<char>,
    pub phase: PhaseView,
    pub walk: WalkView,
    /// What was found before the file that is open.
    pub results: ResultsView,
    pub file: Option<OpenFileView>,
    /// Whether the path is a file.
    pub single_file: bool,
    pub output: Option<OutputView>,
}

impl SearchRunView {
    pub open spec fn in_phase(self, phase: PhaseView) -> SearchRunView {
        SearchRunView { phase, ..self }
    }

    /// The search is over.
    pub open spec fn ended(self, output: OutputView) -> SearchRunView {
        SearchRunView { phase: PhaseView::Done, output: Some(output), file: None, ..self }
    }

    /// A step failed.
    pub open spec fn failed(self, step: SearchStep, source: IoFailureView) -> SearchRunView {
        self.ended(
            tool_support::failure_view(
                "workspace_io_error"@,
                step.failure_text() + source.message,
                source.kind == ErrorKind::Interrupted,
            ),
        )
    }

    /// The search came to its end.
    pub open spec fn succeeded(self) -> SearchRunView {
        self.ended(
            output_size::finalized(
                search::success(
                    self.request,
                    self.results,
                    self.walk.directories_visited,
                    self.walk.truncated,
                    self.workspace,
                ),
            ),
        )
    }

    /// The walk goes on.
    pub open spec fn walked(self) -> SearchRunView {
        let (after, action) = walk::next(self.walk);
        let next = SearchRunView { walk: after, ..self };
        match action {
            ActionView::List(path) => next.in_phase(PhaseView::List(path)),
            ActionView::Search(path) => next.in_phase(PhaseView::OpenFile(path)),
            ActionView::Finished => next.succeeded(),
        }
    }

    /// Behind a look at whether the search was asked to stop.
    pub open spec fn polled(self, cancelled: bool) -> SearchRunView {
        if cancelled {
            self.ended(
                tool_support::failure_view(
                    "tool_cancelled"@,
                    "search_files was cancelled"@,
                    false,
                ),
            )
        } else if self.file is Some {
            self.in_phase(PhaseView::Read)
        } else {
            self.walked()
        }
    }

    /// Behind the whole of the open file. No file is searched behind the one
    /// that fills the output, nor behind the only one that was asked for.
    pub open spec fn file_ended(self, needle: Seq<u8>) -> SearchRunView {
        let file = self.file->Some_0;
        let next = SearchRunView {
            results: search_model::search_content(needle, file.path, file.content, self.results),
            file: None,
            ..self
        };
        if next.results.limit_reached || self.single_file {
            next.succeeded()
        } else {
            next.in_phase(PhaseView::Poll)
        }
    }

    /// Behind a read of the open file.
    pub open spec fn read(self, needle: Seq<u8>, bytes: Seq<u8>) -> SearchRunView {
        if bytes.len() == 0 {
            self.file_ended(needle)
        } else {
            let file = self.file->Some_0;
            SearchRunView {
                file: Some(OpenFileView { content: file.content + bytes, ..file }),
                phase: PhaseView::Poll,
                ..self
            }
        }
    }
}

/// A search in progress.
pub struct SearchRun<'a> {
    request: &'a SearchRequest,
    workspace: &'a WorkspaceContext,
    pattern: &'a LiteralPattern,
    root: String,
    phase: SearchPhase,
    walk: DirectoryWalk,
    results: Option<SearchResults>,
    found: Ghost<ResultsView>,
    file: Option<FileSearch<'a>>,
    single_file: bool,
    output: Option<ToolOutput>,
}

impl<'a> View for SearchRun<'a> {
    type V = SearchRunView;

    closed spec fn view(&self) -> SearchRunView {
        SearchRunView {
            request: self.request@,
            workspace: self.workspace@,
            root: self.root@,
            phase: self.phase@,
            walk: self.walk@,
            results: self.found@,
            file: match self.file {
                Some(file) => Some(
                    OpenFileView { path: file.shown_path(), content: file.content() },
                ),
                None => None,
            },
            single_file: self.single_file,
            output: match self.output {
                Some(output) => Some(output@),
                None => None,
            },
        }
    }
}

impl<'a> SearchRun<'a> {
    /// The bytes that are looked for.
    pub closed spec fn needle(&self) -> Seq<u8> {
        self.pattern.needle()
    }

    /// What holds in every state.
    pub closed spec fn well_formed(&self) -> bool {
        &&& self.pattern.well_formed()
        &&& self@.phase is Read ==> self.file is Some
        &&& self@.phase is OpenRoot || self@.phase is List || self@.phase is OpenFile ==> self.file
            is None
        &&& match self.file {
            Some(file) => {
                &&& self.results is None
                &&& file.well_formed()
                &&& file.needle() == self.pattern.needle()
                &&& file.before() == self.found@
            },
            None => self@.phase is Done || (self.results matches Some(results)
                && results.well_formed() && results@ == self.found@),
        }
    }

    /// A search for a pattern below a path of the workspace.
    pub fn new(
        request: &'a SearchRequest,
        workspace: &'a WorkspaceContext,
        pattern: &'a LiteralPattern,
        root: &str,
    ) -> (run: SearchRun<'a>)
        requires
            pattern.well_formed(),
        ensures
            run.well_formed(),
            run.needle() == pattern.needle(),
            run@.request == request@,
            run@.workspace == workspace@,
            run@.root == root@,
            run@.phase == PhaseView::OpenRoot,
            run@.walk.frames.len() == 0,
            run@.walk.directories_visited == 0,
            !run@.walk.truncated,
            run@.results == ResultsView::initial(),
            run@.file is None,
            run@.output is None,
    {
        SearchRun {
            request,
            workspace,
            pattern,
            root: root.to_owned(),
            phase: SearchPhase::OpenRoot,
            walk: DirectoryWalk::new(),
            results: Some(SearchResults::new()),
            found: Ghost(ResultsView::initial()),
            file: None,
            single_file: false,
            output: None,
        }
    }

    /// What the search waits for.
    pub fn phase(&self) -> (phase: &SearchPhase)
        ensures
            phase@ == self@.phase,
    {
        &self.phase
    }

    /// Takes whether the path of the search is a directory.
    pub fn root_opened(&mut self, is_directory: bool)
        requires
            old(self).well_formed(),
            old(self)@.phase is OpenRoot,
        ensures
            final(self).well_formed(),
            final(self).needle() == old(self).needle(),
            final(self)@ == (SearchRunView {
                single_file: !is_directory,
                phase: if is_directory {
                    PhaseView::List(old(self)@.root)
                } else {
                    PhaseView::OpenFile(old(self)@.root)
                },
                ..old(self)@
            }),
    {
        let root = self.root.as_str().to_owned();
        self.single_file = !is_directory;
        self.phase = if is_directory {
            SearchPhase::List(root)
        } else {
            SearchPhase::OpenFile(root)
        };
    }

    fn end(&mut self, output: ToolOutput)
        requires
            old(self).pattern.well_formed(),
        ensures
            final(self).well_formed(),
            final(self).needle() == old(self).needle(),
            final(self)@ == old(self)@.ended(output@),
    {
        self.output = Some(output);
        self.file = None;
        self.phase = SearchPhase::Done;
    }

    fn fail(&mut self, step: SearchStep, source: &IoFailure)
        requires
            old(self).pattern.well_formed(),
        ensures
            final(self).well_formed(),
            final(self).needle() == old(self).needle(),
            final(self)@ == old(self)@.failed(step, source@),
    {
        self.end(search_failure(step, source));
    }

    /// Takes the entries of the directory that was asked for, or the step at
    /// which it could not be listed. The walk goes on with the entries in the
    /// order of their names.
    pub fn listed(&mut self, listing: Result<Vec<DirectoryEntry>, (SearchStep, IoFailure)>)
        requires
            old(self).well_formed(),
            old(self)@.phase is List,
            old(self)@.walk.directories_visited < u64::MAX,
        ensures
            final(self).well_formed(),
            final(self).needle() == old(self).needle(),
            match listing {
                Err((step, source)) => final(self)@ == old(self)@.failed(step, source@),
                Ok(entries) => {
                    &&& final(self)@ == (SearchRunView {
                        walk: final(self)@.walk,
                        phase: PhaseView::Poll,
                        ..old(self)@
                    })
                    &&& final(self)@.walk.directories_visited
                        == old(self)@.walk.directories_visited + 1
                    &&& final(self)@.walk.truncated == old(self)@.walk.truncated
                    &&& final(self)@.walk.frames.len() == old(self)@.walk.frames.len() + 1
                    &&& final(self)@.walk.frames.drop_last() == old(self)@.walk.frames
                    &&& final(self)@.walk.frames.last().path == old(self)@.phase->List_0
                    &&& final(self)@.walk.frames.last().done == 0
                    &&& walk::is_ordered(final(self)@.walk.frames.last().entries)
                    &&& final(self)@.walk.frames.last().entries.to_multiset()
                        == walk::entry_views(entries@).to_multiset()
                },
            },
    {
        match listing {
            Err((step, source)) => {
                self.fail(step, &source);
            },
            Ok(entries) => {
                let path = match &self.phase {
                    SearchPhase::List(path) => path.as_str().to_owned(),
                    _ => vstd::pervasive::unreached(),
                };
                self.walk.enter(path.as_str(), entries);
                self.phase = SearchPhase::Poll;
            },
        }
    }

    fn succeed(&mut self)
        requires
            old(self).well_formed(),
            old(self).file is None,
            !(old(self)@.phase is Done),
        ensures
            final(self).well_formed(),
            final(self).needle() == old(self).needle(),
            final(self)@ == old(self)@.succeeded(),
    {
        let results = match self.results.take() {
            Some(results) => results,
            None => vstd::pervasive::unreached(),
        };
        let visited: u64 = self.walk.directories_visited();
        let truncated = self.walk.truncated();
        let output = search_success(self.request, results, visited, truncated, self.workspace);
        self.end(output);
    }

    /// Takes whether the search was asked to stop, and goes on where it was not.
    pub fn poll(&mut self, cancelled: bool)
        requires
            old(self).well_formed(),
            old(self)@.phase is Poll,
        ensures
            final(self).well_formed(),
            final(self).needle() == old(self).needle(),
            final(self)@ == old(self)@.polled(cancelled),
    {
        if cancelled {
            self.end(search_cancelled());
            return;
        }
        if self.file.is_some() {
            self.phase = SearchPhase::Read;
            return;
        }
        match self.walk.next() {
            WalkAction::List(path) => {
                self.phase = SearchPhase::List(path);
            },
            WalkAction::Search(path) => {
                self.phase = SearchPhase::OpenFile(path);
            },
            WalkAction::Finished => {
                self.succeed();
            },
        }
    }

    /// Takes whether the file that was asked for could be opened.
    pub fn opened(&mut self, opened: Result<(), IoFailure>)
        requires
            old(self).well_formed(),
            old(self)@.phase is OpenFile,
        ensures
            final(self).well_formed(),
            final(self).needle() == old(self).needle(),
            final(self)@ == match opened {
                Ok(()) => SearchRunView {
                    file: Some(
                        OpenFileView {
                            path: tool_support::displayed_path(old(self)@.phase->OpenFile_0),
                            content: Seq::empty(),
                        },
                    ),
                    phase: PhaseView::Poll,
                    ..old(self)@
                },
                Err(source) => old(self)@.ended(
                    tool_support::failure_view(
                        "workspace_io_error"@,
                        "failed to open '"@ + old(self)@.phase->OpenFile_0 + "': "@
                            + source@.message,
                        source@.kind == ErrorKind::Interrupted,
                    ),
                ),
            },
    {
        let path = match &self.phase {
            SearchPhase::OpenFile(path) => path.as_str().to_owned(),
            _ => vstd::pervasive::unreached(),
        };
        match opened {
            Ok(()) => {
                let results = match self.results.take() {
                    Some(results) => results,
                    None => vstd::pervasive::unreached(),
                };
                let shown = display_relative_path(path.as_str());
                self.file = Some(FileSearch::begin(shown.as_str(), self.pattern, results));
                self.phase = SearchPhase::Poll;
            },
            Err(source) => {
                self.fail(SearchStep::Open(path), &source);
            },
        }
    }

    /// Takes the next bytes of the open file, none at its end.
    pub fn read(&mut self, bytes: Result<Vec<u8>, IoFailure>)
        requires
            old(self).well_formed(),
            old(self)@.phase is Read,
        ensures
            final(self).well_formed(),
            final(self).needle() == old(self).needle(),
            final(self)@ == match bytes {
                Ok(found) => old(self)@.read(old(self).needle(), found@),
                Err(source) => old(self)@.ended(
                    tool_support::failure_view(
                        "workspace_io_error"@,
                        "failed to search '"@ + old(self)@.file->Some_0.path + "': "@
                            + source@.message,
                        source@.kind == ErrorKind::Interrupted,
                    ),
                ),
            },
    {
        let mut file = match self.file.take() {
            Some(file) => file,
            None => vstd::pervasive::unreached(),
        };
        let found = match bytes {
            Ok(found) => found,
            Err(source) => {
                let path = file.path().to_owned();
                self.fail(SearchStep::Read(path), &source);
                return;
            },
        };
        if found.len() > 0 {
            file.feed(found.as_slice());
            self.file = Some(file);
            self.phase = SearchPhase::Poll;
            return;
        }
        let results = file.finish();
        proof {
            self.found@ = results@;
        }
        let full = results.limit_reached();
        self.results = Some(results);
        self.phase = SearchPhase::Poll;
        if full || self.single_file {
            self.succeed();
        }
    }

    /// What the search came to, where it is over.
    pub fn into_output(self) -> (output: Option<ToolOutput>)
        ensures
            match output {
                Some(found) => self@.output == Some(found@),
                None => self@.output is None,
            },
    {
        self.output
    }
}

} // verus!
