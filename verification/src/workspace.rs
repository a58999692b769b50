//! The workspace that a coding agent works in: where its root is, which
//! requested paths lie inside it, and what is known of its Git worktree.

use crate::io_failure::{ErrorKind, IoFailure, IoFailureView};
use crate::path;
use crate::path::{join_path, normalize_components, render_components, ComponentView, PathComponent};
use crate::text;
use crate::text::{concat2, concat3, contains_text, decimal, split_lines, to_debug_text};
use crate::utf8;
use crate::utf8::{check_utf8, Utf8Check};
use vstd::prelude::*;

verus! {

/// Where a Git worktree keeps its files.
#[derive(Clone, Debug, PartialEq, Eq)]
pub struct GitWorktreeContext {
    worktree_root: String,
    git_dir: String,
    common_dir: String,
}

/// The mathematical value of a [`GitWorktreeContext`].
pub struct GitWorktreeView {
    pub worktree_root: Seq<char>,
    pub git_dir: Seq<char>,
    pub common_dir: Seq<char>,
}

impl View for GitWorktreeContext {
    type V = GitWorktreeView;

    closed spec fn view(&self) -> GitWorktreeView {
        GitWorktreeView {
            worktree_root: self.worktree_root@,
            git_dir: self.git_dir@,
            common_dir: self.common_dir@,
        }
    }
}

impl GitWorktreeView {
    /// A linked worktree shares the directory of another repository.
    pub open spec fn is_linked(self) -> bool {
        path::components(self.git_dir) != path::components(self.common_dir)
    }
}

impl GitWorktreeContext {
    pub fn new(worktree_root: String, git_dir: String, common_dir: String) -> (context: Self)
        ensures
            context@ == (GitWorktreeView {
                worktree_root: worktree_root@,
                git_dir: git_dir@,
                common_dir: common_dir@,
            }),
    {
        GitWorktreeContext { worktree_root, git_dir, common_dir }
    }

    pub fn worktree_root(&self) -> (path: &str)
        ensures
            path@ == self@.worktree_root,
    {
        self.worktree_root.as_str()
    }

    pub fn git_dir(&self) -> (path: &str)
        ensures
            path@ == self@.git_dir,
    {
        self.git_dir.as_str()
    }

    pub fn common_dir(&self) -> (path: &str)
        ensures
            path@ == self@.common_dir,
    {
        self.common_dir.as_str()
    }

    /// Whether the worktree shares the directory of another repository.
    pub fn is_linked_worktree(&self) -> (result: bool)
        ensures
            result == self@.is_linked(),
    {
        !path::same_path(self.git_dir.as_str(), self.common_dir.as_str())
    }
}

/// What is known of a workspace.
#[derive(Clone, Debug, PartialEq, Eq)]
pub struct WorkspaceContext {
    root: String,
    git_worktree: Option<GitWorktreeContext>,
}

/// The mathematical value of a [`WorkspaceContext`].
pub struct WorkspaceView {
    pub root: Seq<char>,
    pub git_worktree: Option<GitWorktreeView>,
}

impl View for WorkspaceContext {
    type V = WorkspaceView;

    closed spec fn view(&self) -> WorkspaceView {
        WorkspaceView {
            root: self.root@,
            git_worktree: match self.git_worktree {
                Some(git) => Some(git@),
                None => None,
            },
        }
    }
}

impl WorkspaceContext {
    pub fn new(root: String, git_worktree: Option<GitWorktreeContext>) -> (context: Self)
        ensures
            context@.root == root@,
            match git_worktree {
                Some(git) => context@.git_worktree == Some(git@),
                None => context@.git_worktree is None,
            },
    {
        WorkspaceContext { root, git_worktree }
    }

    /// The root directory.
    pub fn root(&self) -> (path: &str)
        ensures
            path@ == self@.root,
    {
        self.root.as_str()
    }

    /// The Git worktree that the root lies in, where it lies in one.
    pub fn git_worktree(&self) -> (git: Option<&GitWorktreeContext>)
        ensures
            match git {
                Some(found) => self@.git_worktree == Some(found@),
                None => self@.git_worktree is None,
            },
    {
        self.git_worktree.as_ref()
    }
}

/// What an output says of a Git worktree.
#[derive(Clone, Debug, PartialEq, Eq)]
pub struct GitWorktreeMetadata {
    pub worktree_root: String,
    pub git_dir: String,
    pub common_dir: String,
    pub linked: bool,
}

/// The mathematical value of a [`GitWorktreeMetadata`].
pub struct GitMetadataView {
    pub worktree_root: Seq<char>,
    pub git_dir: Seq<char>,
    pub common_dir: Seq<char>,
    pub linked: bool,
}

impl View for GitWorktreeMetadata {
    type V = GitMetadataView;

    open spec fn view(&self) -> GitMetadataView {
        GitMetadataView {
            worktree_root: self.worktree_root@,
            git_dir: self.git_dir@,
            common_dir: self.common_dir@,
            linked: self.linked,
        }
    }
}

/// What an output says of the workspace.
#[derive(Clone, Debug, PartialEq, Eq)]
pub struct WorkspaceMetadata {
    pub root: String,
    pub git_worktree: Option<GitWorktreeMetadata>,
}

/// The mathematical value of a [`WorkspaceMetadata`].
pub struct WorkspaceMetadataView {
    pub root: Seq<char>,
    pub git_worktree: Option<GitMetadataView>,
}

impl View for WorkspaceMetadata {
    type V = WorkspaceMetadataView;

    open spec fn view(&self) -> WorkspaceMetadataView {
        WorkspaceMetadataView {
            root: self.root@,
            git_worktree: match self.git_worktree {
                Some(git) => Some(git@),
                None => None,
            },
        }
    }
}

impl WorkspaceView {
    /// What an output says of the workspace.
    pub open spec fn metadata(self) -> WorkspaceMetadataView {
        WorkspaceMetadataView {
            root: self.root,
            git_worktree: match self.git_worktree {
                Some(git) => Some(
                    GitMetadataView {
                        worktree_root: git.worktree_root,
                        git_dir: git.git_dir,
                        common_dir: git.common_dir,
                        linked: git.is_linked(),
                    },
                ),
                None => None,
            },
        }
    }
}

impl WorkspaceContext {
    /// What an output says of the workspace.
    pub fn metadata(&self) -> (metadata: WorkspaceMetadata)
        ensures
            metadata@ == self@.metadata(),
    {
        let git_worktree = match &self.git_worktree {
            Some(git) => Some(
                GitWorktreeMetadata {
                    worktree_root: git.worktree_root().to_owned(),
                    git_dir: git.git_dir().to_owned(),
                    common_dir: git.common_dir().to_owned(),
                    linked: git.is_linked_worktree(),
                },
            ),
            None => None,
        };
        WorkspaceMetadata { root: self.root.as_str().to_owned(), git_worktree }
    }
}

/// A path inside the workspace that was looked up.
#[derive(Debug, PartialEq, Eq)]
pub struct ResolvedWorkspacePath {
    /// The path below the root, or `.` for the root itself.
    pub relative_path: String,
    /// Whether something stood there.
    pub existed: bool,
}

/// Why a requested path cannot be used.
#[derive(Debug, PartialEq, Eq)]
pub enum WorkspacePathError {
    /// It leads out of the workspace.
    OutsideWorkspace { path: String, root: String },
    /// It could not be looked up.
    Access { path: String, source: IoFailure },
}

/// The mathematical value of a [`WorkspacePathError`].
pub enum PathErrorView {
    OutsideWorkspace { path: Seq<char>, root: Seq<char> },
    Access { path: Seq<char>, source: IoFailureView },
}

impl View for WorkspacePathError {
    type V = PathErrorView;

    open spec fn view(&self) -> PathErrorView {
        match self {
            WorkspacePathError::OutsideWorkspace { path, root } => {
                PathErrorView::OutsideWorkspace { path: path@, root: root@ }
            },
            WorkspacePathError::Access { path, source } => PathErrorView::Access {
                path: path@,
                source: source@,
            },
        }
    }
}

impl PathErrorView {
    pub open spec fn code(self) -> Seq<char> {
        match self {
            PathErrorView::OutsideWorkspace { .. } => "outside_workspace"@,
            PathErrorView::Access { source, .. } => if source.kind == ErrorKind::NotFound {
                "path_not_found"@
            } else {
                "workspace_io_error"@
            },
        }
    }

    pub open spec fn retryable(self) -> bool {
        match self {
            PathErrorView::OutsideWorkspace { .. } => false,
            PathErrorView::Access { source, .. } => source.kind == ErrorKind::Interrupted,
        }
    }

    pub open spec fn message(self) -> Seq<char> {
        match self {
            PathErrorView::OutsideWorkspace { path, root } => "path '"@ + path
                + "' escapes workspace boundary '"@ + root + "'"@,
            PathErrorView::Access { path, source } => "failed to access '"@ + path + "': "@
                + source.message,
        }
    }
}

impl WorkspacePathError {
    /// The code of the tool failure that reports the error.
    pub fn code(&self) -> (code: &'static str)
        ensures
            code@ == self@.code(),
    {
        match self {
            WorkspacePathError::OutsideWorkspace { .. } => "outside_workspace",
            WorkspacePathError::Access { source, .. } => if source.kind == ErrorKind::NotFound {
                "path_not_found"
            } else {
                "workspace_io_error"
            },
        }
    }

    /// Whether the same request may succeed when it is made again.
    pub fn retryable(&self) -> (result: bool)
        ensures
            result == self@.retryable(),
    {
        match self {
            WorkspacePathError::OutsideWorkspace { .. } => false,
            WorkspacePathError::Access { source, .. } => source.is_interrupted(),
        }
    }

    /// The error in words.
    pub fn message(&self) -> (message: String)
        ensures
            message@ == self@.message(),
    {
        match self {
            WorkspacePathError::OutsideWorkspace { path, root } => {
                let mut message = concat3(
                    "path '",
                    path.as_str(),
                    "' escapes workspace boundary '",
                );
                message.push_str(root.as_str());
                message.push_str("'");
                message
            },
            WorkspacePathError::Access { path, source } => {
                let mut message = concat3("failed to access '", path.as_str(), "': ");
                message.push_str(source.message.as_str());
                message
            },
        }
    }
}

/// The components that a request names below `root`, where it stays lexically
/// inside.
pub open spec fn request_components(root: Seq<char>, requested: Seq<char>) -> Option<
    Seq<ComponentView>,
> {
    let lexical = path::normalized(path::joined(root, requested));
    let base = path::components(root);
    if base.is_prefix_of(lexical) {
        Some(lexical.skip(base.len() as int))
    } else {
        None
    }
}

/// The relative path of a request that stays lexically inside `root`.
pub open spec fn request_path(root: Seq<char>, requested: Seq<char>) -> Option<Seq<char>> {
    match request_components(root, requested) {
        Some(parts) => Some(
            if parts.len() == 0 {
                "."@
            } else {
                path::rendered(parts)
            },
        ),
        None => None,
    }
}

/// The error for a request that leaves `root` lexically.
pub open spec fn outside_error(root: Seq<char>, requested: Seq<char>) -> PathErrorView {
    PathErrorView::OutsideWorkspace {
        path: path::rendered(path::normalized(path::joined(root, requested))),
        root,
    }
}

/// Whether a failed lookup was refused for leading out of the workspace.
pub open spec fn is_escape(source: IoFailureView) -> bool {
    source.kind == ErrorKind::PermissionDenied && text::has_part(
        source.message,
        "outside of the filesystem"@,
    )
}

/// The error that a failed lookup of `path` is reported as.
pub open spec fn access_error(
    root: Seq<char>,
    path: Seq<char>,
    source: IoFailureView,
) -> PathErrorView {
    if is_escape(source) {
        PathErrorView::OutsideWorkspace { path, root }
    } else {
        PathErrorView::Access { path, source }
    }
}

/// A workspace that was opened.
#[derive(Clone, Debug)]
pub struct CodingWorkspace {
    context: WorkspaceContext,
}

impl View for CodingWorkspace {
    type V = WorkspaceView;

    closed spec fn view(&self) -> WorkspaceView {
        self.context@
    }
}

/// What was found under an existing path.
pub enum ExistingProbe {
    /// The path could not be made canonical, or its target not be inspected.
    Failed(IoFailure),
    /// The path leads to this canonical one.
    Found(String),
}

/// What was found where a file is to be written.
pub enum WriteProbe {
    /// Something stands there.
    Existing(ExistingProbe),
    /// The path could not be inspected, and this is what making its directory
    /// canonical came to.
    Absent { inspected: IoFailure, parent: Result<String, IoFailure> },
}

/// The directory of a relative path, `.` for a path that has none.
pub open spec fn parent_path(relative: Seq<ComponentView>) -> Seq<char> {
    if relative.len() == 0 {
        Seq::empty()
    } else if relative.last() is RootDir {
        "."@
    } else {
        path::rendered(relative.drop_last())
    }
}

fn parent_of(relative: Vec<PathComponent>) -> (parent: String)
    ensures
        parent@ == parent_path(path::component_views(relative@)),
{
    let ghost views = path::component_views(relative@);
    assert(views.len() == relative@.len());
    if relative.len() == 0 {
        return String::new();
    }
    assert(views.last() == relative@.last()@);
    if let PathComponent::RootDir = &relative[relative.len() - 1] {
        return ".".to_owned();
    }
    let mut directory = relative;
    let _ = directory.pop();
    assert(path::component_views(directory@) == views.drop_last());
    render_components(&directory)
}

impl CodingWorkspace {
    /// A workspace around a context.
    pub fn new(context: WorkspaceContext) -> (workspace: CodingWorkspace)
        ensures
            workspace@ == context@,
    {
        CodingWorkspace { context }
    }

    /// What is known of the workspace.
    pub fn context(&self) -> (context: &WorkspaceContext)
        ensures
            context@ == self@,
    {
        &self.context
    }

    /// The relative path of a request, which must stay lexically inside.
    pub fn relative_request_path(&self, requested_path: &str) -> (result: Result<
        String,
        WorkspacePathError,
    >)
        ensures
            match result {
                Ok(relative) => request_path(self@.root, requested_path@) == Some(relative@),
                Err(error) => request_path(self@.root, requested_path@) is None && error@
                    == outside_error(self@.root, requested_path@),
            },
    {
        let root = self.context.root.as_str();
        let lexical = join_path(root, requested_path);
        let parts = normalize_components(lexical.as_str());
        match path::strip_components(&parts, root) {
            Some(rest) => {
                assert(path::component_views(rest@).len() == rest@.len());
                if rest.len() == 0 {
                    Ok(".".to_owned())
                } else {
                    Ok(render_components(&rest))
                }
            },
            None => Err(
                WorkspacePathError::OutsideWorkspace {
                    path: render_components(&parts),
                    root: root.to_owned(),
                },
            ),
        }
    }

    /// The error that a failed lookup of `path` is reported as.
    pub fn path_access_error(&self, path: &str, source: IoFailure) -> (error: WorkspacePathError)
        ensures
            error@ == access_error(self@.root, path@, source@),
    {
        if source.kind == ErrorKind::PermissionDenied && contains_text(
            source.message.as_str(),
            "outside of the filesystem",
        ) {
            WorkspacePathError::OutsideWorkspace {
                path: path.to_owned(),
                root: self.context.root.as_str().to_owned(),
            }
        } else {
            WorkspacePathError::Access { path: path.to_owned(), source }
        }
    }

    /// The outcome of looking up an existing path.
    pub fn resolve_existing(&self, requested_path: &str, probe: ExistingProbe) -> (result: Result<
        ResolvedWorkspacePath,
        WorkspacePathError,
    >)
        ensures
            match request_path(self@.root, requested_path@) {
                None => result matches Err(error) && error@ == outside_error(
                    self@.root,
                    requested_path@,
                ),
                Some(_) => match probe {
                    ExistingProbe::Failed(source) => result matches Err(error) && error@
                        == access_error(self@.root, requested_path@, source@),
                    ExistingProbe::Found(canonical) => result matches Ok(resolved)
                        && resolved.relative_path@ == canonical@ && resolved.existed,
                },
            },
    {
        match self.relative_request_path(requested_path) {
            Err(error) => Err(error),
            Ok(_) => match probe {
                ExistingProbe::Failed(source) => Err(
                    self.path_access_error(requested_path, source),
                ),
                ExistingProbe::Found(canonical) => Ok(
                    ResolvedWorkspacePath { relative_path: canonical, existed: true },
                ),
            },
        }
    }

    /// The outcome of looking up a path that is to be written.
    pub fn resolve_for_write(&self, requested_path: &str, probe: WriteProbe) -> (result: Result<
        ResolvedWorkspacePath,
        WorkspacePathError,
    >)
        ensures
            match request_components(self@.root, requested_path@) {
                None => result matches Err(error) && error@ == outside_error(
                    self@.root,
                    requested_path@,
                ),
                Some(relative) => match probe {
                    WriteProbe::Existing(ExistingProbe::Failed(source)) => result matches Err(error)
                        && error@ == access_error(self@.root, requested_path@, source@),
                    WriteProbe::Existing(ExistingProbe::Found(canonical)) => result matches Ok(
                        resolved,
                    ) && resolved.relative_path@ == canonical@ && resolved.existed,
                    WriteProbe::Absent { inspected, parent } => if inspected.kind
                        != ErrorKind::NotFound {
                        result matches Err(error) && error@ == access_error(
                            self@.root,
                            requested_path@,
                            inspected@,
                        )
                    } else {
                        match parent {
                            Err(source) => result matches Err(error) && error@ == access_error(
                                self@.root,
                                parent_path(relative),
                                source@,
                            ),
                            Ok(directory) => if relative.len() > 0 && relative.last() is Normal {
                                result matches Ok(resolved) && resolved.relative_path@
                                    == path::joined(directory@, relative.last()->Normal_0)
                                    && !resolved.existed
                            } else {
                                result matches Err(error) && error@
                                    == (PathErrorView::OutsideWorkspace {
                                    path: requested_path@,
                                    root: self@.root,
                                })
                            },
                        }
                    },
                },
            },
    {
        let root = self.context.root.as_str();
        let lexical = join_path(root, requested_path);
        let parts = normalize_components(lexical.as_str());
        let relative = match path::strip_components(&parts, root) {
            Some(rest) => rest,
            None => {
                return Err(
                    WorkspacePathError::OutsideWorkspace {
                        path: render_components(&parts),
                        root: root.to_owned(),
                    },
                );
            },
        };
        let ghost views = path::component_views(relative@);
        assert(views.len() == relative@.len());
        let last_name: Option<String> = if relative.len() == 0 {
            None
        } else {
            assert(views.last() == relative@.last()@);
            match &relative[relative.len() - 1] {
                PathComponent::Normal(name) => Some(name.as_str().to_owned()),
                _ => None,
            }
        };
        match probe {
            WriteProbe::Existing(existing) => self.resolve_existing(requested_path, existing),
            WriteProbe::Absent { inspected, parent } => {
                if inspected.kind != ErrorKind::NotFound {
                    return Err(self.path_access_error(requested_path, inspected));
                }
                match parent {
                    Err(source) => {
                        let directory = parent_of(relative);
                        Err(self.path_access_error(directory.as_str(), source))
                    },
                    Ok(directory) => match last_name {
                        Some(name) => Ok(
                            ResolvedWorkspacePath {
                                relative_path: join_path(directory.as_str(), name.as_str()),
                                existed: false,
                            },
                        ),
                        None => Err(
                            WorkspacePathError::OutsideWorkspace {
                                path: requested_path.to_owned(),
                                root: root.to_owned(),
                            },
                        ),
                    },
                }
            },
        }
    }
}

/// What a run of Git inside the root gave back.
pub struct GitProbeOutput {
    pub success: bool,
    pub stdout: Vec<u8>,
}

/// How far opening a workspace root came.
pub enum RootProbe {
    /// The selected path could not be made canonical.
    Unresolved(IoFailure),
    /// The canonical root could not be inspected.
    Uninspected { root: String, source: IoFailure },
    /// The canonical root is something other than a directory.
    NotDirectory { root: String },
    /// The root could not be opened.
    Unopened { root: String, source: IoFailure },
    /// The root is open, and this is what the Git probe gave back.
    Opened { root: String, git: Result<GitProbeOutput, IoFailure> },
}

/// Why a workspace could not be opened.
#[derive(Debug, PartialEq, Eq)]
pub enum CodingWorkspaceError {
    ResolveRoot { path: String, source: IoFailure },
    RootIsNotDirectory { path: String },
    OpenRoot { path: String, source: IoFailure },
    StartGitProbe(IoFailure),
    GitOutputUtf8 { message: String },
    UnexpectedGitOutput { stdout: String },
}

/// The mathematical value of a [`CodingWorkspaceError`].
pub enum WorkspaceErrorView {
    ResolveRoot { path: Seq<char>, source: IoFailureView },
    RootIsNotDirectory { path: Seq<char> },
    OpenRoot { path: Seq<char>, source: IoFailureView },
    StartGitProbe(IoFailureView),
    GitOutputUtf8 { message: Seq<char> },
    UnexpectedGitOutput { stdout: Seq<char> },
}

impl View for CodingWorkspaceError {
    type V = WorkspaceErrorView;

    open spec fn view(&self) -> WorkspaceErrorView {
        match self {
            CodingWorkspaceError::ResolveRoot { path, source } => WorkspaceErrorView::ResolveRoot {
                path: path@,
                source: source@,
            },
            CodingWorkspaceError::RootIsNotDirectory { path } => {
                WorkspaceErrorView::RootIsNotDirectory { path: path@ }
            },
            CodingWorkspaceError::OpenRoot { path, source } => WorkspaceErrorView::OpenRoot {
                path: path@,
                source: source@,
            },
            CodingWorkspaceError::StartGitProbe(source) => WorkspaceErrorView::StartGitProbe(
                source@,
            ),
            CodingWorkspaceError::GitOutputUtf8 { message } => {
                WorkspaceErrorView::GitOutputUtf8 { message: message@ }
            },
            CodingWorkspaceError::UnexpectedGitOutput { stdout } => {
                WorkspaceErrorView::UnexpectedGitOutput { stdout: stdout@ }
            },
        }
    }
}

impl WorkspaceErrorView {
    pub open spec fn message(self) -> Seq<char> {
        match self {
            WorkspaceErrorView::ResolveRoot { path, source } => "failed to resolve workspace '"@
                + path + "': "@ + source.message,
            WorkspaceErrorView::RootIsNotDirectory { path } => "workspace root '"@ + path
                + "' is not a directory"@,
            WorkspaceErrorView::OpenRoot { path, source } => "failed to open workspace root '"@
                + path + "': "@ + source.message,
            WorkspaceErrorView::StartGitProbe(source) => "failed to start git worktree probe: "@
                + source.message,
            WorkspaceErrorView::GitOutputUtf8 { message } => {
                "git worktree probe returned invalid UTF-8: "@ + message
            },
            WorkspaceErrorView::UnexpectedGitOutput { stdout } => {
                "git worktree probe returned unexpected output: "@ + text::debug_text(stdout)
            },
        }
    }
}

impl CodingWorkspaceError {
    /// The error in words.
    pub fn message(&self) -> (message: String)
        ensures
            message@ == self@.message(),
    {
        match self {
            CodingWorkspaceError::ResolveRoot { path, source } => {
                let mut message = concat3("failed to resolve workspace '", path.as_str(), "': ");
                message.push_str(source.message.as_str());
                message
            },
            CodingWorkspaceError::RootIsNotDirectory { path } => concat3(
                "workspace root '",
                path.as_str(),
                "' is not a directory",
            ),
            CodingWorkspaceError::OpenRoot { path, source } => {
                let mut message = concat3("failed to open workspace root '", path.as_str(), "': ");
                message.push_str(source.message.as_str());
                message
            },
            CodingWorkspaceError::StartGitProbe(source) => concat2(
                "failed to start git worktree probe: ",
                source.message.as_str(),
            ),
            CodingWorkspaceError::GitOutputUtf8 { message } => concat2(
                "git worktree probe returned invalid UTF-8: ",
                message.as_str(),
            ),
            CodingWorkspaceError::UnexpectedGitOutput { stdout } => concat2(
                "git worktree probe returned unexpected output: ",
                to_debug_text(stdout.as_str()).as_str(),
            ),
        }
    }
}

/// What the output of a successful Git probe says of the worktree: three lines,
/// neither more nor fewer.
pub open spec fn git_worktree_lines(stdout: Seq<char>) -> Option<GitWorktreeView> {
    let lines = text::lines_of(stdout);
    if lines.len() == 3 {
        Some(
            GitWorktreeView { worktree_root: lines[0], git_dir: lines[1], common_dir: lines[2] },
        )
    } else {
        None
    }
}

/// Whether `result` is what a finished Git probe comes to.
pub open spec fn is_git_outcome(
    output: GitProbeOutput,
    result: Result<Option<GitWorktreeContext>, CodingWorkspaceError>,
) -> bool {
    if !output.success {
        result matches Ok(None)
    } else if !vstd::utf8::valid_utf8(output.stdout@) {
        result matches Err(error) && error@ == (WorkspaceErrorView::GitOutputUtf8 {
            message: utf8::utf8_error_text(output.stdout@),
        })
    } else {
        let stdout = vstd::utf8::decode_utf8(output.stdout@);
        match git_worktree_lines(stdout) {
            Some(git) => result matches Ok(Some(context)) && context@ == git,
            None => result matches Err(error) && error@
                == (WorkspaceErrorView::UnexpectedGitOutput { stdout }),
        }
    }
}

/// What a finished Git probe says of the worktree. A probe that failed means
/// that there is none.
pub fn detect_git_worktree(output: GitProbeOutput) -> (result: Result<
    Option<GitWorktreeContext>,
    CodingWorkspaceError,
>)
    ensures
        is_git_outcome(output, result),
{
    if !output.success {
        return Ok(None);
    }
    let stdout = match check_utf8(output.stdout.as_slice()) {
        Utf8Check::Valid(stdout) => stdout,
        Utf8Check::Incomplete { valid_up_to: _, message } => {
            return Err(CodingWorkspaceError::GitOutputUtf8 { message });
        },
        Utf8Check::Invalid { valid_up_to: _, message } => {
            return Err(CodingWorkspaceError::GitOutputUtf8 { message });
        },
    };
    let lines = split_lines(stdout.as_str());
    let ghost views = text::texts(lines@);
    assert(views.len() == lines@.len());
    if lines.len() != 3 {
        return Err(CodingWorkspaceError::UnexpectedGitOutput { stdout });
    }
    assert(views[0] == lines@[0]@ && views[1] == lines@[1]@ && views[2] == lines@[2]@);
    Ok(
        Some(
            GitWorktreeContext::new(
                lines[0].as_str().to_owned(),
                lines[1].as_str().to_owned(),
                lines[2].as_str().to_owned(),
            ),
        ),
    )
}

impl CodingWorkspace {
    /// The workspace that opening `selected_root` came to.
    pub fn resolve(selected_root: &str, probe: RootProbe) -> (result: Result<
        CodingWorkspace,
        CodingWorkspaceError,
    >)
        ensures
            match probe {
                RootProbe::Unresolved(source) => result matches Err(error) && error@
                    == (WorkspaceErrorView::ResolveRoot { path: selected_root@, source: source@ }),
                RootProbe::Uninspected { root, source } => result matches Err(error) && error@
                    == (WorkspaceErrorView::ResolveRoot { path: root@, source: source@ }),
                RootProbe::NotDirectory { root } => result matches Err(error) && error@
                    == (WorkspaceErrorView::RootIsNotDirectory { path: root@ }),
                RootProbe::Unopened { root, source } => result matches Err(error) && error@
                    == (WorkspaceErrorView::OpenRoot { path: root@, source: source@ }),
                RootProbe::Opened { root, git: Err(source) } => result matches Err(error) && error@
                    == WorkspaceErrorView::StartGitProbe(source@),
                RootProbe::Opened { root, git: Ok(output) } => match result {
                    Ok(workspace) => workspace@.root == root@ && exists|
                        git: Option<GitWorktreeContext>,
                    |
                        #[trigger] is_git_outcome(output, Ok(git)) && workspace@.git_worktree
                            == git_view(git),
                    Err(error) => is_git_outcome(output, Err(error)),
                },
            },
    {
        match probe {
            RootProbe::Unresolved(source) => Err(
                CodingWorkspaceError::ResolveRoot { path: selected_root.to_owned(), source },
            ),
            RootProbe::Uninspected { root, source } => Err(
                CodingWorkspaceError::ResolveRoot { path: root, source },
            ),
            RootProbe::NotDirectory { root } => Err(
                CodingWorkspaceError::RootIsNotDirectory { path: root },
            ),
            RootProbe::Unopened { root, source } => Err(
                CodingWorkspaceError::OpenRoot { path: root, source },
            ),
            RootProbe::Opened { root, git: Err(source) } => Err(
                CodingWorkspaceError::StartGitProbe(source),
            ),
            RootProbe::Opened { root, git: Ok(output) } => match detect_git_worktree(output) {
                Ok(git) => Ok(CodingWorkspace::new(WorkspaceContext::new(root, git))),
                Err(error) => Err(error),
            },
        }
    }
}

/// The view of an optional worktree.
pub open spec fn git_view(git: Option<GitWorktreeContext>) -> Option<GitWorktreeView> {
    match git {
        Some(context) => Some(context@),
        None => None,
    }
}

/// Which file system object a path leads to.
#[derive(Clone, Copy, Debug, PartialEq, Eq, Structural)]
pub struct FileIdentity {
    pub device: u64,
    pub inode: u64,
}

impl CodingWorkspace {
    /// The directory that commands run in, where the root is still the object
    /// that was opened.
    pub fn command_working_directory(&self, opened: FileIdentity, ambient: FileIdentity) -> (result:
        Result<String, IoFailure>)
        ensures
            match result {
                Ok(directory) => opened == ambient && directory@ == self@.root,
                Err(failure) => opened != ambient && failure@ == (IoFailureView {
                    kind: ErrorKind::PermissionDenied,
                    message: "workspace root identity changed after it was selected"@,
                    os_error: None,
                }),
            },
    {
        if opened.device != ambient.device || opened.inode != ambient.inode {
            return Err(
                IoFailure::new(
                    ErrorKind::PermissionDenied,
                    "workspace root identity changed after it was selected",
                ),
            );
        }
        Ok(self.context.root.as_str().to_owned())
    }
}

/// The number of names that staging a file tries.
pub const MAX_STAGING_ATTEMPTS: u32 = 100;

/// The name under which content is staged beside its target.
pub open spec fn staging_name(process: u32, nonce: u64) -> Seq<char> {
    ".young-agent-patch-"@ + text::decimal_text(process as nat) + "-"@ + text::decimal_text(
        nonce as nat,
    ) + ".tmp"@
}

/// The path under which content for a file in `parent` is staged.
pub fn staging_path(parent: &str, process: u32, nonce: u64) -> (path: String)
    ensures
        path@ == path::joined(parent@, staging_name(process, nonce)),
{
    let mut name = concat3(".young-agent-patch-", decimal(process as u128).as_str(), "-");
    name.push_str(decimal(nonce as u128).as_str());
    name.push_str(".tmp");
    join_path(parent, name.as_str())
}

/// What follows a failed attempt to create a staging file.
#[derive(Debug, PartialEq, Eq)]
pub enum StagingStep {
    /// Another name is tried.
    TryNext,
    /// Staging fails.
    Fail(IoFailure),
}

/// A name that is taken is followed by another one, up to the last attempt; any
/// other failure ends the staging.
pub fn after_staging_failure(attempt: u32, source: IoFailure) -> (step: StagingStep)
    requires
        1 <= attempt <= MAX_STAGING_ATTEMPTS,
    ensures
        match step {
            StagingStep::TryNext => source.kind == ErrorKind::AlreadyExists && attempt
                < MAX_STAGING_ATTEMPTS,
            StagingStep::Fail(failure) => if source.kind != ErrorKind::AlreadyExists {
                failure@ == source@
            } else {
                attempt == MAX_STAGING_ATTEMPTS && failure@ == (IoFailureView {
                    kind: ErrorKind::AlreadyExists,
                    message: "could not allocate a unique patch staging file"@,
                    os_error: None,
                })
            },
        },
{
    if source.kind != ErrorKind::AlreadyExists {
        StagingStep::Fail(source)
    } else if attempt < MAX_STAGING_ATTEMPTS {
        StagingStep::TryNext
    } else {
        StagingStep::Fail(
            IoFailure::new(
                ErrorKind::AlreadyExists,
                "could not allocate a unique patch staging file",
            ),
        )
    }
}

/// A request that is accepted names, below the root, neither a `.` nor a `..`
/// step.
pub proof fn law_accepted_requests_have_no_steps(root: Seq<char>, requested: Seq<char>)
    ensures
        request_components(root, requested) matches Some(parts) ==> forall|i: int|
            0 <= i < parts.len() ==> (#[trigger] parts[i]) !is ParentDir && parts[i] !is CurDir,
{
    let whole = path::joined(root, requested);
    path::law_normalized_paths_have_no_steps(whole);
    if let Some(parts) = request_components(root, requested) {
        assert forall|i: int| 0 <= i < parts.len() implies (#[trigger] parts[i]) !is ParentDir
            && parts[i] !is CurDir by {
            assert(parts[i] == path::normalized(whole)[i + path::components(root).len()]);
        }
    }
}

} // verus!
