//! Where a run is recorded: the place of its log, and the private directory
//! that holds it.

use crate::command_run::Platform;
use crate::io_failure;
use crate::io_failure::{IoFailure, IoFailureView};
use crate::path;
use crate::path::{
    join_path, path_is_absolute, path_parent, windows_join_path, windows_path_is_absolute,
    windows_path_parent,
};
use crate::run::RunId;
use crate::text;
use crate::text::{concat2, concat3, decimal};
use vstd::prelude::*;

verus! {

/// Why the log of a run could not be created.
#[derive(Clone, Debug, PartialEq, Eq)]
pub enum StateError {
    CurrentDirectory(IoFailure),
    CreateEventLogDirectory { path: String, source: IoFailure },
    InvalidEventLogPath { path: String },
    InvalidStateDirectory { variable: &'static str, path: String },
    MissingStateDirectory,
    Io { path: String, source: IoFailure },
    UntrustedDirectory { path: String, message: String },
    CreateEventLog(IoFailure),
}

/// The mathematical value of a [`StateError`].
pub enum StateErrorView {
    CurrentDirectory(IoFailureView),
    CreateEventLogDirectory { path: Seq<char>, source: IoFailureView },
    InvalidEventLogPath { path: Seq<char> },
    InvalidStateDirectory { variable: Seq<char>, path: Seq<char> },
    MissingStateDirectory,
    Io { path: Seq<char>, source: IoFailureView },
    UntrustedDirectory { path: Seq<char>, message: Seq<char> },
    CreateEventLog(IoFailureView),
}

impl View for StateError {
    type V = StateErrorView;

    open spec fn view(&self) -> StateErrorView {
        match *self {
            StateError::CurrentDirectory(source) => StateErrorView::CurrentDirectory(source@),
            StateError::CreateEventLogDirectory { path, source } => {
                StateErrorView::CreateEventLogDirectory { path: path@, source: source@ }
            },
            StateError::InvalidEventLogPath { path } => StateErrorView::InvalidEventLogPath {
                path: path@,
            },
            StateError::InvalidStateDirectory { variable, path } => {
                StateErrorView::InvalidStateDirectory { variable: variable@, path: path@ }
            },
            StateError::MissingStateDirectory => StateErrorView::MissingStateDirectory,
            StateError::Io { path, source } => StateErrorView::Io { path: path@, source: source@ },
            StateError::UntrustedDirectory { path, message } => {
                StateErrorView::UntrustedDirectory { path: path@, message: message@ }
            },
            StateError::CreateEventLog(source) => StateErrorView::CreateEventLog(source@),
        }
    }
}

impl StateErrorView {
    pub open spec fn message(self) -> Seq<char> {
        match self {
            StateErrorView::CurrentDirectory(source) => "failed to resolve current directory: "@
                + source.message,
            StateErrorView::CreateEventLogDirectory { path, source } => {
                "failed to create Event Log directory '"@ + path + "': "@ + source.message
            },
            StateErrorView::InvalidEventLogPath { path } => "Event Log path '"@ + path
                + "' has no parent directory"@,
            StateErrorView::InvalidStateDirectory { variable, path } => variable
                + " must be an absolute state directory, got '"@ + path + "'"@,
            StateErrorView::MissingStateDirectory => {
                "no private application state directory is available; set YOUNG_AGENT_STATE_DIR"@
            },
            StateErrorView::Io { path, source } => "failed to prepare private state directory '"@
                + path + "': "@ + source.message,
            StateErrorView::UntrustedDirectory { path, message } => {
                "refusing untrusted state directory '"@ + path + "': "@ + message
            },
            StateErrorView::CreateEventLog(source) => "failed to reserve new Event Log: "@
                + source.message,
        }
    }
}

impl StateError {
    /// The error in words.
    pub fn message(&self) -> (message: String)
        ensures
            message@ == self@.message(),
    {
        match self {
            StateError::CurrentDirectory(source) => concat2(
                "failed to resolve current directory: ",
                source.message.as_str(),
            ),
            StateError::CreateEventLogDirectory { path, source } => {
                let beginning = concat3(
                    "failed to create Event Log directory '",
                    path.as_str(),
                    "': ",
                );
                concat2(beginning.as_str(), source.message.as_str())
            },
            StateError::InvalidEventLogPath { path } => concat3(
                "Event Log path '",
                path.as_str(),
                "' has no parent directory",
            ),
            StateError::InvalidStateDirectory { variable, path } => {
                let beginning = concat3(
                    variable,
                    " must be an absolute state directory, got '",
                    path.as_str(),
                );
                concat2(beginning.as_str(), "'")
            },
            StateError::MissingStateDirectory => {
                "no private application state directory is available; set YOUNG_AGENT_STATE_DIR".to_owned()
            },
            StateError::Io { path, source } => {
                let beginning = concat3(
                    "failed to prepare private state directory '",
                    path.as_str(),
                    "': ",
                );
                concat2(beginning.as_str(), source.message.as_str())
            },
            StateError::UntrustedDirectory { path, message } => {
                let beginning = concat3(
                    "refusing untrusted state directory '",
                    path.as_str(),
                    "': ",
                );
                concat2(beginning.as_str(), message.as_str())
            },
            StateError::CreateEventLog(source) => concat2(
                "failed to reserve new Event Log: ",
                source.message.as_str(),
            ),
        }
    }

    /// Whether a failed system call is behind the error.
    pub fn has_source(&self) -> (result: bool)
        ensures
            result == (self@ is CurrentDirectory || self@ is CreateEventLogDirectory || self@ is Io
                || self@ is CreateEventLog),
    {
        match self {
            StateError::CurrentDirectory(_) => true,
            StateError::CreateEventLogDirectory { .. } => true,
            StateError::Io { .. } => true,
            StateError::CreateEventLog(_) => true,
            _ => false,
        }
    }
}

/// What the surroundings say about state directories.
#[derive(Clone, Debug)]
pub struct StateEnvironment {
    pub platform: Platform,
    /// `YOUNG_AGENT_STATE_DIR`.
    pub state_dir: Option<String>,
    /// `LOCALAPPDATA`.
    pub local_app_data: Option<String>,
    /// `XDG_STATE_HOME`.
    pub xdg_state_home: Option<String>,
    /// `HOME`.
    pub home: Option<String>,
    /// The directory for temporary files.
    pub temp_dir: String,
    /// The user that the process runs as.
    pub uid: u32,
}

/// The mathematical value of a [`StateEnvironment`].
pub struct EnvironmentView {
    pub platform: Platform,
    pub state_dir: Option<Seq<char>>,
    pub local_app_data: Option<Seq<char>>,
    pub xdg_state_home: Option<Seq<char>>,
    pub home: Option<Seq<char>>,
    pub temp_dir: Seq<char>,
    pub uid: u32,
}

/// The value of an optional path.
pub open spec fn optional_path(value: Option<String>) -> Option<Seq<char>> {
    match value {
        Some(found) => Some(found@),
        None => None,
    }
}

impl View for StateEnvironment {
    type V = EnvironmentView;

    open spec fn view(&self) -> EnvironmentView {
        EnvironmentView {
            platform: self.platform,
            state_dir: optional_path(self.state_dir),
            local_app_data: optional_path(self.local_app_data),
            xdg_state_home: optional_path(self.xdg_state_home),
            home: optional_path(self.home),
            temp_dir: self.temp_dir@,
            uid: self.uid,
        }
    }
}

/// Whether a path of a platform is absolute.
pub open spec fn is_absolute(platform: Platform, path: Seq<char>) -> bool {
    if platform == Platform::Windows {
        path::windows_is_absolute(path)
    } else {
        path::is_absolute(path)
    }
}

/// A path of a platform resolved against another.
pub open spec fn joined(platform: Platform, base: Seq<char>, tail: Seq<char>) -> Seq<char> {
    if platform == Platform::Windows {
        path::windows_joined(base, tail)
    } else {
        path::joined(base, tail)
    }
}

/// The directory that holds the last step of a path of a platform.
pub open spec fn parent(platform: Platform, path: Seq<char>) -> Option<Seq<char>> {
    if platform == Platform::Windows {
        path::windows_parent(path)
    } else {
        path::parent(path)
    }
}

fn is_windows(platform: Platform) -> (result: bool)
    ensures
        result == (platform == Platform::Windows),
{
    matches!(platform, Platform::Windows)
}

fn is_absolute_path(platform: Platform, path: &str) -> (result: bool)
    ensures
        result == is_absolute(platform, path@),
{
    if is_windows(platform) {
        windows_path_is_absolute(path)
    } else {
        path_is_absolute(path)
    }
}

fn joined_path(platform: Platform, base: &str, tail: &str) -> (path: String)
    ensures
        path@ == joined(platform, base@, tail@),
{
    if is_windows(platform) {
        windows_join_path(base, tail)
    } else {
        join_path(base, tail)
    }
}

/// A directory that a variable names, which must be absolute.
pub open spec fn named_directory(
    platform: Platform,
    variable: Seq<char>,
    directory: Seq<char>,
    below: Option<Seq<char>>,
) -> Result<Seq<char>, StateErrorView> {
    if is_absolute(platform, directory) {
        Ok(
            match below {
                Some(tail) => joined(platform, directory, tail),
                None => directory,
            },
        )
    } else {
        Err(StateErrorView::InvalidStateDirectory { variable, path: directory })
    }
}

/// Whether a platform is a Unix.
pub open spec fn is_unix(platform: Platform) -> bool {
    platform == Platform::Linux || platform == Platform::MacOs || platform == Platform::OtherUnix
}

/// The private directory for the state of the application. The first variable
/// that is set decides; without one, a Unix falls back to a directory of the
/// user's own among the temporary files.
pub open spec fn state_root(environment: EnvironmentView) -> Result<Seq<char>, StateErrorView> {
    if environment.state_dir is Some {
        named_directory(
            environment.platform,
            "YOUNG_AGENT_STATE_DIR"@,
            environment.state_dir->Some_0,
            None,
        )
    } else if environment.platform == Platform::Windows && environment.local_app_data is Some {
        named_directory(
            environment.platform,
            "LOCALAPPDATA"@,
            environment.local_app_data->Some_0,
            Some("young-agent"@),
        )
    } else if environment.platform != Platform::Windows && environment.xdg_state_home is Some {
        named_directory(
            environment.platform,
            "XDG_STATE_HOME"@,
            environment.xdg_state_home->Some_0,
            Some("young-agent"@),
        )
    } else if environment.platform != Platform::Windows && environment.home is Some {
        named_directory(
            environment.platform,
            "HOME"@,
            environment.home->Some_0,
            Some(".local/state/young-agent"@),
        )
    } else if is_unix(environment.platform) {
        Ok(
            path::joined(
                environment.temp_dir,
                "young-agent-state-"@ + text::decimal_text(environment.uid as nat),
            ),
        )
    } else {
        Err(StateErrorView::MissingStateDirectory)
    }
}

/// The value of a path or an error.
pub open spec fn path_result(result: Result<String, StateError>) -> Result<
    Seq<char>,
    StateErrorView,
> {
    match result {
        Ok(found) => Ok(found@),
        Err(error) => Err(error@),
    }
}

/// A directory that a variable names, which must be absolute.
pub fn absolute_directory(platform: Platform, variable: &'static str, directory: &str) -> (result:
    Result<String, StateError>)
    ensures
        path_result(result) == named_directory(platform, variable@, directory@, None),
{
    if is_absolute_path(platform, directory) {
        Ok(directory.to_owned())
    } else {
        Err(StateError::InvalidStateDirectory { variable, path: directory.to_owned() })
    }
}

fn directory_below(
    platform: Platform,
    variable: &'static str,
    directory: &str,
    tail: &str,
) -> (result: Result<String, StateError>)
    ensures
        path_result(result) == named_directory(platform, variable@, directory@, Some(tail@)),
{
    match absolute_directory(platform, variable, directory) {
        Ok(found) => Ok(joined_path(platform, found.as_str(), tail)),
        Err(error) => Err(error),
    }
}

/// Executable form of [`state_root`].
pub fn state_directory(environment: &StateEnvironment) -> (result: Result<String, StateError>)
    ensures
        path_result(result) == state_root(environment@),
{
    let platform = environment.platform;
    if let Some(directory) = &environment.state_dir {
        return absolute_directory(platform, "YOUNG_AGENT_STATE_DIR", directory.as_str());
    }
    if is_windows(platform) {
        if let Some(directory) = &environment.local_app_data {
            return directory_below(platform, "LOCALAPPDATA", directory.as_str(), "young-agent");
        }
    } else {
        if let Some(directory) = &environment.xdg_state_home {
            return directory_below(platform, "XDG_STATE_HOME", directory.as_str(), "young-agent");
        }
        if let Some(directory) = &environment.home {
            return directory_below(platform, "HOME", directory.as_str(), ".local/state/young-agent");
        }
    }
    match environment.platform {
        Platform::Linux | Platform::MacOs | Platform::OtherUnix => {
            let user = decimal(environment.uid as u128);
            let name = concat2("young-agent-state-", user.as_str());
            Ok(join_path(environment.temp_dir.as_str(), name.as_str()))
        },
        _ => Err(StateError::MissingStateDirectory),
    }
}

/// The place of a log.
#[derive(Clone, Debug, PartialEq, Eq)]
pub struct EventLogLocation {
    pub path: String,
    /// The private directory that holds it, where it is not a place of the
    /// user's own choice.
    pub state_root: Option<String>,
}

/// The mathematical value of an [`EventLogLocation`].
pub struct LocationView {
    pub path: Seq<char>,
    pub state_root: Option<Seq<char>>,
}

impl View for EventLogLocation {
    type V = LocationView;

    open spec fn view(&self) -> LocationView {
        LocationView { path: self.path@, state_root: optional_path(self.state_root) }
    }
}

/// The place of the log of a run: the one that was asked for, seen from the
/// current directory, or one of the run's own below the state directory.
pub open spec fn log_location(
    requested: Option<Seq<char>>,
    current: Result<Seq<char>, IoFailureView>,
    environment: EnvironmentView,
    run_id: Seq<char>,
) -> Result<LocationView, StateErrorView> {
    match requested {
        Some(asked) => if is_absolute(environment.platform, asked) {
            Ok(LocationView { path: asked, state_root: None })
        } else {
            match current {
                Ok(directory) => Ok(
                    LocationView { path: joined(environment.platform, directory, asked), state_root: None },
                ),
                Err(source) => Err(StateErrorView::CurrentDirectory(source)),
            }
        },
        None => match state_root(environment) {
            Ok(root) => Ok(
                LocationView {
                    path: joined(
                        environment.platform,
                        joined(environment.platform, root, "runs"@),
                        run_id + ".jsonl"@,
                    ),
                    state_root: Some(root),
                },
            ),
            Err(error) => Err(error),
        },
    }
}

/// Executable form of [`log_location`].
pub fn location(
    requested: Option<&str>,
    current: Result<String, IoFailure>,
    environment: &StateEnvironment,
    run_id: &RunId,
) -> (result: Result<EventLogLocation, StateError>)
    ensures
        ({
            let expected = log_location(
                match requested {
                    Some(asked) => Some(asked@),
                    None => None,
                },
                match current {
                    Ok(directory) => Ok(directory@),
                    Err(source) => Err(source@),
                },
                environment@,
                run_id@,
            );
            match result {
                Ok(found) => expected == Ok::<LocationView, StateErrorView>(found@),
                Err(error) => expected == Err::<LocationView, StateErrorView>(error@),
            }
        }),
{
    match requested {
        Some(asked) => {
            if is_absolute_path(environment.platform, asked) {
                return Ok(EventLogLocation { path: asked.to_owned(), state_root: None });
            }
            match current {
                Ok(directory) => Ok(
                    EventLogLocation { path: joined_path(environment.platform, directory.as_str(), asked), state_root: None },
                ),
                Err(source) => Err(StateError::CurrentDirectory(source)),
            }
        },
        None => match state_directory(environment) {
            Ok(root) => {
                let runs = joined_path(environment.platform, root.as_str(), "runs");
                let name = concat2(run_id.as_str(), ".jsonl");
                Ok(
                    EventLogLocation {
                        path: joined_path(environment.platform, runs.as_str(), name.as_str()),
                        state_root: Some(root),
                    },
                )
            },
            Err(error) => Err(error),
        },
    }
}

/// The directories to prepare for a log.
#[derive(Clone, Debug, PartialEq, Eq)]
pub struct EventLogDirectories {
    /// The directory that holds the log.
    pub parent: String,
    /// Whether it must be private, like the state directory above it.
    pub private: bool,
}

impl EventLogLocation {
    /// The directories to prepare for the log.
    pub fn directories(&self, platform: Platform) -> (result: Result<
        EventLogDirectories,
        StateError,
    >)
        ensures
            match result {
                Ok(found) => parent(platform, self@.path) == Some(found.parent@) && found.private == (
                self@.state_root is Some),
                Err(error) => parent(platform, self@.path) is None && error@ == (
                StateErrorView::InvalidEventLogPath { path: self@.path }),
            },
    {
        let found = if is_windows(platform) {
            windows_path_parent(self.path.as_str())
        } else {
            path_parent(self.path.as_str())
        };
        match found {
            Some(parent) => Ok(
                EventLogDirectories { parent, private: self.state_root.is_some() },
            ),
            None => Err(
                StateError::InvalidEventLogPath { path: self.path.as_str().to_owned() },
            ),
        }
    }
}

/// What a directory entry is.
#[derive(Clone, Copy, Debug, PartialEq, Eq, Structural)]
pub struct EntryFacts {
    pub is_symlink: bool,
    pub is_directory: bool,
    pub uid: u32,
}

/// What the preparation of a private directory waits for.
#[derive(Clone, Copy, Debug, PartialEq, Eq, Structural)]
pub enum DirectoryPhase {
    /// The directory, and those above it, to be created.
    Create,
    /// What there is, seen without following a link.
    Inspect,
    /// Access for its owner alone to be set.
    SetMode,
    /// The access that it has, seen without following a link.
    ReadMode,
    Finished,
}

/// What was found for the preparation of a private directory.
#[derive(Debug, PartialEq, Eq)]
pub enum DirectoryEvent {
    Done(Result<(), IoFailure>),
    Inspected(Result<EntryFacts, IoFailure>),
    ModeRead(Result<u32, IoFailure>),
}

/// The mathematical value of a [`DirectoryEvent`].
pub enum DirectoryEventView {
    Done(Result<(), IoFailureView>),
    Inspected(Result<EntryFacts, IoFailureView>),
    ModeRead(Result<u32, IoFailureView>),
}

impl View for DirectoryEvent {
    type V = DirectoryEventView;

    open spec fn view(&self) -> DirectoryEventView {
        match *self {
            DirectoryEvent::Done(done) => DirectoryEventView::Done(io_failure::call_view(done)),
            DirectoryEvent::Inspected(facts) => {
                DirectoryEventView::Inspected(io_failure::call_view(facts))
            },
            DirectoryEvent::ModeRead(mode) => {
                DirectoryEventView::ModeRead(io_failure::call_view(mode))
            },
        }
    }
}

/// A number in octal.
pub open spec fn octal_text(value: nat) -> Seq<char>
    decreases value,
{
    if value < 8 {
        seq![text::digit_char(value)]
    } else {
        octal_text(value / 8).push(text::digit_char(value % 8))
    }
}

fn octal(value: u32) -> (digits: String)
    ensures
        digits@ == octal_text(value as nat),
    decreases value,
{
    if value < 8 {
        let mut digits = String::new();
        digits.push(text::digit(value as u8));
        assert(digits@ =~= seq![text::digit_char(value as nat)]);
        digits
    } else {
        let mut digits = octal(value / 8);
        digits.push(text::digit((value % 8) as u8));
        digits
    }
}

/// The mathematical value of a [`PrivateDirectory`].
pub struct DirectoryView {
    pub path: Seq<char>,
    /// The user that must own the directory, on a Unix.
    pub owner: Option<u32>,
    pub phase: DirectoryPhase,
    /// Whether it was seen to be a real directory of its owner's.
    pub is_trusted: bool,
    /// Whether it was seen to be open to its owner alone.
    pub is_private: bool,
    pub failure: Option<StateErrorView>,
}

impl DirectoryView {
    /// What holds in every state: a directory is accepted only when it was seen
    /// to be real, owned and private.
    pub open spec fn well_formed(self) -> bool {
        &&& self.phase == DirectoryPhase::Finished && self.failure is None ==> self.is_trusted
            && (self.owner is Some ==> self.is_private)
        &&& self.phase == DirectoryPhase::SetMode || self.phase == DirectoryPhase::ReadMode
            ==> self.is_trusted
        &&& self.failure is Some ==> self.phase == DirectoryPhase::Finished
    }

    pub open spec fn failed(self, error: StateErrorView) -> DirectoryView {
        DirectoryView { phase: DirectoryPhase::Finished, failure: Some(error), ..self }
    }

    pub open spec fn untrusted(self, message: Seq<char>) -> DirectoryView {
        self.failed(StateErrorView::UntrustedDirectory { path: self.path, message })
    }

    /// Behind a look at what there is.
    pub open spec fn inspected(self, facts: EntryFacts) -> DirectoryView {
        if facts.is_symlink || !facts.is_directory {
            self.untrusted("path must be a real directory, not a symlink or file"@)
        } else {
            match self.owner {
                None => DirectoryView {
                    is_trusted: true,
                    phase: DirectoryPhase::Finished,
                    ..self
                },
                Some(owner) => if facts.uid != owner {
                    self.untrusted(
                        "directory owner uid "@ + text::decimal_text(facts.uid as nat)
                            + " does not match current uid "@ + text::decimal_text(owner as nat),
                    )
                } else {
                    DirectoryView { is_trusted: true, phase: DirectoryPhase::SetMode, ..self }
                },
            }
        }
    }

    /// Behind a look at the access.
    pub open spec fn mode_read(self, mode: u32) -> DirectoryView {
        if mode & 0o777 != 0o700 {
            self.untrusted(
                "directory mode "@ + octal_text((mode & 0o777) as nat)
                    + " is not private mode 700"@,
            )
        } else {
            DirectoryView { is_private: true, phase: DirectoryPhase::Finished, ..self }
        }
    }

    /// How an event moves the preparation on. An event that it does not wait for
    /// leaves it where it is.
    pub open spec fn step(self, event: DirectoryEventView) -> DirectoryView {
        match (self.phase, event) {
            (DirectoryPhase::Create, DirectoryEventView::Done(Ok(()))) => DirectoryView {
                phase: DirectoryPhase::Inspect,
                ..self
            },
            (DirectoryPhase::Create, DirectoryEventView::Done(Err(source))) => self.failed(
                StateErrorView::Io { path: self.path, source },
            ),
            (DirectoryPhase::Inspect, DirectoryEventView::Inspected(Ok(facts))) => self.inspected(
                facts,
            ),
            (DirectoryPhase::Inspect, DirectoryEventView::Inspected(Err(source))) => self.failed(
                StateErrorView::Io { path: self.path, source },
            ),
            (DirectoryPhase::SetMode, DirectoryEventView::Done(Ok(()))) => DirectoryView {
                phase: DirectoryPhase::ReadMode,
                ..self
            },
            (DirectoryPhase::SetMode, DirectoryEventView::Done(Err(source))) => self.failed(
                StateErrorView::Io { path: self.path, source },
            ),
            (DirectoryPhase::ReadMode, DirectoryEventView::ModeRead(Ok(mode))) => self.mode_read(
                mode,
            ),
            (DirectoryPhase::ReadMode, DirectoryEventView::ModeRead(Err(source))) => self.failed(
                StateErrorView::Io { path: self.path, source },
            ),
            _ => self,
        }
    }
}

/// The preparation of a private directory.
pub struct PrivateDirectory {
    path: String,
    owner: Option<u32>,
    phase: DirectoryPhase,
    is_trusted: bool,
    is_private: bool,
    failure: Option<StateError>,
}

impl View for PrivateDirectory {
    type V = DirectoryView;

    closed spec fn view(&self) -> DirectoryView {
        DirectoryView {
            path: self.path@,
            owner: self.owner,
            phase: self.phase,
            is_trusted: self.is_trusted,
            is_private: self.is_private,
            failure: match self.failure {
                Some(error) => Some(error@),
                None => None,
            },
        }
    }
}

impl PrivateDirectory {
    /// The preparation of a directory, which on a Unix `owner` must own.
    pub fn new(path: &str, owner: Option<u32>) -> (directory: PrivateDirectory)
        ensures
            directory@ == (DirectoryView {
                path: path@,
                owner,
                phase: DirectoryPhase::Create,
                is_trusted: false,
                is_private: false,
                failure: None,
            }),
            directory@.well_formed(),
    {
        PrivateDirectory {
            path: path.to_owned(),
            owner,
            phase: DirectoryPhase::Create,
            is_trusted: false,
            is_private: false,
            failure: None,
        }
    }

    /// What the preparation waits for.
    pub fn phase(&self) -> (phase: DirectoryPhase)
        ensures
            phase == self@.phase,
    {
        self.phase
    }

    fn fail(&mut self, error: StateError)
        ensures
            final(self)@ == old(self)@.failed(error@),
    {
        self.failure = Some(error);
        self.phase = DirectoryPhase::Finished;
    }

    fn refuse(&mut self, message: String)
        ensures
            final(self)@ == old(self)@.untrusted(message@),
    {
        let path = self.path.as_str().to_owned();
        self.fail(StateError::UntrustedDirectory { path, message });
    }

    fn fail_call(&mut self, source: IoFailure)
        ensures
            final(self)@ == old(self)@.failed(
                StateErrorView::Io { path: old(self)@.path, source: source@ },
            ),
    {
        let path = self.path.as_str().to_owned();
        self.fail(StateError::Io { path, source });
    }

    fn inspected(&mut self, facts: EntryFacts)
        ensures
            final(self)@ == old(self)@.inspected(facts),
    {
        if facts.is_symlink || !facts.is_directory {
            self.refuse("path must be a real directory, not a symlink or file".to_owned());
            return;
        }
        match self.owner {
            None => {
                self.is_trusted = true;
                self.phase = DirectoryPhase::Finished;
            },
            Some(owner) => {
                if facts.uid != owner {
                    let found = decimal(facts.uid as u128);
                    let wanted = decimal(owner as u128);
                    let beginning = concat3(
                        "directory owner uid ",
                        found.as_str(),
                        " does not match current uid ",
                    );
                    self.refuse(concat2(beginning.as_str(), wanted.as_str()));
                } else {
                    self.is_trusted = true;
                    self.phase = DirectoryPhase::SetMode;
                }
            },
        }
    }

    fn mode_read(&mut self, mode: u32)
        ensures
            final(self)@ == old(self)@.mode_read(mode),
    {
        let access: u32 = mode & 0o777;
        if access != 0o700 {
            let digits = octal(access);
            self.refuse(
                concat3("directory mode ", digits.as_str(), " is not private mode 700"),
            );
        } else {
            self.is_private = true;
            self.phase = DirectoryPhase::Finished;
        }
    }

    /// Takes an event.
    pub fn advance(&mut self, event: DirectoryEvent)
        requires
            old(self)@.well_formed(),
        ensures
            final(self)@ == old(self)@.step(event@),
            final(self)@.well_formed(),
    {
        match (self.phase, event) {
            (DirectoryPhase::Create, DirectoryEvent::Done(Ok(()))) => {
                self.phase = DirectoryPhase::Inspect;
            },
            (DirectoryPhase::Create, DirectoryEvent::Done(Err(source))) => {
                self.fail_call(source);
            },
            (DirectoryPhase::Inspect, DirectoryEvent::Inspected(Ok(facts))) => {
                self.inspected(facts);
            },
            (DirectoryPhase::Inspect, DirectoryEvent::Inspected(Err(source))) => {
                self.fail_call(source);
            },
            (DirectoryPhase::SetMode, DirectoryEvent::Done(Ok(()))) => {
                self.phase = DirectoryPhase::ReadMode;
            },
            (DirectoryPhase::SetMode, DirectoryEvent::Done(Err(source))) => {
                self.fail_call(source);
            },
            (DirectoryPhase::ReadMode, DirectoryEvent::ModeRead(Ok(mode))) => {
                self.mode_read(mode);
            },
            (DirectoryPhase::ReadMode, DirectoryEvent::ModeRead(Err(source))) => {
                self.fail_call(source);
            },
            _ => {},
        }
    }

    /// Why the directory was not accepted, where it was not.
    pub fn into_failure(self) -> (failure: Option<StateError>)
        ensures
            match failure {
                Some(error) => self@.failure == Some(error@),
                None => self@.failure is None,
            },
    {
        self.failure
    }
}

/// A directory is accepted only when it was seen to be a real directory, on a
/// Unix one of the user's own that is open to nobody else.
pub proof fn law_accepted_directories_are_private(
    directory: DirectoryView,
    event: DirectoryEventView,
)
    requires
        directory.well_formed(),
    ensures
        directory.step(event).well_formed(),
        directory.step(event).phase == DirectoryPhase::Finished && directory.step(event).failure
            is None ==> directory.step(event).is_trusted && (directory.owner is Some
            ==> directory.step(event).is_private),
        directory.step(event).is_private && !directory.is_private ==> (
        event matches DirectoryEventView::ModeRead(Ok(mode)) && mode & 0o777 == 0o700),
        directory.step(event).is_trusted && !directory.is_trusted ==> (
        event matches DirectoryEventView::Inspected(Ok(facts)) && !facts.is_symlink
            && facts.is_directory && (directory.owner is Some ==> directory.owner == Some(
            facts.uid,
        ))),
{
}

/// Where a state directory is set, it is used, and the other variables do not
/// matter.
pub proof fn law_the_first_variable_decides(first: EnvironmentView, second: EnvironmentView)
    requires
        first.platform == second.platform,
        first.state_dir is Some,
        first.state_dir == second.state_dir,
    ensures
        state_root(first) == state_root(second),
{
}

} // verus!
