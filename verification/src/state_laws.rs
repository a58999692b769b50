//! Where the log of a run is kept.

use crate::command_run::Platform;
use crate::path;
use crate::state;
use crate::state::{
    DirectoryEventView, DirectoryPhase, DirectoryView, EntryFacts, EnvironmentView, LocationView,
    StateErrorView,
};
use crate::text;
use vstd::prelude::*;

verus! {

/// Whether a text is the path of a directory as a Unix writes it, without a slash at
/// its end.
pub open spec fn is_directory_path(path: Seq<char>) -> bool {
    path.len() > 0 && path[0] == '/' && path.last() != '/'
}

/// Whether a platform is none of Windows, nor one that is not known.
pub open spec fn is_unix(platform: Platform) -> bool {
    platform == Platform::Linux || platform == Platform::MacOs || platform == Platform::OtherUnix
}

/// Without a request, the log of a run is the file of its name among the runs below the
/// directory that the first of the variables names: that of the application itself,
/// that for the state of all applications, or the home of the user; without any, one of
/// the user's own among the temporary files.
pub proof fn law_logs_stand_below_the_state_directory(
    environment: EnvironmentView,
    directory: Seq<char>,
    current: Seq<char>,
    run_id: Seq<char>,
)
    requires
        is_unix(environment.platform),
        is_directory_path(directory),
        run_id.len() > 0 && run_id[0] != '/',
    ensures
        ({
            let found = state::log_location(None, Ok(current), environment, run_id);
            let log = "/runs/"@ + run_id + ".jsonl"@;
            &&& environment.state_dir == Some(directory) ==> found == Ok::<
                LocationView,
                StateErrorView,
            >(LocationView { path: directory + log, state_root: Some(directory) })
            &&& environment.state_dir is None && environment.xdg_state_home == Some(directory)
                ==> found == Ok::<LocationView, StateErrorView>(
                LocationView {
                    path: directory + "/young-agent"@ + log,
                    state_root: Some(directory + "/young-agent"@),
                },
            )
            &&& environment.state_dir is None && environment.xdg_state_home is None
                && environment.home == Some(directory) ==> found == Ok::<
                LocationView,
                StateErrorView,
            >(
                LocationView {
                    path: directory + "/.local/state/young-agent"@ + log,
                    state_root: Some(directory + "/.local/state/young-agent"@),
                },
            )
            &&& environment.state_dir is None && environment.xdg_state_home is None
                && environment.home is None && environment.temp_dir == directory ==> found == Ok::<
                LocationView,
                StateErrorView,
            >(
                LocationView {
                    path: directory + "/young-agent-state-"@ + text::decimal_text(
                        environment.uid as nat,
                    ) + log,
                    state_root: Some(
                        directory + "/young-agent-state-"@ + text::decimal_text(
                            environment.uid as nat,
                        ),
                    ),
                },
            )
        }),
{
    reveal_strlit("/runs/");
    reveal_strlit("runs");
    reveal_strlit(".jsonl");
    reveal_strlit("/young-agent");
    reveal_strlit("young-agent");
    reveal_strlit("/.local/state/young-agent");
    reveal_strlit(".local/state/young-agent");
    reveal_strlit("/young-agent-state-");
    reveal_strlit("young-agent-state-");
    let number = text::decimal_text(environment.uid as nat);
    crate::text_laws::law_decimal_texts_are_worth_their_number(environment.uid as nat);
    assert(number.len() > 0);
    assert('0' <= number[number.len() - 1] <= '9');
    lemma_log(directory, run_id);
    let shared = directory + "/young-agent"@;
    assert(path::joined(directory, "young-agent"@) =~= shared);
    assert(shared.last() == 't');
    assert(shared[0] == '/');
    lemma_log(shared, run_id);
    let home = directory + "/.local/state/young-agent"@;
    assert(path::joined(directory, ".local/state/young-agent"@) =~= home);
    assert(home.last() == 't');
    assert(home[0] == '/');
    lemma_log(home, run_id);
    let temporary = directory + "/young-agent-state-"@ + number;
    assert(path::joined(directory, "young-agent-state-"@ + number) =~= temporary);
    assert(temporary.last() == number[number.len() - 1]);
    assert(temporary[0] == '/');
    lemma_log(temporary, run_id);
}

proof fn lemma_log(root: Seq<char>, run_id: Seq<char>)
    requires
        is_directory_path(root),
        run_id.len() > 0 && run_id[0] != '/',
    ensures
        path::joined(path::joined(root, "runs"@), run_id + ".jsonl"@) == root + ("/runs/"@ + run_id
            + ".jsonl"@),
{
    reveal_strlit("/runs/");
    reveal_strlit("runs");
    reveal_strlit(".jsonl");
    let runs = path::joined(root, "runs"@);
    assert(runs =~= root + "/runs"@) by {
        reveal_strlit("/runs");
    }
    assert(runs.last() == 's');
    let name = run_id + ".jsonl"@;
    assert(name[0] == run_id[0]);
    assert(path::joined(runs, name) =~= runs.push('/') + name);
    assert(runs.push('/') + name =~= root + ("/runs/"@ + run_id + ".jsonl"@));
}

/// A log that is asked for is the file of that path, seen from the current directory,
/// and needs no state directory.
pub proof fn law_logs_stand_where_they_are_asked_for(
    environment: EnvironmentView,
    asked: Seq<char>,
    current: Seq<char>,
    run_id: Seq<char>,
)
    requires
        is_unix(environment.platform),
        is_directory_path(current),
        asked.len() > 0,
    ensures
        state::log_location(Some(asked), Ok(current), environment, run_id) == Ok::<
            LocationView,
            StateErrorView,
        >(
            LocationView {
                path: if asked[0] == '/' {
                    asked
                } else {
                    current.push('/') + asked
                },
                state_root: None,
            },
        ),
{
}

/// A variable that names no absolute directory is refused, with its name and what it
/// says.
pub proof fn law_relative_directories_are_refused(
    environment: EnvironmentView,
    directory: Seq<char>,
)
    requires
        is_unix(environment.platform),
        directory.len() == 0 || directory[0] != '/',
    ensures
        environment.state_dir == Some(directory) ==> state::state_root(environment) == Err::<
            Seq<char>,
            StateErrorView,
        >(
            StateErrorView::InvalidStateDirectory {
                variable: "YOUNG_AGENT_STATE_DIR"@,
                path: directory,
            },
        ),
        environment.state_dir is None && environment.xdg_state_home == Some(directory)
            ==> state::state_root(environment) == Err::<Seq<char>, StateErrorView>(
            StateErrorView::InvalidStateDirectory { variable: "XDG_STATE_HOME"@, path: directory },
        ),
        environment.state_dir is None && environment.xdg_state_home is None && environment.home
            == Some(directory) ==> state::state_root(environment) == Err::<
            Seq<char>,
            StateErrorView,
        >(StateErrorView::InvalidStateDirectory { variable: "HOME"@, path: directory }),
{
}

/// A directory that is the user's own is made, looked at, closed to all others, looked
/// at again and accepted; one that is a link, no directory, another user's or still
/// open to others is not.
pub proof fn law_private_directories_are_accepted(
    directory: DirectoryView,
    facts: EntryFacts,
    mode: u32,
    owner: u32,
)
    requires
        directory.phase == DirectoryPhase::Create,
        directory.failure is None,
        directory.owner == Some(owner),
    ensures
        ({
            let made = directory.step(DirectoryEventView::Done(Ok(())));
            let seen = made.step(DirectoryEventView::Inspected(Ok(facts)));
            let closed = seen.step(DirectoryEventView::Done(Ok(())));
            let last = closed.step(DirectoryEventView::ModeRead(Ok(mode)));
            &&& made.phase == DirectoryPhase::Inspect
            &&& if facts.is_directory && !facts.is_symlink && facts.uid == owner {
                &&& seen.phase == DirectoryPhase::SetMode
                &&& closed.phase == DirectoryPhase::ReadMode
                &&& last.phase == DirectoryPhase::Finished
                &&& last.failure is None <==> mode & 0o777 == 0o700
            } else {
                &&& seen.phase == DirectoryPhase::Finished
                &&& seen.failure matches Some(StateErrorView::UntrustedDirectory { path, .. })
                &&& path == directory.path
            }
        }),
{
}

} // verus!
