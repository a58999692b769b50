//! What paths mean on Windows, and where the state of the program stands there.

use crate::command_run::Platform;
use crate::command_supervisor::SupervisedCommand;
use crate::path;
use crate::path_laws;
use crate::state;
use crate::state::{
    DirectoryEventView, DirectoryPhase, DirectoryView, EntryFacts, EnvironmentView, StateErrorView,
};
use crate::text;
use vstd::prelude::*;

verus! {

/// Whether a text is a single step: not empty, and without a separator.
pub open spec fn is_step(name: Seq<char>) -> bool {
    name.len() > 0 && forall|i: int|
        0 <= i < name.len() ==> #[trigger] name[i] != '\\' && name[i] != '/'
}

proof fn lemma_step_end(whole: Seq<char>, at: int, end: int)
    requires
        0 <= at <= end <= whole.len(),
        forall|i: int| at <= i < end ==> #[trigger] whole[i] != '\\' && whole[i] != '/',
        end < whole.len() ==> whole[end] == '\\' || whole[end] == '/',
    ensures
        path::windows_step_end(whole, at) == end,
    decreases end - at,
{
    if at < end {
        lemma_step_end(whole, at + 1, end);
    }
}

/// A path is absolute where it begins with a drive and a separator, or with a server and
/// a share behind two separators. A drive alone does not make it so, and neither does
/// anything else.
pub proof fn law_drives_and_shares_are_absolute(
    drive: char,
    separator: char,
    rest: Seq<char>,
    server: Seq<char>,
    share: Seq<char>,
)
    requires
        'a' <= drive <= 'z' || 'A' <= drive <= 'Z',
        separator == '\\' || separator == '/',
        is_step(server),
        is_step(share),
    ensures
        path::windows_is_absolute(seq![drive, ':', separator] + rest),
        rest.len() == 0 || rest[0] != '\\' && rest[0] != '/' ==> !path::windows_is_absolute(
            seq![drive, ':'] + rest,
        ),
        path::windows_is_absolute(
            seq![separator, separator] + server + seq![separator] + share,
        ),
        rest.len() == 0 || rest[0] != '\\' && rest[0] != '/' ==> !path::windows_is_absolute(
            seq![separator] + rest,
        ),
        rest.len() < 2 || rest[1] != ':' && rest[0] != '\\' && rest[0] != '/'
            ==> !path::windows_is_absolute(rest),
{
    let first = seq![drive, ':', separator] + rest;
    assert(first[0] == drive && first[1] == ':' && first[2] == separator);
    let bare = seq![drive, ':'] + rest;
    assert(bare[0] == drive && bare[1] == ':');
    if rest.len() > 0 {
        assert(bare[2] == rest[0]);
    }
    let far = seq![separator, separator] + server + seq![separator] + share;
    let end = 2 + server.len() as int;
    assert(far[0] == separator && far[1] == separator && far[end] == separator);
    assert forall|i: int| 2 <= i < end implies #[trigger] far[i] != '\\' && far[i] != '/' by {
        assert(far[i] == server[i - 2]);
    }
    assert forall|i: int| end + 1 <= i < far.len() implies #[trigger] far[i] != '\\' && far[i]
        != '/' by {
        assert(far[i] == share[i - end - 1]);
    }
    lemma_step_end(far, 2, end);
    lemma_step_end(far, end + 1, far.len() as int);
    let rooted = seq![separator] + rest;
    assert(rooted[0] == separator);
    if rest.len() > 0 {
        assert(rooted[1] == rest[0]);
    }
}

/// A relative path stands behind its base and one separator. An absolute one stands for
/// itself, and one that starts at the root keeps the drive of the base.
pub proof fn law_windows_paths_are_joined(base: Seq<char>, tail: Seq<char>, drive: char)
    requires
        base.len() > 2,
        tail.len() > 0,
        'a' <= drive <= 'z' || 'A' <= drive <= 'Z',
    ensures
        tail[0] != '\\' && tail[0] != '/' && !tail.contains(':') ==> path::windows_joined(base, tail)
            == (if base.last() == '\\' || base.last() == '/' {
            base + tail
        } else {
            base + seq!['\\'] + tail
        }),
        path::windows_is_absolute(tail) ==> path::windows_joined(base, tail) == tail,
        tail.len() > 1 && (tail[0] == '\\' || tail[0] == '/') && tail[1] != '\\' && tail[1] != '/'
            && base[0] == drive && base[1] == ':' ==> path::windows_joined(base, tail) == seq![
            drive,
            ':',
        ] + tail,
{
    if tail.len() > 1 && tail[1] == ':' {
        assert(tail.contains(tail[1]));
    }
    assert(base.push('\\') =~= base + seq!['\\']);
    if base[0] == drive && base[1] == ':' {
        assert(base.take(2) =~= seq![drive, ':']);
    }
}

/// The directory that holds the last step of a path is a beginning of the path with its
/// drive or its share, and has all of its steps but that one, whichever separator stands
/// between them.
pub proof fn law_windows_parents_have_all_steps_but_the_last(drive: char, rest: Seq<char>)
    requires
        'a' <= drive <= 'z' || 'A' <= drive <= 'Z',
    ensures
        path::windows_parent(seq![drive, ':'] + rest) matches Some(found) ==> {
            &&& found.len() >= 2
            &&& found.is_prefix_of(seq![drive, ':'] + rest)
            &&& path::components(path::with_slashes(found.skip(2))) == path::components(
                path::with_slashes(rest),
            ).drop_last()
        },
{
    let whole = seq![drive, ':'] + rest;
    assert(whole[0] == drive && whole[1] == ':');
    assert(whole.skip(2) =~= rest);
    let slashes = path::with_slashes(rest);
    path_laws::law_parents_have_all_steps_but_the_last(slashes);
    if let Some(above) = path::parent(slashes) {
        let found = whole.take(2 + above.len() as int);
        assert(path::windows_parent(whole) == Some(found));
        assert(found.skip(2) =~= rest.take(above.len() as int));
        assert(path::with_slashes(found.skip(2)) =~= above) by {
            assert(above =~= slashes.take(above.len() as int));
        }
        assert(whole.subrange(0, found.len() as int) =~= found);
    }
}

/// On Windows the state of the program stands in a directory of its own below the one
/// that the user has for local data, or where it is asked to stand. Where neither is
/// said there is no place for it.
pub proof fn law_windows_state_stands_below_local_data(
    environment: EnvironmentView,
    directory: Seq<char>,
)
    requires
        environment.platform == Platform::Windows,
        path::windows_is_absolute(directory),
        directory.len() > 3,
        directory.last() != '\\' && directory.last() != '/',
    ensures
        environment.state_dir == Some(directory) ==> state::state_root(environment) == Ok::<
            Seq<char>,
            StateErrorView,
        >(directory),
        environment.state_dir is None && environment.local_app_data == Some(directory)
            ==> state::state_root(environment) == Ok::<Seq<char>, StateErrorView>(
            directory + "\\young-agent"@,
        ),
        environment.state_dir is None && environment.local_app_data is None ==> state::state_root(
            environment,
        ) == Err::<Seq<char>, StateErrorView>(StateErrorView::MissingStateDirectory),
{
    reveal_strlit("young-agent");
    reveal_strlit("\\young-agent");
    assert("young-agent"@.len() == 11);
    assert("young-agent"@[0] == 'y' && "young-agent"@[1] == 'o');
    assert(directory.push('\\') + "young-agent"@ =~= directory + "\\young-agent"@);
}

/// Where a directory has no owner that could be told, one that is a real directory is
/// accepted, and a link or a file is not.
pub proof fn law_real_directories_are_accepted(directory: DirectoryView, facts: EntryFacts)
    requires
        directory.phase == DirectoryPhase::Inspect,
        directory.owner is None,
        directory.failure is None,
    ensures
        ({
            let next = directory.step(DirectoryEventView::Inspected(Ok(facts)));
            &&& next.phase == DirectoryPhase::Finished
            &&& next.failure is None <==> facts.is_directory && !facts.is_symlink
            &&& next.failure is Some ==> (next.failure matches Some(
                StateErrorView::UntrustedDirectory { path, .. },
            ) && path == directory.path)
        }),
{
}

/// What digits are worth in octal.
pub open spec fn octal_value(digits: Seq<char>) -> nat
    decreases digits.len(),
{
    if digits.len() == 0 {
        0
    } else {
        octal_value(digits.drop_last()) * 8 + (digits.last() as u32 - '0' as u32) as nat
    }
}

/// A number that is written in octal is worth what was written, and has no needless zero
/// in front.
pub proof fn law_octal_texts_are_worth_their_number(value: nat)
    ensures
        octal_value(state::octal_text(value)) == value,
        state::octal_text(value).len() > 0,
        value > 0 ==> state::octal_text(value)[0] != '0',
        value == 0 ==> state::octal_text(value) == seq!['0'],
    decreases value,
{
    let written = state::octal_text(value);
    if value < 8 {
        assert(written.drop_last() =~= Seq::<char>::empty());
        assert(octal_value(written.drop_last()) == 0);
        assert(written.last() == text::digit_char(value));
    } else {
        law_octal_texts_are_worth_their_number(value / 8);
        let front = state::octal_text(value / 8);
        assert(written.drop_last() =~= front);
        assert(written.last() == text::digit_char(value % 8));
        assert(value == (value / 8) * 8 + value % 8);
        assert(written[0] == front[0]);
    }
}

/// A command on which the work fails is put off by 10 milliseconds, and by twice as long
/// for each further failure in a row, up to 250 milliseconds.
pub proof fn law_failures_put_off_twice_as_long(command: SupervisedCommand, now: u64)
    requires
        now + 250 <= u64::MAX,
    ensures
        ({
            let once = command.backed_off(now);
            let twice = once.backed_off(now);
            let first = once.next_action - now;
            &&& command.processing_panics == 0 ==> first == 10
            &&& twice.next_action - now == if 2 * first < 250 {
                2 * first
            } else {
                250
            }
            &&& once.id == command.id
            &&& once.termination_attempts_remaining == command.termination_attempts_remaining
        }),
{
}

} // verus!
