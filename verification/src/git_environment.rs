//! The inherited variables that would make `git` look at another repository or
//! run something else.

use crate::text;
use crate::text::starts_with;
use vstd::prelude::*;

verus! {

/// The variables that are removed whether or not they are inherited.
pub open spec fn repository_environment() -> Seq<Seq<char>> {
    seq![
        "GIT_DIR"@,
        "GIT_WORK_TREE"@,
        "GIT_COMMON_DIR"@,
        "GIT_INDEX_FILE"@,
        "GIT_OBJECT_DIRECTORY"@,
        "GIT_ALTERNATE_OBJECT_DIRECTORIES"@,
        "GIT_CONFIG"@,
        "GIT_CONFIG_PARAMETERS"@,
        "GIT_CONFIG_COUNT"@,
        "GIT_CONFIG_SYSTEM"@,
        "GIT_CONFIG_GLOBAL"@,
        "GIT_CONFIG_NOSYSTEM"@,
        "GIT_EXEC_PATH"@,
        "GIT_IMPLICIT_WORK_TREE"@,
        "GIT_GRAFT_FILE"@,
        "GIT_NO_REPLACE_OBJECTS"@,
        "GIT_REPLACE_REF_BASE"@,
        "GIT_INTERNAL_SUPER_PREFIX"@,
        "GIT_SHALLOW_FILE"@,
        "GIT_QUARANTINE_PATH"@,
        "GIT_PREFIX"@,
        "GIT_CEILING_DIRECTORIES"@,
        "GIT_DISCOVERY_ACROSS_FILESYSTEM"@,
        "GIT_NAMESPACE"@,
    ]
}

/// The variables that belong to a family of which all are removed.
pub open spec fn is_in_removed_family(name: Seq<char>) -> bool {
    "GIT_CONFIG_KEY_"@.is_prefix_of(name) || "GIT_CONFIG_VALUE_"@.is_prefix_of(name)
        || "GIT_TRACE"@.is_prefix_of(name)
}

/// Executable form of [`is_in_removed_family`].
pub fn names_git_configuration_or_trace(name: &str) -> (result: bool)
    ensures
        result == is_in_removed_family(name@),
{
    starts_with(name, "GIT_CONFIG_KEY_") || starts_with(name, "GIT_CONFIG_VALUE_") || starts_with(
        name,
        "GIT_TRACE",
    )
}

/// Those of the first `count` inherited variables of which the family is
/// removed.
pub open spec fn removed_inherited(inherited: Seq<Seq<char>>, count: int) -> Seq<Seq<char>>
    decreases count,
{
    if count <= 0 {
        Seq::empty()
    } else if is_in_removed_family(inherited[count - 1]) {
        removed_inherited(inherited, count - 1).push(inherited[count - 1])
    } else {
        removed_inherited(inherited, count - 1)
    }
}

fn push_name(names: &mut Vec<String>, name: &str)
    ensures
        text::texts(final(names)@) == text::texts(old(names)@).push(name@),
{
    names.push(name.to_owned());
    assert(text::texts(names@) =~= text::texts(old(names)@).push(name@));
}

fn repository_variables() -> (names: Vec<String>)
    ensures
        text::texts(names@) == repository_environment(),
{
    let mut names: Vec<String> = Vec::new();
    assert(text::texts(names@) =~= Seq::<Seq<char>>::empty());
    push_name(&mut names, "GIT_DIR");
    push_name(&mut names, "GIT_WORK_TREE");
    push_name(&mut names, "GIT_COMMON_DIR");
    push_name(&mut names, "GIT_INDEX_FILE");
    push_name(&mut names, "GIT_OBJECT_DIRECTORY");
    push_name(&mut names, "GIT_ALTERNATE_OBJECT_DIRECTORIES");
    push_name(&mut names, "GIT_CONFIG");
    push_name(&mut names, "GIT_CONFIG_PARAMETERS");
    push_name(&mut names, "GIT_CONFIG_COUNT");
    push_name(&mut names, "GIT_CONFIG_SYSTEM");
    push_name(&mut names, "GIT_CONFIG_GLOBAL");
    push_name(&mut names, "GIT_CONFIG_NOSYSTEM");
    push_name(&mut names, "GIT_EXEC_PATH");
    push_name(&mut names, "GIT_IMPLICIT_WORK_TREE");
    push_name(&mut names, "GIT_GRAFT_FILE");
    push_name(&mut names, "GIT_NO_REPLACE_OBJECTS");
    push_name(&mut names, "GIT_REPLACE_REF_BASE");
    push_name(&mut names, "GIT_INTERNAL_SUPER_PREFIX");
    push_name(&mut names, "GIT_SHALLOW_FILE");
    push_name(&mut names, "GIT_QUARANTINE_PATH");
    push_name(&mut names, "GIT_PREFIX");
    push_name(&mut names, "GIT_CEILING_DIRECTORIES");
    push_name(&mut names, "GIT_DISCOVERY_ACROSS_FILESYSTEM");
    push_name(&mut names, "GIT_NAMESPACE");
    assert(text::texts(names@) =~= repository_environment());
    names
}

/// The variables to remove before `git` is run, given the inherited ones.
pub fn remove_inherited_git_execution_context(inherited: &[String]) -> (names: Vec<String>)
    ensures
        text::texts(names@) == repository_environment() + removed_inherited(
            text::texts(inherited@),
            inherited@.len() as int,
        ),
{
    let mut names = repository_variables();
    let ghost views = text::texts(inherited@);
    let length: usize = inherited.len();
    let mut index: usize = 0;
    assert(text::texts(names@) =~= repository_environment() + removed_inherited(views, 0));
    while index < length
        invariant
            index <= length,
            length == inherited@.len(),
            views == text::texts(inherited@),
            text::texts(names@) == repository_environment() + removed_inherited(
                views,
                index as int,
            ),
        decreases length - index,
    {
        assert(views[index as int] == inherited@[index as int]@);
        if names_git_configuration_or_trace(inherited[index].as_str()) {
            push_name(&mut names, inherited[index].as_str());
        }
        index = index + 1;
        assert(text::texts(names@) =~= repository_environment() + removed_inherited(
            views,
            index as int,
        ));
    }
    names
}

} // verus!
