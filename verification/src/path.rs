//! Paths as texts: the components, prefixes and joins of Unix paths, and what is
//! needed of those of Windows.

use crate::text;
use crate::text::{begins_with_char, chars_of, same_text, split_text, text_of};
use vstd::prelude::*;

verus! {

/// One step of a path.
#[derive(Clone, Debug, PartialEq, Eq)]
pub enum PathComponent {
    /// The leading `/` of an absolute path.
    RootDir,
    /// A leading `.` of a relative path.
    CurDir,
    /// A `..`.
    ParentDir,
    /// A name.
    Normal(String),
}

/// The mathematical value of a [`PathComponent`].
pub enum ComponentView {
    RootDir,
    CurDir,
    ParentDir,
    Normal(Seq<char>),
}

impl View for PathComponent {
    type V = ComponentView;

    open spec fn view(&self) -> ComponentView {
        match self {
            PathComponent::RootDir => ComponentView::RootDir,
            PathComponent::CurDir => ComponentView::CurDir,
            PathComponent::ParentDir => ComponentView::ParentDir,
            PathComponent::Normal(name) => ComponentView::Normal(name@),
        }
    }
}

/// The values of a sequence of components.
pub open spec fn component_views(components: Seq<PathComponent>) -> Seq<ComponentView> {
    components.map_values(|component: PathComponent| component@)
}

/// Whether a path starts at the filesystem root.
pub open spec fn is_absolute(path: Seq<char>) -> bool {
    text::begins_with(path, '/')
}

/// What the piece at `index` between two slashes contributes: nothing for an
/// empty piece, and nothing for a `.` that does not lead a relative path.
pub open spec fn piece_component(piece: Seq<char>, leads_relative_path: bool) -> Option<
    ComponentView,
> {
    if piece.len() == 0 {
        None
    } else if piece == "."@ {
        if leads_relative_path {
            Some(ComponentView::CurDir)
        } else {
            None
        }
    } else if piece == ".."@ {
        Some(ComponentView::ParentDir)
    } else {
        Some(ComponentView::Normal(piece))
    }
}

/// The components contributed by the first `count` pieces of a path.
pub open spec fn piece_components(
    pieces: Seq<Seq<char>>,
    absolute: bool,
    count: nat,
) -> Seq<ComponentView>
    decreases count,
{
    if count == 0 {
        Seq::empty()
    } else {
        let earlier = piece_components(pieces, absolute, (count - 1) as nat);
        match piece_component(pieces[count - 1], !absolute && count == 1) {
            Some(component) => earlier.push(component),
            None => earlier,
        }
    }
}

/// The components of a path.
pub open spec fn components(path: Seq<char>) -> Seq<ComponentView> {
    let pieces = text::split(path, '/');
    let body = piece_components(pieces, is_absolute(path), pieces.len());
    if is_absolute(path) {
        seq![ComponentView::RootDir] + body
    } else {
        body
    }
}

/// Executable form of [`is_absolute`].
pub fn path_is_absolute(path: &str) -> (result: bool)
    ensures
        result == is_absolute(path@),
{
    begins_with_char(path, '/')
}

/// Executable form of [`components`].
pub fn path_components(path: &str) -> (result: Vec<PathComponent>)
    ensures
        component_views(result@) == components(path@),
{
    let absolute = path_is_absolute(path);
    let mut result: Vec<PathComponent> = Vec::new();
    if absolute {
        result.push(PathComponent::RootDir);
    }
    let ghost lead = component_views(result@);
    assert(lead == if absolute {
        seq![ComponentView::RootDir]
    } else {
        Seq::empty()
    });
    let pieces = split_text(path, '/');
    let ghost views = text::texts(pieces@);
    let mut index: usize = 0;
    assert(lead + piece_components(views, absolute, 0) == lead);
    while index < pieces.len()
        invariant
            index <= pieces@.len(),
            views == text::texts(pieces@),
            component_views(result@) == lead + piece_components(views, absolute, index as nat),
        decreases pieces@.len() - index,
    {
        let piece = pieces[index].as_str();
        assert(views[index as int] == piece@);
        let ghost earlier = result@;
        let ghost earlier_views = piece_components(views, absolute, index as nat);
        if piece.is_empty() {
        } else if same_text(piece, ".") {
            if !absolute && index == 0 {
                result.push(PathComponent::CurDir);
                assert(component_views(result@) == component_views(earlier).push(
                    ComponentView::CurDir,
                ));
            }
        } else if same_text(piece, "..") {
            result.push(PathComponent::ParentDir);
            assert(component_views(result@) == component_views(earlier).push(
                ComponentView::ParentDir,
            ));
        } else {
            let name = piece.to_owned();
            result.push(PathComponent::Normal(name));
            assert(component_views(result@) == component_views(earlier).push(
                ComponentView::Normal(piece@),
            ));
        }
        index += 1;
        assert(component_views(result@) == lead + piece_components(views, absolute, index as nat));
    }
    result
}

/// Whether two components are equal.
pub fn same_component(left: &PathComponent, right: &PathComponent) -> (equal: bool)
    ensures
        equal == (left@ == right@),
{
    match (left, right) {
        (PathComponent::RootDir, PathComponent::RootDir) => true,
        (PathComponent::CurDir, PathComponent::CurDir) => true,
        (PathComponent::ParentDir, PathComponent::ParentDir) => true,
        (PathComponent::Normal(a), PathComponent::Normal(b)) => same_text(a.as_str(), b.as_str()),
        _ => false,
    }
}

fn same_components(left: &Vec<PathComponent>, right: &Vec<PathComponent>) -> (result: bool)
    ensures
        result == (component_views(left@) == component_views(right@)),
{
    assert(component_views(left@).len() == left@.len());
    assert(component_views(right@).len() == right@.len());
    if left.len() != right.len() {
        return false;
    }
    let result = is_component_prefix(left, right);
    assert(component_views(right@).subrange(0, right@.len() as int) == component_views(right@));
    result
}

/// Whether two paths have the same components.
pub fn same_path(left: &str, right: &str) -> (result: bool)
    ensures
        result == (components(left@) == components(right@)),
{
    let left_parts = path_components(left);
    let right_parts = path_components(right);
    same_components(&left_parts, &right_parts)
}

/// Whether `path` lies at or below `base`.
pub open spec fn is_within(path: Seq<char>, base: Seq<char>) -> bool {
    components(base).is_prefix_of(components(path))
}

fn is_component_prefix(prefix: &Vec<PathComponent>, whole: &Vec<PathComponent>) -> (result: bool)
    ensures
        result == component_views(prefix@).is_prefix_of(component_views(whole@)),
{
    if prefix.len() > whole.len() {
        return false;
    }
    let ghost head = component_views(whole@).subrange(0, prefix@.len() as int);
    let mut index: usize = 0;
    while index < prefix.len()
        invariant
            index <= prefix@.len() <= whole@.len(),
            head == component_views(whole@).subrange(0, prefix@.len() as int),
            forall|i: int| 0 <= i < index ==> prefix@[i]@ == whole@[i]@,
        decreases prefix@.len() - index,
    {
        if !same_component(&prefix[index], &whole[index]) {
            assert(component_views(prefix@)[index as int] != head[index as int]);
            return false;
        }
        index += 1;
    }
    assert(component_views(prefix@) =~= head);
    true
}

/// Executable form of [`is_within`].
pub fn path_is_within(path: &str, base: &str) -> (result: bool)
    ensures
        result == is_within(path@, base@),
{
    let inner = path_components(path);
    let outer = path_components(base);
    is_component_prefix(&outer, &inner)
}

/// The components of `path` below `base`.
pub open spec fn components_below(path: Seq<char>, base: Seq<char>) -> Option<Seq<ComponentView>> {
    if is_within(path, base) {
        Some(components(path).skip(components(base).len() as int))
    } else {
        None
    }
}

/// The components of `parts` below those of `base`.
pub fn strip_components(parts: &Vec<PathComponent>, base: &str) -> (result: Option<
    Vec<PathComponent>,
>)
    ensures
        match result {
            Some(rest) => components(base@).is_prefix_of(component_views(parts@))
                && component_views(rest@) == component_views(parts@).skip(
                components(base@).len() as int,
            ),
            None => !components(base@).is_prefix_of(component_views(parts@)),
        },
{
    let outer = path_components(base);
    if !is_component_prefix(&outer, parts) {
        return None;
    }
    let mut rest: Vec<PathComponent> = Vec::new();
    let mut index: usize = outer.len();
    assert(outer@.len() == component_views(outer@).len());
    assert(parts@.len() == component_views(parts@).len());
    while index < parts.len()
        invariant
            outer@.len() <= index <= parts@.len(),
            component_views(rest@) == component_views(parts@).subrange(
                outer@.len() as int,
                index as int,
            ),
        decreases parts@.len() - index,
    {
        let copy = copy_component(&parts[index]);
        let ghost earlier = rest@;
        rest.push(copy);
        assert(component_views(rest@) == component_views(earlier).push(copy@));
        index += 1;
    }
    assert(component_views(rest@) == component_views(parts@).skip(components(base@).len() as int));
    Some(rest)
}

/// Executable form of [`components_below`].
pub fn path_components_below(path: &str, base: &str) -> (result: Option<Vec<PathComponent>>)
    ensures
        match result {
            Some(rest) => components_below(path@, base@) == Some(component_views(rest@)),
            None => components_below(path@, base@) is None,
        },
{
    let inner = path_components(path);
    strip_components(&inner, base)
}

/// A copy of a component.
pub fn copy_component(component: &PathComponent) -> (copy: PathComponent)
    ensures
        copy@ == component@,
{
    match component {
        PathComponent::RootDir => PathComponent::RootDir,
        PathComponent::CurDir => PathComponent::CurDir,
        PathComponent::ParentDir => PathComponent::ParentDir,
        PathComponent::Normal(name) => PathComponent::Normal(name.as_str().to_owned()),
    }
}

/// `tail` resolved against `base`: an absolute `tail` replaces it, any other is
/// appended behind one slash.
pub open spec fn joined(base: Seq<char>, tail: Seq<char>) -> Seq<char> {
    if is_absolute(tail) {
        tail
    } else if base.len() == 0 || base.last() == '/' {
        base + tail
    } else {
        base.push('/') + tail
    }
}

/// Executable form of [`joined`].
pub fn join_path(base: &str, tail: &str) -> (path: String)
    ensures
        path@ == joined(base@, tail@),
{
    if path_is_absolute(tail) {
        return tail.to_owned();
    }
    let chars = chars_of(base);
    let mut path = base.to_owned();
    if chars.len() > 0 && chars[chars.len() - 1] != '/' {
        path.push('/');
    }
    path.push_str(tail);
    path
}

/// The last name of a path, where it ends in one.
pub open spec fn file_name(path: Seq<char>) -> Option<Seq<char>> {
    let parts = components(path);
    if parts.len() > 0 {
        match parts.last() {
            ComponentView::Normal(name) => Some(name),
            _ => None,
        }
    } else {
        None
    }
}

/// Executable form of [`file_name`].
pub fn path_file_name(path: &str) -> (result: Option<String>)
    ensures
        match result {
            Some(name) => file_name(path@) == Some(name@),
            None => file_name(path@) is None,
        },
{
    let parts = path_components(path);
    assert(parts@.len() == component_views(parts@).len());
    if parts.len() == 0 {
        return None;
    }
    assert(component_views(parts@).last() == parts@.last()@);
    match &parts[parts.len() - 1] {
        PathComponent::Normal(name) => Some(name.as_str().to_owned()),
        _ => None,
    }
}

/// The length of the shortest beginning of a path, from the length `at` on, that
/// has these components.
pub open spec fn beginning_len(path: Seq<char>, parts: Seq<ComponentView>, at: int) -> int
    decreases path.len() - at,
{
    if at < 0 || at >= path.len() || components(path.take(at)) == parts {
        at
    } else {
        beginning_len(path, parts, at + 1)
    }
}

/// The path of the directory that holds the last step of a path, where it has
/// one: the shortest beginning of the path with all steps but that one.
pub open spec fn parent(path: Seq<char>) -> Option<Seq<char>> {
    let parts = components(path);
    if parts.len() == 0 || parts.last() is RootDir {
        None
    } else {
        Some(path.take(beginning_len(path, parts.drop_last(), 0)))
    }
}

/// Executable form of [`parent`].
pub fn path_parent(path: &str) -> (result: Option<String>)
    ensures
        match result {
            Some(found) => parent(path@) == Some(found@),
            None => parent(path@) is None,
        },
{
    let mut parts = path_components(path);
    let ghost views = component_views(parts@);
    assert(views.len() == parts@.len());
    match parts.pop() {
        None => {
            return None;
        },
        Some(last) => {
            assert(views.last() == last@);
            if let PathComponent::RootDir = last {
                return None;
            }
        },
    }
    let ghost wanted = views.drop_last();
    assert(component_views(parts@) =~= wanted);
    let chars = chars_of(path);
    let mut found = String::new();
    let mut length: usize = 0;
    assert(found@ =~= path@.take(0));
    while length < chars.len()
        invariant
            length <= chars@.len(),
            chars@ == path@,
            found@ == path@.take(length as int),
            component_views(parts@) == wanted,
            parent(path@) == Some(path@.take(beginning_len(path@, wanted, length as int))),
        decreases chars@.len() - length,
    {
        let beginning = path_components(found.as_str());
        if same_components(&beginning, &parts) {
            return Some(found);
        }
        found.push(chars[length]);
        length += 1;
        assert(found@ =~= path@.take(length as int));
    }
    Some(found)
}

/// Whether a character separates the steps of a Windows path.
pub open spec fn is_windows_separator(character: char) -> bool {
    character == '\\' || character == '/'
}

/// Whether a character names a drive.
pub open spec fn is_drive_letter(character: char) -> bool {
    'a' <= character <= 'z' || 'A' <= character <= 'Z'
}

/// The place of the first separator of a Windows path from `at` on, or its end.
pub open spec fn windows_step_end(path: Seq<char>, at: int) -> int
    decreases path.len() - at,
{
    if at < 0 || at >= path.len() || is_windows_separator(path[at]) {
        at
    } else {
        windows_step_end(path, at + 1)
    }
}

/// Whether a Windows path begins with `\\?\`, so that it is taken as it is.
pub open spec fn is_verbatim(path: Seq<char>) -> bool {
    path.len() >= 4 && path[0] == '\\' && path[1] == '\\' && path[2] == '?' && path[3] == '\\'
}

/// How long the prefix of a Windows path is: a drive such as `C:`, or a server
/// and its share or a device behind two separators.
pub open spec fn windows_prefix_len(path: Seq<char>) -> int {
    if path.len() >= 2 && is_drive_letter(path[0]) && path[1] == ':' {
        2
    } else if path.len() >= 2 && is_windows_separator(path[0]) && is_windows_separator(path[1]) {
        let server = windows_step_end(path, 2);
        let share = windows_step_end(path, server + 1);
        if server <= 2 || server >= path.len() {
            0
        } else if share > server + 1 || is_verbatim(path) || server == 3 && path[2] == '.' {
            share
        } else {
            0
        }
    } else {
        0
    }
}

/// Whether a Windows path has a prefix and starts at its root.
pub open spec fn windows_is_absolute(path: Seq<char>) -> bool {
    let prefix = windows_prefix_len(path);
    prefix > 2 || prefix == 2 && path.len() > 2 && is_windows_separator(path[2])
}

/// A Windows path `tail` resolved against `base`: one with a prefix replaces it,
/// one that starts at the root replaces all but its prefix, any other is
/// appended behind one separator.
pub open spec fn windows_joined(base: Seq<char>, tail: Seq<char>) -> Seq<char> {
    if windows_prefix_len(tail) > 0 {
        tail
    } else if tail.len() > 0 && is_windows_separator(tail[0]) {
        base.take(windows_prefix_len(base)) + tail
    } else if base.len() == 0 || is_windows_separator(base.last()) || base.len() == 2
        && windows_prefix_len(base) == 2 {
        base + tail
    } else {
        base.push('\\') + tail
    }
}

/// A text with `/` for each separator of a Windows path.
pub open spec fn with_slashes(path: Seq<char>) -> Seq<char> {
    path.map_values(
        |character: char|
            if is_windows_separator(character) {
                '/'
            } else {
                character
            },
    )
}

/// The directory that holds the last step of a Windows path behind its prefix,
/// where it has one.
pub open spec fn windows_parent(path: Seq<char>) -> Option<Seq<char>> {
    let prefix = windows_prefix_len(path);
    match parent(with_slashes(path.skip(prefix))) {
        Some(found) => Some(path.take(prefix + found.len())),
        None => None,
    }
}

fn is_separator(character: char) -> (result: bool)
    ensures
        result == is_windows_separator(character),
{
    character == '\\' || character == '/'
}

fn is_drive(character: char) -> (result: bool)
    ensures
        result == is_drive_letter(character),
{
    'a' <= character && character <= 'z' || 'A' <= character && character <= 'Z'
}

fn step_end(path: &Vec<char>, from: usize) -> (end: usize)
    requires
        from <= path@.len(),
    ensures
        end == windows_step_end(path@, from as int),
        from <= end <= path@.len(),
{
    let mut end: usize = from;
    while end < path.len() && !is_separator(path[end])
        invariant
            from <= end <= path@.len(),
            windows_step_end(path@, from as int) == windows_step_end(path@, end as int),
        decreases path@.len() - end,
    {
        end += 1;
    }
    end
}

fn prefix_len(path: &Vec<char>) -> (length: usize)
    ensures
        length == windows_prefix_len(path@),
        length <= path@.len(),
{
    let length: usize = path.len();
    if length < 2 {
        return 0;
    }
    if is_drive(path[0]) && path[1] == ':' {
        return 2;
    }
    if !is_separator(path[0]) || !is_separator(path[1]) {
        return 0;
    }
    let server: usize = step_end(path, 2);
    if server <= 2 || server >= length {
        return 0;
    }
    let share: usize = step_end(path, server + 1);
    let verbatim = path[0] == '\\' && path[1] == '\\' && path[2] == '?' && path[3] == '\\';
    if share > server + 1 || verbatim || server == 3 && path[2] == '.' {
        share
    } else {
        0
    }
}

/// Executable form of [`windows_is_absolute`].
pub fn windows_path_is_absolute(path: &str) -> (result: bool)
    ensures
        result == windows_is_absolute(path@),
{
    let chars = chars_of(path);
    let prefix: usize = prefix_len(&chars);
    prefix > 2 || prefix == 2 && chars.len() > 2 && is_separator(chars[2])
}

/// Executable form of [`windows_joined`].
pub fn windows_join_path(base: &str, tail: &str) -> (path: String)
    ensures
        path@ == windows_joined(base@, tail@),
{
    let head = chars_of(base);
    let rest = chars_of(tail);
    if prefix_len(&rest) > 0 {
        return tail.to_owned();
    }
    let prefix: usize = prefix_len(&head);
    if rest.len() > 0 && is_separator(rest[0]) {
        let mut path = text_of(&head, 0, prefix);
        assert(path@ =~= base@.take(prefix as int));
        path.push_str(tail);
        return path;
    }
    let length: usize = head.len();
    let mut path = base.to_owned();
    if length > 0 && !is_separator(head[length - 1]) && !(length == 2 && prefix == 2) {
        path.push('\\');
    }
    path.push_str(tail);
    path
}

/// Executable form of [`windows_parent`].
pub fn windows_path_parent(path: &str) -> (result: Option<String>)
    ensures
        match result {
            Some(found) => windows_parent(path@) == Some(found@),
            None => windows_parent(path@) is None,
        },
{
    let chars = chars_of(path);
    let prefix: usize = prefix_len(&chars);
    let ghost body = path@.skip(prefix as int);
    let mut slashed = String::new();
    let mut index: usize = prefix;
    assert(slashed@ =~= with_slashes(body).take(0));
    while index < chars.len()
        invariant
            prefix <= index <= chars@.len(),
            chars@ == path@,
            body == path@.skip(prefix as int),
            slashed@ == with_slashes(body).take(index - prefix),
        decreases chars@.len() - index,
    {
        let character = chars[index];
        slashed.push(
            if is_separator(character) {
                '/'
            } else {
                character
            },
        );
        index += 1;
        assert(slashed@ =~= with_slashes(body).take(index - prefix));
    }
    assert(slashed@ =~= with_slashes(body));
    match path_parent(slashed.as_str()) {
        None => None,
        Some(found) => {
            proof {
                lemma_beginning_len(slashed@, components(slashed@).drop_last(), 0);
            }
            let end: usize = prefix + chars_of(found.as_str()).len();
            let kept = text_of(&chars, 0, end);
            assert(kept@ =~= path@.take(end as int));
            Some(kept)
        },
    }
}

proof fn lemma_beginning_len(path: Seq<char>, parts: Seq<ComponentView>, at: int)
    requires
        0 <= at <= path.len(),
    ensures
        at <= beginning_len(path, parts, at) <= path.len(),
    decreases path.len() - at,
{
    if at < path.len() && components(path.take(at)) != parts {
        lemma_beginning_len(path, parts, at + 1);
    }
}

/// Whether a path steps to a parent directory anywhere.
pub open spec fn has_parent_step(path: Seq<char>) -> bool {
    components(path).contains(ComponentView::ParentDir)
}

/// Executable form of [`has_parent_step`].
pub fn path_has_parent_step(path: &str) -> (result: bool)
    ensures
        result == has_parent_step(path@),
{
    let parts = path_components(path);
    let mut index: usize = 0;
    while index < parts.len()
        invariant
            index <= parts@.len(),
            component_views(parts@) == components(path@),
            forall|i: int| 0 <= i < index ==> components(path@)[i] != ComponentView::ParentDir,
        decreases parts@.len() - index,
    {
        assert(component_views(parts@)[index as int] == parts@[index as int]@);
        if let PathComponent::ParentDir = &parts[index] {
            assert(components(path@)[index as int] == ComponentView::ParentDir);
            return true;
        }
        index += 1;
    }
    assert(parts@.len() == components(path@).len());
    false
}

/// One more step of a lexical walk: `.` stays, `..` takes the last name away
/// where there is one, anything else is entered.
pub open spec fn normal_step(walked: Seq<ComponentView>, step: ComponentView) -> Seq<
    ComponentView,
> {
    match step {
        ComponentView::CurDir => walked,
        ComponentView::ParentDir => if walked.len() > 0 && walked.last() is Normal {
            walked.drop_last()
        } else {
            walked
        },
        _ => walked.push(step),
    }
}

/// Where the first `count` steps of a path lead lexically.
pub open spec fn normal_components(parts: Seq<ComponentView>, count: int) -> Seq<ComponentView>
    decreases count,
{
    if count <= 0 {
        Seq::empty()
    } else {
        normal_step(normal_components(parts, count - 1), parts[count - 1])
    }
}

/// The components of a path without its `.` and `..` steps.
pub open spec fn normalized(path: Seq<char>) -> Seq<ComponentView> {
    normal_components(components(path), components(path).len() as int)
}

/// Executable form of [`normalized`].
pub fn normalize_components(path: &str) -> (result: Vec<PathComponent>)
    ensures
        component_views(result@) == normalized(path@),
{
    let parts = path_components(path);
    let ghost views = component_views(parts@);
    let mut result: Vec<PathComponent> = Vec::new();
    assert(component_views(result@) == Seq::<ComponentView>::empty());
    let mut index: usize = 0;
    while index < parts.len()
        invariant
            index <= parts@.len(),
            views == component_views(parts@),
            views == components(path@),
            component_views(result@) == normal_components(views, index as int),
        decreases parts@.len() - index,
    {
        assert(views[index as int] == parts@[index as int]@);
        let ghost earlier = result@;
        match &parts[index] {
            PathComponent::CurDir => {},
            PathComponent::ParentDir => {
                let length: usize = result.len();
                if length > 0 {
                    assert(component_views(earlier).last() == earlier.last()@);
                    let ends_in_name = match &result[length - 1] {
                        PathComponent::Normal(_) => true,
                        _ => false,
                    };
                    if ends_in_name {
                        let _ = result.pop();
                        assert(component_views(result@) == component_views(earlier).drop_last());
                    }
                }
            },
            PathComponent::RootDir => {
                result.push(PathComponent::RootDir);
                assert(component_views(result@) == component_views(earlier).push(
                    ComponentView::RootDir,
                ));
            },
            PathComponent::Normal(name) => {
                let copy = PathComponent::Normal(name.as_str().to_owned());
                result.push(copy);
                assert(component_views(result@) == component_views(earlier).push(copy@));
            },
        }
        index += 1;
    }
    assert(views.len() == parts@.len());
    result
}

/// What a component is written as.
pub open spec fn component_text(component: ComponentView) -> Seq<char> {
    match component {
        ComponentView::RootDir => "/"@,
        ComponentView::CurDir => "."@,
        ComponentView::ParentDir => ".."@,
        ComponentView::Normal(name) => name,
    }
}

/// The path made of the first `count` components, joined one after another.
pub open spec fn rendered_to(parts: Seq<ComponentView>, count: int) -> Seq<char>
    decreases count,
{
    if count <= 0 {
        Seq::empty()
    } else {
        joined(rendered_to(parts, count - 1), component_text(parts[count - 1]))
    }
}

/// The path made of components.
pub open spec fn rendered(parts: Seq<ComponentView>) -> Seq<char> {
    rendered_to(parts, parts.len() as int)
}

/// Executable form of [`rendered`].
pub fn render_components(parts: &Vec<PathComponent>) -> (path: String)
    ensures
        path@ == rendered(component_views(parts@)),
{
    let ghost views = component_views(parts@);
    let mut path = String::new();
    let mut index: usize = 0;
    while index < parts.len()
        invariant
            index <= parts@.len(),
            views == component_views(parts@),
            path@ == rendered_to(views, index as int),
        decreases parts@.len() - index,
    {
        assert(views[index as int] == parts@[index as int]@);
        path = match &parts[index] {
            PathComponent::RootDir => join_path(path.as_str(), "/"),
            PathComponent::CurDir => join_path(path.as_str(), "."),
            PathComponent::ParentDir => join_path(path.as_str(), ".."),
            PathComponent::Normal(name) => join_path(path.as_str(), name.as_str()),
        };
        index += 1;
    }
    assert(views.len() == parts@.len());
    path
}

/// A path without its `.` and `..` steps.
pub fn normalize_path(path: &str) -> (result: String)
    ensures
        result@ == rendered(normalized(path@)),
{
    let parts = normalize_components(path);
    render_components(&parts)
}

proof fn lemma_normal_components(parts: Seq<ComponentView>, count: int)
    requires
        count <= parts.len(),
    ensures
        forall|i: int|
            0 <= i < normal_components(parts, count).len() ==> {
                let part = #[trigger] normal_components(parts, count)[i];
                part is RootDir || part is Normal
            },
    decreases count,
{
    if count > 0 {
        lemma_normal_components(parts, count - 1);
    }
}

/// A normalized path has neither a `.` nor a `..` step left.
pub proof fn law_normalized_paths_have_no_steps(path: Seq<char>)
    ensures
        forall|i: int|
            0 <= i < normalized(path).len() ==> {
                let part = #[trigger] normalized(path)[i];
                part is RootDir || part is Normal
            },
{
    lemma_normal_components(components(path), components(path).len() as int);
}

} // verus!
