//! What all tools share: their arguments, and bounded texts in their outputs.

use crate::text::{chars_of, concat3, same_text, text_of};
use crate::tool::{no_fields, OutputView, ToolError, ToolErrorView, ToolOutput};
use crate::workspace::WorkspacePathError;
use vstd::prelude::*;

verus! {

/// The most that a tool reads or captures, in bytes.
pub const MAX_OUTPUT_BYTES: usize = 65536;

/// The most that the content of an output takes when it is serialized.
pub const MAX_TOOL_CONTENT_SERIALIZED_BYTES: usize = 49152;

/// The most that an error message takes when it is serialized.
pub const MAX_ERROR_MESSAGE_SERIALIZED_BYTES: usize = 8192;

/// The most that a text in the metadata of an output takes when it is
/// serialized.
pub const MAX_METADATA_TEXT_SERIALIZED_BYTES: usize = 2048;

/// The length of a character in UTF-8.
pub open spec fn utf8_len(character: char) -> nat {
    vstd::utf8::encode_scalar(character as u32).len()
}

/// The length of a character inside a JSON string.
pub open spec fn json_char_len(character: char) -> nat {
    if character == '"' || character == '\\' || character == '\u{8}' || character == '\t'
        || character == '\n' || character == '\u{c}' || character == '\r' {
        2
    } else if character <= '\u{1f}' {
        6
    } else {
        utf8_len(character)
    }
}

/// A character takes between one byte and six inside a JSON string.
pub proof fn lemma_char_len(character: char)
    ensures
        1 <= json_char_len(character) <= 6,
{
}

/// The length of the first `count` characters inside a JSON string.
pub open spec fn json_chars_len(text: Seq<char>, count: int) -> nat
    decreases count,
{
    if count <= 0 {
        0
    } else {
        json_chars_len(text, count - 1) + json_char_len(text[count - 1])
    }
}

/// The length of a text as a JSON string, with its quotes.
pub open spec fn json_string_len(text: Seq<char>) -> nat {
    2 + json_chars_len(text, text.len() as int)
}

fn char_utf8_len(character: char) -> (length: usize)
    ensures
        length == utf8_len(character),
        1 <= length <= 4,
{
    let value = character as u32;
    if value <= 0x7f {
        1
    } else if value <= 0x7ff {
        2
    } else if value <= 0xffff {
        3
    } else {
        4
    }
}

pub(crate) fn char_json_len(character: char) -> (length: usize)
    ensures
        length == json_char_len(character),
        1 <= length <= 6,
{
    if character == '"' || character == '\\' || character == '\u{8}' || character == '\t'
        || character == '\n' || character == '\u{c}' || character == '\r' {
        2
    } else if character <= '\u{1f}' {
        6
    } else {
        char_utf8_len(character)
    }
}

/// How many characters of `text` fit into a JSON string of `limit` bytes, the
/// first `at` of them being known to.
pub open spec fn json_cut(text: Seq<char>, limit: nat, at: int) -> int
    decreases text.len() - at,
{
    if at < 0 || at >= text.len() {
        text.len() as int
    } else if 2 + json_chars_len(text, at + 1) > limit {
        at
    } else {
        json_cut(text, limit, at + 1)
    }
}

/// The longest prefix of `text` that fits into a JSON string of `limit` bytes.
pub open spec fn json_prefix(text: Seq<char>, limit: nat) -> Seq<char> {
    text.take(json_cut(text, limit, 0))
}

/// Whether something of `text` does not fit into a JSON string of `limit` bytes.
pub open spec fn is_cut(text: Seq<char>, limit: nat) -> bool {
    json_cut(text, limit, 0) < text.len()
}

proof fn lemma_json_cut(text: Seq<char>, limit: nat, at: int)
    requires
        0 <= at <= text.len(),
        2 + json_chars_len(text, at) <= limit,
    ensures
        at <= json_cut(text, limit, at) <= text.len(),
        2 + json_chars_len(text, json_cut(text, limit, at)) <= limit,
        json_cut(text, limit, at) < text.len() ==> 2 + json_chars_len(
            text,
            json_cut(text, limit, at) + 1,
        ) > limit,
    decreases text.len() - at,
{
    if at < text.len() && 2 + json_chars_len(text, at + 1) <= limit {
        lemma_json_cut(text, limit, at + 1);
    }
}

proof fn lemma_json_chars_len_of_prefix(text: Seq<char>, cut: int, count: int)
    requires
        count <= cut <= text.len(),
    ensures
        json_chars_len(text.take(cut), count) == json_chars_len(text, count),
    decreases count,
{
    if count > 0 {
        lemma_json_chars_len_of_prefix(text, cut, count - 1);
    }
}

/// A text cut to a limit fits it as a JSON string, and one more of its
/// characters would not.
pub proof fn law_cut_texts_fit_their_limit(text: Seq<char>, limit: nat)
    requires
        limit >= 2,
    ensures
        json_prefix(text, limit).is_prefix_of(text),
        json_string_len(json_prefix(text, limit)) <= limit,
        json_prefix(text, limit).len() < text.len() ==> json_string_len(
            text.take(json_prefix(text, limit).len() as int + 1),
        ) > limit,
        json_string_len(text) <= limit ==> json_prefix(text, limit) == text,
        is_cut(text, limit) <==> json_prefix(text, limit) != text,
{
    lemma_json_cut(text, limit, 0);
    let cut = json_cut(text, limit, 0);
    lemma_json_chars_len_of_prefix(text, cut, cut);
    if cut < text.len() {
        lemma_json_chars_len_of_prefix(text, cut + 1, cut + 1);
        if json_string_len(text) <= limit {
            lemma_json_chars_len_grows(text, cut + 1, text.len() as int);
        }
    } else {
        assert(text.take(cut) == text);
    }
}

proof fn lemma_json_chars_len_grows(text: Seq<char>, shorter: int, longer: int)
    requires
        shorter <= longer,
    ensures
        json_chars_len(text, shorter) <= json_chars_len(text, longer),
    decreases longer - shorter,
{
    if shorter < longer {
        lemma_json_chars_len_grows(text, shorter, longer - 1);
    }
}

/// Inside a JSON string, two texts behind one another are as long as both.
pub proof fn lemma_json_chars_len_of_both(first: Seq<char>, second: Seq<char>, count: int)
    requires
        0 <= count <= second.len(),
    ensures
        json_chars_len(first + second, first.len() + count) == json_chars_len(
            first,
            first.len() as int,
        ) + json_chars_len(second, count),
    decreases count,
{
    if count > 0 {
        lemma_json_chars_len_of_both(first, second, count - 1);
    } else {
        lemma_json_chars_len_of_prefix(first + second, first.len() as int, first.len() as int);
        assert((first + second).take(first.len() as int) =~= first);
    }
}

/// Whether a character stands for itself, in one byte, inside a JSON string.
pub open spec fn is_plain(character: char) -> bool {
    ' ' <= character < '\u{7f}' && character != '"' && character != '\\'
}

/// Inside a JSON string, plain characters take one byte each.
pub proof fn lemma_plain_chars_len(text: Seq<char>, from: int, to: int)
    requires
        0 <= from <= to <= text.len(),
        forall|at: int| from <= at < to ==> is_plain(#[trigger] text[at]),
    ensures
        json_chars_len(text, to) == json_chars_len(text, from) + (to - from),
    decreases to - from,
{
    if from < to {
        lemma_plain_chars_len(text, from, to - 1);
        assert(is_plain(text[to - 1]));
    }
}

/// The longest prefix of `value` that fits into a JSON string of
/// `max_serialized_bytes`, and whether something was cut off.
pub fn truncate_json_string(value: &str, max_serialized_bytes: usize) -> (result: (String, bool))
    ensures
        result.0@ == json_prefix(value@, max_serialized_bytes as nat),
        result.1 == is_cut(value@, max_serialized_bytes as nat),
{
    let chars = chars_of(value);
    let mut serialized_bytes: usize = 2;
    let mut index: usize = 0;
    while index < chars.len()
        invariant
            index <= chars@.len(),
            chars@ == value@,
            serialized_bytes == 2 + json_chars_len(value@, index as int),
            index > 0 ==> serialized_bytes <= max_serialized_bytes,
            json_cut(value@, max_serialized_bytes as nat, 0) == json_cut(
                value@,
                max_serialized_bytes as nat,
                index as int,
            ),
        decreases chars@.len() - index,
    {
        let width: usize = char_json_len(chars[index]);
        if serialized_bytes > max_serialized_bytes || max_serialized_bytes - serialized_bytes
            < width {
            let kept = text_of(&chars, 0, index);
            assert(kept@ == value@.take(index as int));
            return (kept, true);
        }
        serialized_bytes = serialized_bytes + width;
        index += 1;
    }
    assert(value@.take(value@.len() as int) == value@);
    (value.to_owned(), false)
}

/// How many characters of `text` fit into `limit` bytes of UTF-8, the first
/// `at` of them being known to.
pub open spec fn utf8_cut(text: Seq<char>, limit: nat, at: int) -> int
    decreases text.len() - at,
{
    if at < 0 || at >= text.len() {
        text.len() as int
    } else if vstd::utf8::encode_utf8(text.take(at + 1)).len() > limit {
        at
    } else {
        utf8_cut(text, limit, at + 1)
    }
}

proof fn lemma_encoded_len_of_push(text: Seq<char>, character: char)
    ensures
        vstd::utf8::encode_utf8(text.push(character)).len() == vstd::utf8::encode_utf8(text).len()
            + utf8_len(character),
    decreases text.len(),
{
    let longer = text.push(character);
    reveal_with_fuel(vstd::utf8::encode_utf8, 2);
    if text.len() == 0 {
        assert(longer.drop_first() == Seq::<char>::empty());
        assert(longer[0] == character);
    } else {
        lemma_encoded_len_of_push(text.drop_first(), character);
        assert(longer.drop_first() == text.drop_first().push(character));
        assert(longer[0] == text[0]);
    }
}

/// The longest prefix of `value` of at most `max_bytes` bytes.
pub fn truncate_utf8(value: &str, max_bytes: usize) -> (result: String)
    ensures
        result@ == value@.take(utf8_cut(value@, max_bytes as nat, 0)),
{
    let chars = chars_of(value);
    let mut used: usize = 0;
    let mut index: usize = 0;
    assert(value@.take(0) == Seq::<char>::empty());
    while index < chars.len()
        invariant
            index <= chars@.len(),
            chars@ == value@,
            used == vstd::utf8::encode_utf8(value@.take(index as int)).len(),
            used <= max_bytes,
            utf8_cut(value@, max_bytes as nat, 0) == utf8_cut(
                value@,
                max_bytes as nat,
                index as int,
            ),
        decreases chars@.len() - index,
    {
        let width: usize = char_utf8_len(chars[index]);
        proof {
            lemma_encoded_len_of_push(value@.take(index as int), value@[index as int]);
            assert(value@.take(index + 1) == value@.take(index as int).push(value@[index as int]));
        }
        if max_bytes - used < width {
            let kept = text_of(&chars, 0, index);
            assert(kept@ == value@.take(index as int));
            return kept;
        }
        used = used + width;
        index += 1;
    }
    assert(value@.take(value@.len() as int) == value@);
    value.to_owned()
}

/// A failure without extensions, its message cut to its limit.
pub open spec fn failure_view(code: Seq<char>, message: Seq<char>, retryable: bool) -> OutputView {
    OutputView::Failure {
        error: ToolErrorView {
            code,
            message: json_prefix(message, MAX_ERROR_MESSAGE_SERIALIZED_BYTES as nat),
            retryable,
        },
        extensions: Seq::empty(),
    }
}

/// A failed tool call.
pub fn failure(code: &str, message: &str, retryable: bool) -> (output: ToolOutput)
    ensures
        output@ == failure_view(code@, message@, retryable),
{
    let (message, _) = truncate_json_string(message, MAX_ERROR_MESSAGE_SERIALIZED_BYTES);
    ToolOutput::Failure {
        error: ToolError { code: code.to_owned(), message, retryable },
        extensions: no_fields(),
    }
}

/// The failure that reports a path that cannot be used.
pub fn workspace_path_failure(error: &WorkspacePathError) -> (output: ToolOutput)
    ensures
        output@ == failure_view(error@.code(), error@.message(), error@.retryable()),
{
    failure(error.code(), error.message().as_str(), error.retryable())
}

/// A path as it is shown, `.` for an empty one.
pub open spec fn displayed_path(path: Seq<char>) -> Seq<char> {
    if path.len() == 0 {
        "."@
    } else {
        path
    }
}

/// Executable form of [`displayed_path`].
pub fn display_relative_path(path: &str) -> (shown: String)
    ensures
        shown@ == displayed_path(path@),
{
    if path.is_empty() {
        ".".to_owned()
    } else {
        path.to_owned()
    }
}

/// The members of a JSON object: the name of each, and its text where its value
/// is a string.
pub type Members = Vec<(String, Option<String>)>;

/// The views of the members of an object.
pub open spec fn member_views(members: Seq<(String, Option<String>)>) -> Seq<
    (Seq<char>, Option<Seq<char>>),
> {
    members.map_values(
        |member: (String, Option<String>)|
            (
                member.0@,
                match member.1 {
                    Some(text) => Some(text@),
                    None => None,
                },
            ),
    )
}

/// The members of the object that a JSON text holds; none where it holds
/// something else.
pub uninterp spec fn json_object_members(json: Seq<char>) -> Option<
    Seq<(Seq<char>, Option<Seq<char>>)>,
>;

/// Reads a JSON text with `serde_json::from_str` and hands out the members of
/// the object that it holds, each value that is a string by its text. What the
/// text holds is left to its name.
#[verifier::external_body]
pub(crate) fn object_members(json: &str) -> (members: Option<Members>)
    ensures
        match members {
            Some(found) => json_object_members(json@) == Some(member_views(found@)),
            None => json_object_members(json@) is None,
        },
{
    match serde_json::from_str::<serde_json::Value>(json) {
        Ok(serde_json::Value::Object(map)) => Some(
            map.into_iter().map(|(name, value)| (name, value.as_str().map(String::from))).collect(),
        ),
        Ok(_) => None,
        Err(_) => None,
    }
}

/// The arguments of a tool call.
pub struct ToolArguments {
    members: Members,
}

impl View for ToolArguments {
    type V = Seq<(Seq<char>, Option<Seq<char>>)>;

    closed spec fn view(&self) -> Seq<(Seq<char>, Option<Seq<char>>)> {
        member_views(self.members@)
    }
}

/// The first member at or after `at` whose name is not among `allowed`.
pub open spec fn unknown_member(
    members: Seq<(Seq<char>, Option<Seq<char>>)>,
    allowed: Seq<Seq<char>>,
    at: int,
) -> Option<Seq<char>>
    decreases members.len() - at,
{
    if at < 0 || at >= members.len() {
        None
    } else if !allowed.contains(members[at].0) {
        Some(members[at].0)
    } else {
        unknown_member(members, allowed, at + 1)
    }
}

/// The value of the member `name` at or after `at`: none where there is no such
/// member, and a text only where it is a string.
pub open spec fn member(
    members: Seq<(Seq<char>, Option<Seq<char>>)>,
    name: Seq<char>,
    at: int,
) -> Option<Option<Seq<char>>>
    decreases members.len() - at,
{
    if at < 0 || at >= members.len() {
        None
    } else if members[at].0 == name {
        Some(members[at].1)
    } else {
        member(members, name, at + 1)
    }
}

/// The views of some names.
pub open spec fn name_views(names: Seq<&str>) -> Seq<Seq<char>> {
    names.map_values(|name: &str| name@)
}

fn is_allowed(allowed: &[&str], name: &str) -> (result: bool)
    ensures
        result == name_views(allowed@).contains(name@),
{
    let ghost views = name_views(allowed@);
    let mut index: usize = 0;
    while index < allowed.len()
        invariant
            index <= allowed@.len(),
            views == name_views(allowed@),
            forall|i: int| 0 <= i < index ==> views[i] != name@,
        decreases allowed@.len() - index,
    {
        assert(views[index as int] == allowed@[index as int]@);
        if same_text(allowed[index], name) {
            return true;
        }
        index += 1;
    }
    assert(views.len() == allowed@.len());
    false
}

/// What refusing some members comes to.
pub open spec fn refused_arguments(
    members: Option<Seq<(Seq<char>, Option<Seq<char>>)>>,
    allowed: Seq<Seq<char>>,
) -> Option<OutputView> {
    match members {
        None => Some(
            failure_view("invalid_arguments"@, "tool arguments must be a JSON object"@, false),
        ),
        Some(found) => match unknown_member(found, allowed, 0) {
            Some(unknown) => Some(
                failure_view(
                    "invalid_arguments"@,
                    "unknown argument '"@ + unknown + "'"@,
                    false,
                ),
            ),
            None => None,
        },
    }
}

/// The text of a member that must be a string that is not empty.
pub open spec fn required_text(
    members: Seq<(Seq<char>, Option<Seq<char>>)>,
    name: Seq<char>,
) -> Result<Seq<char>, OutputView> {
    match member(members, name, 0) {
        Some(Some(value)) => if value.len() > 0 {
            Ok(value)
        } else {
            Err(missing_text(name, "' must be a non-empty string"@))
        },
        _ => Err(missing_text(name, "' must be a non-empty string"@)),
    }
}

/// The text of a member that must be a string that is not empty where it is
/// given.
pub open spec fn optional_text(
    members: Seq<(Seq<char>, Option<Seq<char>>)>,
    name: Seq<char>,
) -> Result<Option<Seq<char>>, OutputView> {
    match member(members, name, 0) {
        None => Ok(None),
        Some(Some(value)) => if value.len() > 0 {
            Ok(Some(value))
        } else {
            Err(missing_text(name, "' must be a non-empty string when provided"@))
        },
        Some(None) => Err(missing_text(name, "' must be a non-empty string when provided"@)),
    }
}

/// The failure that reports an argument.
pub open spec fn missing_text(name: Seq<char>, rule: Seq<char>) -> OutputView {
    failure_view("invalid_arguments"@, "argument '"@ + name + rule, false)
}

/// The view of optional members.
pub open spec fn optional_member_views(members: Option<Members>) -> Option<
    Seq<(Seq<char>, Option<Seq<char>>)>,
> {
    match members {
        Some(found) => Some(member_views(found@)),
        None => None,
    }
}

impl ToolArguments {
    /// The arguments of a call, read from their JSON text; they must be an
    /// object with none but the `allowed` members.
    pub fn parse(arguments: &str, allowed: &[&str]) -> (result: Result<ToolArguments, ToolOutput>)
        ensures
            match result {
                Ok(parsed) => json_object_members(arguments@) == Some(parsed@)
                    && refused_arguments(json_object_members(arguments@), name_views(allowed@)) is None,
                Err(output) => refused_arguments(
                    json_object_members(arguments@),
                    name_views(allowed@),
                ) == Some(output@),
            },
    {
        let members = object_members(arguments);
        ToolArguments::from_members(members, allowed)
    }

    /// The arguments of a call, given the members of the object that they are.
    pub fn from_members(members: Option<Members>, allowed: &[&str]) -> (result: Result<
        ToolArguments,
        ToolOutput,
    >)
        ensures
            match result {
                Ok(parsed) => optional_member_views(members) == Some(parsed@) && refused_arguments(
                    optional_member_views(members),
                    name_views(allowed@),
                ) is None,
                Err(output) => refused_arguments(
                    optional_member_views(members),
                    name_views(allowed@),
                ) == Some(output@),
            },
    {
        let found = match members {
            Some(found) => found,
            None => {
                return Err(
                    failure("invalid_arguments", "tool arguments must be a JSON object", false),
                );
            },
        };
        let ghost views = member_views(found@);
        let ghost names = name_views(allowed@);
        let mut index: usize = 0;
        while index < found.len()
            invariant
                index <= found@.len(),
                views == member_views(found@),
                optional_member_views(members) == Some(views),
                names == name_views(allowed@),
                unknown_member(views, names, 0) == unknown_member(views, names, index as int),
            decreases found@.len() - index,
        {
            let name = found[index].0.as_str();
            assert(views[index as int].0 == name@);
            if !is_allowed(allowed, name) {
                let message = concat3("unknown argument '", name, "'");
                return Err(failure("invalid_arguments", message.as_str(), false));
            }
            index += 1;
        }
        assert(views.len() == found@.len());
        Ok(ToolArguments { members: found })
    }

    /// The argument `name`, which must be a string that is not empty.
    pub fn required_string(&self, name: &str) -> (result: Result<String, ToolOutput>)
        ensures
            match result {
                Ok(value) => required_text(self@, name@) == Ok::<Seq<char>, OutputView>(value@),
                Err(output) => required_text(self@, name@) == Err::<Seq<char>, OutputView>(
                    output@,
                ),
            },
    {
        if let Some(Some(value)) = self.get(name) {
            if !value.as_str().is_empty() {
                return Ok(value);
            }
        }
        let message = concat3("argument '", name, "' must be a non-empty string");
        Err(failure("invalid_arguments", message.as_str(), false))
    }

    /// The argument `name`, which must be a string that is not empty where it is
    /// given.
    pub fn optional_string(&self, name: &str) -> (result: Result<Option<String>, ToolOutput>)
        ensures
            match result {
                Ok(Some(value)) => optional_text(self@, name@) == Ok::<
                    Option<Seq<char>>,
                    OutputView,
                >(Some(value@)),
                Ok(None) => optional_text(self@, name@) == Ok::<Option<Seq<char>>, OutputView>(
                    None,
                ),
                Err(output) => optional_text(self@, name@) == Err::<
                    Option<Seq<char>>,
                    OutputView,
                >(output@),
            },
    {
        match self.get(name) {
            None => {
                return Ok(None);
            },
            Some(Some(value)) => {
                if !value.as_str().is_empty() {
                    return Ok(Some(value));
                }
            },
            Some(None) => {},
        }
        let message = concat3("argument '", name, "' must be a non-empty string when provided");
        Err(failure("invalid_arguments", message.as_str(), false))
    }

    fn get(&self, name: &str) -> (value: Option<Option<String>>)
        ensures
            match value {
                Some(Some(text)) => member(self@, name@, 0) == Some(Some(text@)),
                Some(None) => member(self@, name@, 0) == Some(None::<Seq<char>>),
                None => member(self@, name@, 0) is None,
            },
    {
        find_member(&self.members, name)
    }
}

/// Executable form of [`member`].
pub fn find_member(members: &Members, name: &str) -> (value: Option<Option<String>>)
    ensures
        match value {
            Some(Some(text)) => member(member_views(members@), name@, 0) == Some(Some(text@)),
            Some(None) => member(member_views(members@), name@, 0) == Some(None::<Seq<char>>),
            None => member(member_views(members@), name@, 0) is None,
        },
{
    let ghost views = member_views(members@);
    let mut index: usize = 0;
    while index < members.len()
        invariant
            index <= members@.len(),
            views == member_views(members@),
            member(views, name@, 0) == member(views, name@, index as int),
        decreases members@.len() - index,
    {
        assert(views[index as int].0 == members@[index as int].0@);
        if same_text(members[index].0.as_str(), name) {
            return match &members[index].1 {
                Some(text) => Some(Some(text.as_str().to_owned())),
                None => Some(None),
            };
        }
        index += 1;
    }
    assert(views.len() == members@.len());
    None
}

} // verus!
