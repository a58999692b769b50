//! How long an output is as JSON, and how one that would be too long is made
//! shorter.

use crate::search_model;
use crate::text;
use crate::text::chars_of;
use crate::tool;
use crate::tool::{
    ContentView, Field, FieldValue, FieldValueView, MatchView, OutputView, SearchMatch, ToolContent,
    ToolOutput,
};
use crate::tool_support;
use crate::tool_support::{
    char_json_len, truncate_json_string, MAX_METADATA_TEXT_SERIALIZED_BYTES, MAX_OUTPUT_BYTES,
};
use crate::workspace::{
    GitMetadataView, GitWorktreeMetadata, WorkspaceMetadata, WorkspaceMetadataView,
};
use vstd::prelude::*;

verus! {

/// The length of items of these lengths between brackets, with their commas.
pub open spec fn listed_len(lengths: Seq<nat>) -> nat {
    if lengths.len() == 0 {
        2
    } else {
        1 + items_len(lengths, lengths.len() as int)
    }
}

/// The length of the first `count` items of these lengths, each with a comma.
pub open spec fn items_len(lengths: Seq<nat>, count: int) -> nat
    decreases count,
{
    if count <= 0 {
        0
    } else {
        items_len(lengths, count - 1) + lengths[count - 1] + 1
    }
}

/// The length of a member of an object.
pub open spec fn member_len(name: Seq<char>, value: nat) -> nat {
    tool_support::json_string_len(name) + 1 + value
}

/// The length of a flag.
pub open spec fn flag_len(flag: bool) -> nat {
    if flag {
        4
    } else {
        5
    }
}

/// The length of a number.
pub open spec fn number_len(number: int) -> nat {
    if number < 0 {
        1 + text::decimal_text((-number) as nat).len()
    } else {
        text::decimal_text(number as nat).len()
    }
}

/// The length of what is said of a Git worktree.
pub open spec fn git_len(git: GitMetadataView) -> nat {
    listed_len(
        seq![
            member_len("worktree_root"@, tool_support::json_string_len(git.worktree_root)),
            member_len("git_dir"@, tool_support::json_string_len(git.git_dir)),
            member_len("common_dir"@, tool_support::json_string_len(git.common_dir)),
            member_len("linked"@, flag_len(git.linked)),
        ],
    )
}

/// The length of what is said of a Git worktree, or of none.
pub open spec fn optional_git_len(git_worktree: Option<GitMetadataView>) -> nat {
    match git_worktree {
        Some(git) => git_len(git),
        None => 4,
    }
}

/// The length of what is said of a workspace.
#[verifier::opaque]
pub open spec fn workspace_len(workspace: WorkspaceMetadataView) -> nat {
    listed_len(
        seq![
            member_len("root"@, tool_support::json_string_len(workspace.root)),
            member_len(
                "git_worktree"@,
                optional_git_len(workspace.git_worktree),
            ),
        ],
    )
}

/// The length of a value.
pub open spec fn value_len(value: FieldValueView) -> nat {
    match value {
        FieldValueView::Null => 4,
        FieldValueView::Flag(flag) => flag_len(flag),
        FieldValueView::Number(number) => number_len(number as int),
        FieldValueView::Signed(number) => number_len(number as int),
        FieldValueView::Text(shown) => tool_support::json_string_len(shown),
        FieldValueView::Texts(texts) => listed_len(
            texts.map_values(|shown: Seq<char>| tool_support::json_string_len(shown)),
        ),
        FieldValueView::Matches(matches) => listed_len(
            matches.map_values(|found: MatchView| search_model::match_json_len(found)),
        ),
        FieldValueView::Workspace(workspace) => workspace_len(workspace),
    }
}

/// The length of an object with these fields.
#[verifier::opaque]
pub open spec fn fields_len(fields: Seq<(Seq<char>, FieldValueView)>) -> nat {
    listed_len(
        fields.map_values(|field: (Seq<char>, FieldValueView)| member_len(field.0, value_len(field.1))),
    )
}

/// The length of a piece of content.
pub open spec fn content_len(content: ContentView) -> nat {
    match content {
        ContentView::Text(shown) => listed_len(
            seq![
                member_len("type"@, tool_support::json_string_len("text"@)),
                member_len("text"@, tool_support::json_string_len(shown)),
            ],
        ),
        ContentView::Json(fields) => listed_len(
            seq![
                member_len("type"@, tool_support::json_string_len("json"@)),
                member_len("value"@, fields_len(fields)),
            ],
        ),
    }
}

/// The lengths of members, with one for fields where there are any.
pub open spec fn with_fields(
    lengths: Seq<nat>,
    name: Seq<char>,
    fields: Seq<(Seq<char>, FieldValueView)>,
) -> Seq<nat> {
    if fields.len() == 0 {
        lengths
    } else {
        lengths.push(member_len(name, fields_len(fields)))
    }
}

/// The length of a whole output.
pub open spec fn output_len(output: OutputView) -> nat {
    match output {
        OutputView::Success { content, metadata, extensions } => listed_len(
            with_fields(
                with_fields(
                    seq![
                        member_len("status"@, tool_support::json_string_len("success"@)),
                        member_len(
                            "content"@,
                            listed_len(content.map_values(|piece: ContentView| content_len(piece))),
                        ),
                    ],
                    "metadata"@,
                    metadata,
                ),
                "extensions"@,
                extensions,
            ),
        ),
        OutputView::Failure { error, extensions } => listed_len(
            with_fields(
                seq![
                    member_len("status"@, tool_support::json_string_len("failure"@)),
                    member_len(
                        "error"@,
                        listed_len(
                            seq![
                                member_len("code"@, tool_support::json_string_len(error.code)),
                                member_len(
                                    "message"@,
                                    tool_support::json_string_len(error.message),
                                ),
                                member_len("retryable"@, flag_len(error.retryable)),
                            ],
                        ),
                    ),
                ],
                "extensions"@,
                extensions,
            ),
        ),
    }
}

/// The text as metadata shows it where room is short.
pub open spec fn cut_text(shown: Seq<char>) -> Seq<char> {
    tool_support::json_prefix(shown, MAX_METADATA_TEXT_SERIALIZED_BYTES as nat)
}

/// What is said of a workspace, each text cut.
pub open spec fn cut_workspace(workspace: WorkspaceMetadataView) -> WorkspaceMetadataView {
    WorkspaceMetadataView {
        root: cut_text(workspace.root),
        git_worktree: match workspace.git_worktree {
            Some(git) => Some(
                GitMetadataView {
                    worktree_root: cut_text(git.worktree_root),
                    git_dir: cut_text(git.git_dir),
                    common_dir: cut_text(git.common_dir),
                    linked: git.linked,
                },
            ),
            None => None,
        },
    }
}

/// A list of texts, each of them cut; any other value as it is.
pub open spec fn cut_list(value: FieldValueView) -> FieldValueView {
    match value {
        FieldValueView::Texts(texts) => FieldValueView::Texts(
            texts.map_values(|shown: Seq<char>| cut_text(shown)),
        ),
        _ => value,
    }
}

/// A value of the metadata, its texts cut.
pub open spec fn cut_value(value: FieldValueView) -> FieldValueView {
    match value {
        FieldValueView::Text(shown) => FieldValueView::Text(cut_text(shown)),
        FieldValueView::Workspace(workspace) => FieldValueView::Workspace(
            cut_workspace(workspace),
        ),
        _ => cut_list(value),
    }
}

/// The metadata, the texts of each field cut.
pub open spec fn cut_metadata(fields: Seq<(Seq<char>, FieldValueView)>) -> Seq<
    (Seq<char>, FieldValueView),
> {
    fields.map_values(|field: (Seq<char>, FieldValueView)| (field.0, cut_value(field.1)))
}

/// A piece of content, the lists of texts in it cut.
pub open spec fn cut_content(piece: ContentView) -> ContentView {
    match piece {
        ContentView::Text(_) => piece,
        ContentView::Json(fields) => ContentView::Json(
            fields.map_values(|field: (Seq<char>, FieldValueView)| (field.0, cut_list(field.1))),
        ),
    }
}

/// An output as it is handed out: as it is where it takes no more than 64 KiB as
/// JSON, and otherwise with the paths and other texts of its metadata, and the
/// lists of paths in its content, cut.
pub open spec fn finalized(output: OutputView) -> OutputView {
    match output {
        OutputView::Success { content, metadata, extensions } => if output_len(output)
            <= MAX_OUTPUT_BYTES {
            output
        } else {
            OutputView::Success {
                content: content.map_values(|piece: ContentView| cut_content(piece)),
                metadata: cut_metadata(metadata),
                extensions,
            }
        },
        OutputView::Failure { .. } => output,
    }
}

/// A length, or the greatest number where it is greater.
spec fn capped(length: nat) -> u64 {
    if length > u64::MAX {
        u64::MAX
    } else {
        length as u64
    }
}

fn plus(first: u64, second: u64, Ghost(one): Ghost<nat>, Ghost(other): Ghost<nat>) -> (sum: u64)
    requires
        first == capped(one),
        second == capped(other),
    ensures
        sum == capped(one + other),
{
    first.saturating_add(second)
}

fn text_size(shown: &str) -> (size: u64)
    ensures
        size == capped(tool_support::json_string_len(shown@)),
{
    let chars = chars_of(shown);
    let mut size: u64 = 2;
    let mut index: usize = 0;
    while index < chars.len()
        invariant
            index <= chars@.len(),
            chars@ == shown@,
            size == capped(2 + tool_support::json_chars_len(shown@, index as int)),
        decreases chars@.len() - index,
    {
        let width: usize = char_json_len(chars[index]);
        size = plus(
            size,
            width as u64,
            Ghost(2 + tool_support::json_chars_len(shown@, index as int)),
            Ghost(width as nat),
        );
        index += 1;
    }
    size
}

fn digits(number: u64) -> (count: u64)
    ensures
        count == text::decimal_text(number as nat).len(),
        count <= 20,
{
    proof {
        lemma_digits(number as nat, 20);
    }
    let mut rest: u64 = number;
    let mut count: u64 = 1;
    while rest >= 10
        invariant
            text::decimal_text(number as nat).len() <= 20,
            text::decimal_text(rest as nat).len() >= 1,
            count + text::decimal_text(rest as nat).len() == text::decimal_text(number as nat).len()
                + 1,
        decreases rest,
    {
        assert(text::decimal_text(rest as nat).len() == text::decimal_text(
            (rest / 10) as nat,
        ).len() + 1);
        rest = rest / 10;
        assert(text::decimal_text(rest as nat).len() >= 1);
        count = count + 1;
    }
    count
}

spec fn ten_to(exponent: nat) -> nat
    decreases exponent,
{
    if exponent == 0 {
        1
    } else {
        10 * ten_to((exponent - 1) as nat)
    }
}

proof fn lemma_decimal_len(value: nat, length: nat)
    requires
        length >= 1,
        value < ten_to(length),
    ensures
        1 <= text::decimal_text(value).len() <= length,
    decreases length,
{
    if value >= 10 {
        assert(ten_to(0) == 1);
        assert(length > 1);
        lemma_decimal_len(value / 10, (length - 1) as nat);
    }
}

/// A number below 2 to the 64 has at most twenty digits.
pub proof fn lemma_digits(value: nat, length: nat)
    requires
        value < 0x1_0000_0000_0000_0000,
        length >= 20,
    ensures
        1 <= text::decimal_text(value).len() <= length,
{
    reveal_with_fuel(ten_to, 21);
    assert(ten_to(20) == 100000000000000000000);
    lemma_decimal_len(value, 20);
}

fn signed_size(number: i32) -> (size: u64)
    ensures
        size == number_len(number as int),
        size <= 21,
{
    if number < 0 {
        let positive: u64 = (-(number as i64)) as u64;
        1 + digits(positive)
    } else {
        digits(number as u64)
    }
}

fn flag_size(flag: bool) -> (size: u64)
    ensures
        size == flag_len(flag),
{
    if flag {
        4
    } else {
        5
    }
}

fn member_size(name: &str, value: u64, Ghost(exact): Ghost<nat>) -> (size: u64)
    requires
        value == capped(exact),
    ensures
        size == capped(member_len(name@, exact)),
{
    let named = plus(
        text_size(name),
        1,
        Ghost(tool_support::json_string_len(name@)),
        Ghost(1),
    );
    plus(named, value, Ghost(tool_support::json_string_len(name@) + 1), Ghost(exact))
}

/// The length of items of these lengths between brackets.
fn listed_size(sizes: &Vec<u64>, Ghost(exact): Ghost<Seq<nat>>) -> (size: u64)
    requires
        sizes@.len() == exact.len(),
        forall|i: int| 0 <= i < exact.len() ==> sizes@[i] == capped(#[trigger] exact[i]),
    ensures
        size == capped(listed_len(exact)),
{
    if sizes.len() == 0 {
        return 2;
    }
    let mut size: u64 = 1;
    let mut index: usize = 0;
    while index < sizes.len()
        invariant
            index <= sizes@.len() == exact.len(),
            forall|i: int| 0 <= i < exact.len() ==> sizes@[i] == capped(#[trigger] exact[i]),
            size == capped(1 + items_len(exact, index as int)),
        decreases sizes@.len() - index,
    {
        let item = plus(sizes[index], 1, Ghost(exact[index as int]), Ghost(1));
        size = plus(
            size,
            item,
            Ghost(1 + items_len(exact, index as int)),
            Ghost(exact[index as int] + 1),
        );
        index += 1;
    }
    size
}

fn texts_size(texts: &Vec<String>) -> (size: u64)
    ensures
        size == capped(value_len(FieldValueView::Texts(text::texts(texts@)))),
{
    let ghost exact = text::texts(texts@).map_values(
        |shown: Seq<char>| tool_support::json_string_len(shown),
    );
    let mut sizes: Vec<u64> = Vec::new();
    let mut index: usize = 0;
    while index < texts.len()
        invariant
            index <= texts@.len() == exact.len(),
            sizes@.len() == index,
            exact == text::texts(texts@).map_values(
                |shown: Seq<char>| tool_support::json_string_len(shown),
            ),
            forall|i: int| 0 <= i < index ==> sizes@[i] == capped(#[trigger] exact[i]),
        decreases texts@.len() - index,
    {
        sizes.push(text_size(texts[index].as_str()));
        assert(exact[index as int] == tool_support::json_string_len(texts@[index as int]@));
        index += 1;
    }
    listed_size(&sizes, Ghost(exact))
}

fn match_size(found: &SearchMatch) -> (size: u64)
    ensures
        size == capped(search_model::match_json_len(found@)),
{
    let ghost path = tool_support::json_string_len(found.path@);
    let ghost line = text::decimal_text(found.line as nat).len();
    let numbered = plus(25, digits(found.line), Ghost(25), Ghost(line));
    let placed = plus(
        numbered,
        text_size(found.path.as_str()),
        Ghost((25 + line) as nat),
        Ghost(path),
    );
    plus(
        placed,
        text_size(found.text.as_str()),
        Ghost((25 + line + path) as nat),
        Ghost(tool_support::json_string_len(found.text@)),
    )
}

fn matches_size(matches: &Vec<SearchMatch>) -> (size: u64)
    ensures
        size == capped(value_len(FieldValueView::Matches(tool::match_views(matches@)))),
{
    let ghost exact = tool::match_views(matches@).map_values(
        |found: MatchView| search_model::match_json_len(found),
    );
    let mut sizes: Vec<u64> = Vec::new();
    let mut index: usize = 0;
    while index < matches.len()
        invariant
            index <= matches@.len() == exact.len(),
            sizes@.len() == index,
            exact == tool::match_views(matches@).map_values(
                |found: MatchView| search_model::match_json_len(found),
            ),
            forall|i: int| 0 <= i < index ==> sizes@[i] == capped(#[trigger] exact[i]),
        decreases matches@.len() - index,
    {
        sizes.push(match_size(&matches[index]));
        assert(exact[index as int] == search_model::match_json_len(matches@[index as int]@));
        index += 1;
    }
    listed_size(&sizes, Ghost(exact))
}

fn git_size(git: &GitWorktreeMetadata) -> (size: u64)
    ensures
        size == capped(git_len(git@)),
{
    let ghost worktree_root = tool_support::json_string_len(git.worktree_root@);
    let ghost git_dir = tool_support::json_string_len(git.git_dir@);
    let ghost common_dir = tool_support::json_string_len(git.common_dir@);
    let mut sizes: Vec<u64> = Vec::new();
    sizes.push(
        member_size(
            "worktree_root",
            text_size(git.worktree_root.as_str()),
            Ghost(worktree_root),
        ),
    );
    sizes.push(member_size("git_dir", text_size(git.git_dir.as_str()), Ghost(git_dir)));
    sizes.push(member_size("common_dir", text_size(git.common_dir.as_str()), Ghost(common_dir)));
    sizes.push(member_size("linked", flag_size(git.linked), Ghost(flag_len(git.linked))));
    let ghost exact = seq![
        member_len("worktree_root"@, worktree_root),
        member_len("git_dir"@, git_dir),
        member_len("common_dir"@, common_dir),
        member_len("linked"@, flag_len(git.linked)),
    ];
    listed_size(&sizes, Ghost(exact))
}

fn workspace_size(workspace: &WorkspaceMetadata) -> (size: u64)
    ensures
        size == capped(workspace_len(workspace@)),
{
    let ghost root = tool_support::json_string_len(workspace.root@);
    let ghost said = optional_git_len(workspace@.git_worktree);
    let mut sizes: Vec<u64> = Vec::new();
    sizes.push(member_size("root", text_size(workspace.root.as_str()), Ghost(root)));
    let size = match &workspace.git_worktree {
        Some(git) => git_size(git),
        None => 4,
    };
    sizes.push(member_size("git_worktree", size, Ghost(said)));
    let ghost exact = seq![member_len("root"@, root), member_len("git_worktree"@, said)];
    assert(workspace_len(workspace@) == listed_len(exact)) by {
        reveal(workspace_len);
    }
    listed_size(&sizes, Ghost(exact))
}

fn value_size(value: &FieldValue) -> (size: u64)
    ensures
        size == capped(value_len(value@)),
{
    match value {
        FieldValue::Null => 4,
        FieldValue::Flag(flag) => flag_size(*flag),
        FieldValue::Number(number) => digits(*number),
        FieldValue::Signed(number) => signed_size(*number),
        FieldValue::Text(shown) => text_size(shown.as_str()),
        FieldValue::Texts(texts) => texts_size(texts),
        FieldValue::Matches(matches) => matches_size(matches),
        FieldValue::Workspace(workspace) => workspace_size(workspace),
    }
}

fn fields_size(fields: &Vec<Field>) -> (size: u64)
    ensures
        size == capped(fields_len(tool::field_views(fields@))),
{
    proof {
        reveal(fields_len);
    }
    let ghost exact = tool::field_views(fields@).map_values(
        |field: (Seq<char>, FieldValueView)| member_len(field.0, value_len(field.1)),
    );
    let mut sizes: Vec<u64> = Vec::new();
    let mut index: usize = 0;
    while index < fields.len()
        invariant
            index <= fields@.len() == exact.len(),
            sizes@.len() == index,
            exact == tool::field_views(fields@).map_values(
                |field: (Seq<char>, FieldValueView)| member_len(field.0, value_len(field.1)),
            ),
            forall|i: int| 0 <= i < index ==> sizes@[i] == capped(#[trigger] exact[i]),
        decreases fields@.len() - index,
    {
        let field = &fields[index];
        sizes.push(
            member_size(
                field.name.as_str(),
                value_size(&field.value),
                Ghost(value_len(field.value@)),
            ),
        );
        assert(exact[index as int] == member_len(field.name@, value_len(field.value@)));
        index += 1;
    }
    listed_size(&sizes, Ghost(exact))
}

fn content_size(piece: &ToolContent) -> (size: u64)
    ensures
        size == capped(content_len(piece@)),
{
    let mut sizes: Vec<u64> = Vec::new();
    match piece {
        ToolContent::Text { text: shown } => {
            let ghost kind = tool_support::json_string_len("text"@);
            let ghost exact = tool_support::json_string_len(shown@);
            sizes.push(member_size("type", text_size("text"), Ghost(kind)));
            sizes.push(member_size("text", text_size(shown.as_str()), Ghost(exact)));
            let ghost both = seq![member_len("type"@, kind), member_len("text"@, exact)];
            listed_size(&sizes, Ghost(both))
        },
        ToolContent::Json { fields } => {
            let ghost kind = tool_support::json_string_len("json"@);
            let ghost exact = fields_len(tool::field_views(fields@));
            sizes.push(member_size("type", text_size("json"), Ghost(kind)));
            sizes.push(member_size("value", fields_size(fields), Ghost(exact)));
            let ghost both = seq![member_len("type"@, kind), member_len("value"@, exact)];
            listed_size(&sizes, Ghost(both))
        },
    }
}

fn contents_size(content: &Vec<ToolContent>) -> (size: u64)
    ensures
        size == capped(
            listed_len(
                tool::content_views(content@).map_values(|piece: ContentView| content_len(piece)),
            ),
        ),
{
    let ghost exact = tool::content_views(content@).map_values(
        |piece: ContentView| content_len(piece),
    );
    let mut sizes: Vec<u64> = Vec::new();
    let mut index: usize = 0;
    while index < content.len()
        invariant
            index <= content@.len() == exact.len(),
            sizes@.len() == index,
            exact == tool::content_views(content@).map_values(
                |piece: ContentView| content_len(piece),
            ),
            forall|i: int| 0 <= i < index ==> sizes@[i] == capped(#[trigger] exact[i]),
        decreases content@.len() - index,
    {
        sizes.push(content_size(&content[index]));
        assert(exact[index as int] == content_len(content@[index as int]@));
        index += 1;
    }
    listed_size(&sizes, Ghost(exact))
}

/// The length of an output that succeeded.
fn success_size(content: &Vec<ToolContent>, metadata: &Vec<Field>, extensions: &Vec<Field>) -> (size:
    u64)
    ensures
        size == capped(
            output_len(
                OutputView::Success {
                    content: tool::content_views(content@),
                    metadata: tool::field_views(metadata@),
                    extensions: tool::field_views(extensions@),
                },
            ),
        ),
{
    let ghost status = tool_support::json_string_len("success"@);
    let ghost pieces = listed_len(
        tool::content_views(content@).map_values(|piece: ContentView| content_len(piece)),
    );
    let ghost fields = tool::field_views(metadata@);
    let ghost more = tool::field_views(extensions@);
    let ghost first = seq![member_len("status"@, status), member_len("content"@, pieces)];
    let ghost second = with_fields(first, "metadata"@, fields);
    let ghost exact = with_fields(second, "extensions"@, more);
    assert(fields.len() == metadata@.len() && more.len() == extensions@.len());
    let mut sizes: Vec<u64> = Vec::new();
    sizes.push(member_size("status", text_size("success"), Ghost(status)));
    sizes.push(member_size("content", contents_size(content), Ghost(pieces)));
    if metadata.len() > 0 {
        sizes.push(member_size("metadata", fields_size(metadata), Ghost(fields_len(fields))));
    }
    assert(sizes@.len() == second.len());
    assert(forall|i: int| 0 <= i < second.len() ==> sizes@[i] == capped(#[trigger] second[i]));
    if extensions.len() > 0 {
        sizes.push(member_size("extensions", fields_size(extensions), Ghost(fields_len(more))));
    }
    listed_size(&sizes, Ghost(exact))
}

fn cut(shown: &str) -> (result: String)
    ensures
        result@ == cut_text(shown@),
{
    let (result, _) = truncate_json_string(shown, MAX_METADATA_TEXT_SERIALIZED_BYTES);
    result
}

fn cut_texts(texts: &Vec<String>) -> (result: Vec<String>)
    ensures
        text::texts(result@) == text::texts(texts@).map_values(
            |shown: Seq<char>| cut_text(shown),
        ),
{
    let ghost exact = text::texts(texts@).map_values(|shown: Seq<char>| cut_text(shown));
    let mut result: Vec<String> = Vec::new();
    let mut index: usize = 0;
    while index < texts.len()
        invariant
            index <= texts@.len() == exact.len(),
            result@.len() == index,
            exact == text::texts(texts@).map_values(|shown: Seq<char>| cut_text(shown)),
            forall|i: int| 0 <= i < index ==> result@[i]@ == #[trigger] exact[i],
        decreases texts@.len() - index,
    {
        result.push(cut(texts[index].as_str()));
        assert(exact[index as int] == cut_text(texts@[index as int]@));
        index += 1;
    }
    assert(text::texts(result@) =~= exact);
    result
}

fn cut_list_value(value: FieldValue) -> (result: FieldValue)
    ensures
        result@ == cut_list(value@),
{
    match value {
        FieldValue::Texts(texts) => FieldValue::Texts(cut_texts(&texts)),
        other => other,
    }
}

fn cut_field_value(value: FieldValue) -> (result: FieldValue)
    ensures
        result@ == cut_value(value@),
{
    match value {
        FieldValue::Text(shown) => FieldValue::Text(cut(shown.as_str())),
        FieldValue::Workspace(workspace) => {
            let git_worktree = match &workspace.git_worktree {
                Some(git) => Some(
                    GitWorktreeMetadata {
                        worktree_root: cut(git.worktree_root.as_str()),
                        git_dir: cut(git.git_dir.as_str()),
                        common_dir: cut(git.common_dir.as_str()),
                        linked: git.linked,
                    },
                ),
                None => None,
            };
            FieldValue::Workspace(
                WorkspaceMetadata { root: cut(workspace.root.as_str()), git_worktree },
            )
        },
        other => cut_list_value(other),
    }
}

fn cut_fields(fields: Vec<Field>, all: bool) -> (result: Vec<Field>)
    ensures
        tool::field_views(result@) == (if all {
            cut_metadata(tool::field_views(fields@))
        } else {
            tool::field_views(fields@).map_values(
                |field: (Seq<char>, FieldValueView)| (field.0, cut_list(field.1)),
            )
        }),
{
    let ghost views = tool::field_views(fields@);
    let ghost exact = if all {
        cut_metadata(views)
    } else {
        views.map_values(|field: (Seq<char>, FieldValueView)| (field.0, cut_list(field.1)))
    };
    let mut rest = fields;
    let mut result: Vec<Field> = Vec::new();
    while rest.len() > 0
        invariant
            views.len() == exact.len() == result@.len() + rest@.len(),
            exact == (if all {
                cut_metadata(views)
            } else {
                views.map_values(|field: (Seq<char>, FieldValueView)| (field.0, cut_list(field.1)))
            }),
            forall|i: int| 0 <= i < rest@.len() ==> rest@[i]@ == #[trigger] views[
                i + result@.len()],
            forall|i: int| 0 <= i < result@.len() ==> (#[trigger] result@[i])@ == exact[i],
        decreases rest@.len(),
    {
        let ghost done = result@.len() as int;
        assert(rest@[0]@ == views[0 + done]);
        let ghost before = rest@;
        let field = rest.remove(0);
        let value = if all {
            cut_field_value(field.value)
        } else {
            cut_list_value(field.value)
        };
        result.push(Field { name: field.name, value });
        assert(exact[done] == result@[done]@);
        assert forall|i: int| 0 <= i < rest@.len() implies rest@[i]@ == #[trigger] views[
            i + result@.len()] by {
            assert(rest@[i] == before[i + 1]);
            assert(before[i + 1]@ == views[(i + 1) + done]);
        }
    }
    assert(tool::field_views(result@) =~= exact);
    result
}

fn cut_contents(content: Vec<ToolContent>) -> (result: Vec<ToolContent>)
    ensures
        tool::content_views(result@) == tool::content_views(content@).map_values(
            |piece: ContentView| cut_content(piece),
        ),
{
    let ghost views = tool::content_views(content@);
    let ghost exact = views.map_values(|piece: ContentView| cut_content(piece));
    let mut rest = content;
    let mut result: Vec<ToolContent> = Vec::new();
    while rest.len() > 0
        invariant
            views.len() == exact.len() == result@.len() + rest@.len(),
            exact == views.map_values(|piece: ContentView| cut_content(piece)),
            forall|i: int| 0 <= i < rest@.len() ==> rest@[i]@ == #[trigger] views[
                i + result@.len()],
            forall|i: int| 0 <= i < result@.len() ==> (#[trigger] result@[i])@ == exact[i],
        decreases rest@.len(),
    {
        let ghost done = result@.len() as int;
        assert(rest@[0]@ == views[0 + done]);
        let ghost before = rest@;
        let piece = match rest.remove(0) {
            ToolContent::Text { text: shown } => ToolContent::Text { text: shown },
            ToolContent::Json { fields } => ToolContent::Json { fields: cut_fields(fields, false) },
        };
        result.push(piece);
        assert(exact[done] == result@[done]@);
        assert forall|i: int| 0 <= i < rest@.len() implies rest@[i]@ == #[trigger] views[
            i + result@.len()] by {
            assert(rest@[i] == before[i + 1]);
            assert(before[i + 1]@ == views[(i + 1) + done]);
        }
    }
    assert(tool::content_views(result@) =~= exact);
    result
}

/// Bounds the complete output: one that takes more than 64 KiB as JSON is handed
/// out with the texts of its metadata, and the lists of paths in its content, cut.
pub fn finalize_output(output: ToolOutput) -> (result: ToolOutput)
    ensures
        result@ == finalized(output@),
{
    match output {
        ToolOutput::Success { content, metadata, extensions } => {
            if success_size(&content, &metadata, &extensions) <= MAX_OUTPUT_BYTES as u64 {
                ToolOutput::Success { content, metadata, extensions }
            } else {
                ToolOutput::Success {
                    content: cut_contents(content),
                    metadata: cut_fields(metadata, true),
                    extensions,
                }
            }
        },
        failed => failed,
    }
}

} // verus!
