//! The JSON text of an output, and that its bytes are what is counted.

use crate::output_size;
use crate::search_model;
use crate::search_text_laws;
use crate::text;
use crate::text_laws;
use crate::tool::{ContentView, FieldValueView, MatchView, OutputView};
use crate::tool_support;
use crate::workspace::{GitMetadataView, WorkspaceMetadataView};
use vstd::prelude::*;

verus! {

/// The number of bytes that a text takes.
pub open spec fn bytes(shown: Seq<char>) -> nat {
    vstd::utf8::encode_utf8(shown).len()
}

/// A character as it stands inside a JSON string.
pub open spec fn escaped(character: char) -> Seq<char> {
    if character == '"' {
        seq!['\\', '"']
    } else if character == '\\' {
        seq!['\\', '\\']
    } else if character == '\u{8}' {
        seq!['\\', 'b']
    } else if character == '\t' {
        seq!['\\', 't']
    } else if character == '\n' {
        seq!['\\', 'n']
    } else if character == '\u{c}' {
        seq!['\\', 'f']
    } else if character == '\r' {
        seq!['\\', 'r']
    } else if (character as u32) < 0x20 {
        seq![
            '\\',
            'u',
            '0',
            '0',
            text::digit_char((character as nat) / 16),
            text::digit_char((character as nat) % 16),
        ]
    } else {
        seq![character]
    }
}

/// A text as it stands inside a JSON string.
pub open spec fn escaped_text(shown: Seq<char>) -> Seq<char>
    decreases shown.len(),
{
    if shown.len() == 0 {
        Seq::empty()
    } else {
        escaped_text(shown.drop_last()) + escaped(shown.last())
    }
}

/// A text as a JSON string.
pub open spec fn string_text(shown: Seq<char>) -> Seq<char> {
    seq!['"'] + escaped_text(shown) + seq!['"']
}

/// Items behind one another, with commas between them.
pub open spec fn with_commas(items: Seq<Seq<char>>) -> Seq<char>
    decreases items.len(),
{
    if items.len() == 0 {
        Seq::empty()
    } else if items.len() == 1 {
        items[0]
    } else {
        with_commas(items.drop_last()) + seq![','] + items.last()
    }
}

/// A JSON array.
pub open spec fn array_text(items: Seq<Seq<char>>) -> Seq<char> {
    seq!['['] + with_commas(items) + seq![']']
}

/// A JSON object.
pub open spec fn object_text(members: Seq<Seq<char>>) -> Seq<char> {
    seq!['{'] + with_commas(members) + seq!['}']
}

/// A member of a JSON object.
pub open spec fn member_text(name: Seq<char>, value: Seq<char>) -> Seq<char> {
    string_text(name) + seq![':'] + value
}

/// A flag.
pub open spec fn flag_text(flag: bool) -> Seq<char> {
    if flag {
        seq!['t', 'r', 'u', 'e']
    } else {
        seq!['f', 'a', 'l', 's', 'e']
    }
}

/// A number.
pub open spec fn number_text(number: int) -> Seq<char> {
    if number < 0 {
        seq!['-'] + text::decimal_text((-number) as nat)
    } else {
        text::decimal_text(number as nat)
    }
}

/// Nothing.
pub open spec fn null_text() -> Seq<char> {
    seq!['n', 'u', 'l', 'l']
}

/// A match.
pub open spec fn match_text(found: MatchView) -> Seq<char> {
    object_text(
        seq![
            member_text("path"@, string_text(found.path)),
            member_text("line"@, number_text(found.line as int)),
            member_text("text"@, string_text(found.text)),
        ],
    )
}

/// What is said of a Git worktree.
pub open spec fn git_text(git: GitMetadataView) -> Seq<char> {
    object_text(
        seq![
            member_text("worktree_root"@, string_text(git.worktree_root)),
            member_text("git_dir"@, string_text(git.git_dir)),
            member_text("common_dir"@, string_text(git.common_dir)),
            member_text("linked"@, flag_text(git.linked)),
        ],
    )
}

/// What is said of a Git worktree, or of none.
pub open spec fn optional_git_text(git_worktree: Option<GitMetadataView>) -> Seq<char> {
    match git_worktree {
        Some(git) => git_text(git),
        None => null_text(),
    }
}

/// What is said of a workspace.
pub open spec fn workspace_text(workspace: WorkspaceMetadataView) -> Seq<char> {
    object_text(
        seq![
            member_text("root"@, string_text(workspace.root)),
            member_text("git_worktree"@, optional_git_text(workspace.git_worktree)),
        ],
    )
}

/// A value.
pub open spec fn value_text(value: FieldValueView) -> Seq<char> {
    match value {
        FieldValueView::Null => null_text(),
        FieldValueView::Flag(flag) => flag_text(flag),
        FieldValueView::Number(number) => number_text(number as int),
        FieldValueView::Signed(number) => number_text(number as int),
        FieldValueView::Text(shown) => string_text(shown),
        FieldValueView::Texts(texts) => array_text(
            texts.map_values(|shown: Seq<char>| string_text(shown)),
        ),
        FieldValueView::Matches(matches) => array_text(
            matches.map_values(|found: MatchView| match_text(found)),
        ),
        FieldValueView::Workspace(workspace) => workspace_text(workspace),
    }
}

/// An object with these fields.
pub open spec fn fields_text(fields: Seq<(Seq<char>, FieldValueView)>) -> Seq<char> {
    object_text(
        fields.map_values(
            |field: (Seq<char>, FieldValueView)| member_text(field.0, value_text(field.1)),
        ),
    )
}

/// A piece of content.
pub open spec fn content_text(content: ContentView) -> Seq<char> {
    match content {
        ContentView::Text(shown) => object_text(
            seq![
                member_text("type"@, string_text("text"@)),
                member_text("text"@, string_text(shown)),
            ],
        ),
        ContentView::Json(fields) => object_text(
            seq![
                member_text("type"@, string_text("json"@)),
                member_text("value"@, fields_text(fields)),
            ],
        ),
    }
}

/// Members, with one for fields where there are any.
pub open spec fn with_fields(
    members: Seq<Seq<char>>,
    name: Seq<char>,
    fields: Seq<(Seq<char>, FieldValueView)>,
) -> Seq<Seq<char>> {
    if fields.len() == 0 {
        members
    } else {
        members.push(member_text(name, fields_text(fields)))
    }
}

/// A whole output.
pub open spec fn output_text(output: OutputView) -> Seq<char> {
    match output {
        OutputView::Success { content, metadata, extensions } => object_text(
            with_fields(
                with_fields(
                    seq![
                        member_text("status"@, string_text("success"@)),
                        member_text(
                            "content"@,
                            array_text(
                                content.map_values(|piece: ContentView| content_text(piece)),
                            ),
                        ),
                    ],
                    "metadata"@,
                    metadata,
                ),
                "extensions"@,
                extensions,
            ),
        ),
        OutputView::Failure { error, extensions } => object_text(
            with_fields(
                seq![
                    member_text("status"@, string_text("failure"@)),
                    member_text(
                        "error"@,
                        object_text(
                            seq![
                                member_text("code"@, string_text(error.code)),
                                member_text("message"@, string_text(error.message)),
                                member_text("retryable"@, flag_text(error.retryable)),
                            ],
                        ),
                    ),
                ],
                "extensions"@,
                extensions,
            ),
        ),
    }
}

proof fn lemma_both(first: Seq<char>, second: Seq<char>)
    ensures
        bytes(first + second) == bytes(first) + bytes(second),
{
    search_text_laws::lemma_encode_concat(first, second);
}

proof fn lemma_least(character: char)
    ensures
        '\0' <= character,
{
}

proof fn lemma_plain(shown: Seq<char>)
    requires
        forall|i: int| 0 <= i < shown.len() ==> #[trigger] shown[i] <= '\u{7f}',
    ensures
        bytes(shown) == shown.len(),
{
    assert forall|i: int| 0 <= i < shown.len() implies '\0' <= #[trigger] shown[i]
        <= '\u{7f}' by {
        lemma_least(shown[i]);
    }
    assert(vstd::utf8::is_ascii_chars(shown));
    vstd::utf8::is_ascii_chars_encode_utf8(shown);
}

proof fn lemma_escaped(character: char)
    ensures
        bytes(escaped(character)) == tool_support::json_char_len(character),
{
    let shown = escaped(character);
    if shown.len() > 1 {
        lemma_plain(shown);
    } else {
        let empty = Seq::<char>::empty();
        search_text_laws::lemma_encode_push(empty, character);
        assert(empty.push(character) =~= shown);
        assert(vstd::utf8::encode_utf8(empty) =~= Seq::<u8>::empty());
    }
}

proof fn lemma_escaped_text(shown: Seq<char>, count: int)
    requires
        0 <= count <= shown.len(),
    ensures
        bytes(escaped_text(shown.take(count))) == tool_support::json_chars_len(shown, count),
    decreases count,
{
    let taken = shown.take(count);
    if count == 0 {
        lemma_plain(escaped_text(taken));
    } else {
        lemma_escaped_text(shown, count - 1);
        assert(taken.drop_last() =~= shown.take(count - 1));
        assert(taken.last() == shown[count - 1]);
        lemma_escaped(shown[count - 1]);
        lemma_both(escaped_text(taken.drop_last()), escaped(taken.last()));
    }
}

/// The length that is counted for a text is that of its JSON string: every character as
/// it stands there, escaped where it must be, between quotes.
pub proof fn law_json_strings_are_measured(shown: Seq<char>)
    ensures
        tool_support::json_string_len(shown) == bytes(string_text(shown)),
{
    lemma_escaped_text(shown, shown.len() as int);
    assert(shown.take(shown.len() as int) =~= shown);
    let quote = seq!['"'];
    lemma_plain(quote);
    lemma_both(quote, escaped_text(shown));
    lemma_both(quote + escaped_text(shown), quote);
}

proof fn lemma_commas(items: Seq<Seq<char>>, lengths: Seq<nat>)
    requires
        items.len() == lengths.len(),
        forall|i: int| 0 <= i < items.len() ==> bytes(#[trigger] items[i]) == lengths[i],
    ensures
        items.len() > 0 ==> bytes(with_commas(items)) + 1 == output_size::items_len(
            lengths,
            lengths.len() as int,
        ),
        items.len() == 0 ==> bytes(with_commas(items)) == 0,
    decreases items.len(),
{
    if items.len() == 0 {
        lemma_plain(with_commas(items));
    } else if items.len() == 1 {
        assert(output_size::items_len(lengths, 0) == 0);
        assert(bytes(items[0]) == lengths[0]);
    } else {
        let front = items.drop_last();
        let fewer = lengths.drop_last();
        lemma_commas(front, fewer);
        lemma_items(lengths, fewer, fewer.len() as int);
        lemma_plain(seq![',']);
        lemma_both(with_commas(front), seq![',']);
        lemma_both(with_commas(front) + seq![','], items.last());
        assert(bytes(items[items.len() - 1]) == lengths[lengths.len() - 1]);
    }
}

proof fn lemma_items(lengths: Seq<nat>, fewer: Seq<nat>, count: int)
    requires
        0 <= count <= fewer.len() <= lengths.len(),
        forall|i: int| 0 <= i < fewer.len() ==> #[trigger] fewer[i] == lengths[i],
    ensures
        output_size::items_len(lengths, count) == output_size::items_len(fewer, count),
    decreases count,
{
    if count > 0 {
        lemma_items(lengths, fewer, count - 1);
        assert(fewer[count - 1] == lengths[count - 1]);
    }
}

proof fn lemma_listed(items: Seq<Seq<char>>, lengths: Seq<nat>)
    requires
        items.len() == lengths.len(),
        forall|i: int| 0 <= i < items.len() ==> bytes(#[trigger] items[i]) == lengths[i],
    ensures
        bytes(array_text(items)) == output_size::listed_len(lengths),
        bytes(object_text(items)) == output_size::listed_len(lengths),
{
    lemma_commas(items, lengths);
    lemma_plain(seq!['[']);
    lemma_plain(seq![']']);
    lemma_plain(seq!['{']);
    lemma_plain(seq!['}']);
    lemma_both(seq!['['], with_commas(items));
    lemma_both(seq!['['] + with_commas(items), seq![']']);
    lemma_both(seq!['{'], with_commas(items));
    lemma_both(seq!['{'] + with_commas(items), seq!['}']);
}

proof fn lemma_member(name: Seq<char>, value: Seq<char>)
    ensures
        bytes(member_text(name, value)) == output_size::member_len(name, bytes(value)),
{
    law_json_strings_are_measured(name);
    lemma_plain(seq![':']);
    lemma_both(string_text(name), seq![':']);
    lemma_both(string_text(name) + seq![':'], value);
}

proof fn lemma_simple(flag: bool, number: int)
    ensures
        bytes(flag_text(flag)) == output_size::flag_len(flag),
        bytes(number_text(number)) == output_size::number_len(number),
        bytes(null_text()) == 4,
{
    lemma_plain(flag_text(flag));
    lemma_plain(null_text());
    let size = (if number < 0 {
        -number
    } else {
        number
    }) as nat;
    text_laws::law_decimal_texts_are_worth_their_number(size);
    let digits = text::decimal_text(size);
    assert forall|i: int| 0 <= i < number_text(number).len() implies #[trigger] number_text(
        number,
    )[i] <= '\u{7f}' by {
        if number < 0 && i > 0 {
            assert(number_text(number)[i] == digits[i - 1]);
            assert('0' <= digits[i - 1] <= '9');
        } else if number >= 0 {
            assert('0' <= digits[i] <= '9');
        }
    }
    lemma_plain(number_text(number));
}

/// The length that is counted for a match is that of its JSON object.
pub proof fn law_matches_are_measured(found: MatchView)
    ensures
        search_model::match_json_len(found) == bytes(match_text(found)),
{
    reveal_strlit("path");
    reveal_strlit("line");
    reveal_strlit("text");
    law_json_strings_are_measured(found.path);
    law_json_strings_are_measured(found.text);
    lemma_simple(true, found.line as int);
    lemma_member("path"@, string_text(found.path));
    lemma_member("line"@, number_text(found.line as int));
    lemma_member("text"@, string_text(found.text));
    lemma_letters("path"@);
    lemma_letters("line"@);
    lemma_letters("text"@);
    let items = seq![
        member_text("path"@, string_text(found.path)),
        member_text("line"@, number_text(found.line as int)),
        member_text("text"@, string_text(found.text)),
    ];
    let lengths = seq![bytes(items[0]), bytes(items[1]), bytes(items[2])];
    lemma_listed(items, lengths);
    reveal_with_fuel(output_size::items_len, 4);
}

proof fn lemma_letters(name: Seq<char>)
    requires
        name.len() == 4,
        forall|i: int| 0 <= i < name.len() ==> 'a' <= #[trigger] name[i] <= 'z',
    ensures
        tool_support::json_string_len(name) == 6,
{
    reveal_with_fuel(tool_support::json_chars_len, 5);
    assert('a' <= name[0] <= 'z' && 'a' <= name[1] <= 'z' && 'a' <= name[2] <= 'z' && 'a'
        <= name[3] <= 'z');
    assert forall|i: int| 0 <= i < 4 implies tool_support::json_char_len(#[trigger] name[i]) == 1 by {
        lemma_escaped(name[i]);
        lemma_plain(seq![name[i]]);
    }
}

proof fn lemma_workspace(workspace: WorkspaceMetadataView)
    ensures
        bytes(workspace_text(workspace)) == output_size::workspace_len(workspace),
{
    reveal(output_size::workspace_len);
    law_json_strings_are_measured(workspace.root);
    lemma_member("root"@, string_text(workspace.root));
    let shown = optional_git_text(workspace.git_worktree);
    if let Some(git) = workspace.git_worktree {
        law_json_strings_are_measured(git.worktree_root);
        law_json_strings_are_measured(git.git_dir);
        law_json_strings_are_measured(git.common_dir);
        lemma_simple(git.linked, 0);
        lemma_member("worktree_root"@, string_text(git.worktree_root));
        lemma_member("git_dir"@, string_text(git.git_dir));
        lemma_member("common_dir"@, string_text(git.common_dir));
        lemma_member("linked"@, flag_text(git.linked));
        let items = seq![
            member_text("worktree_root"@, string_text(git.worktree_root)),
            member_text("git_dir"@, string_text(git.git_dir)),
            member_text("common_dir"@, string_text(git.common_dir)),
            member_text("linked"@, flag_text(git.linked)),
        ];
        lemma_listed(
            items,
            seq![
                output_size::member_len(
                    "worktree_root"@,
                    tool_support::json_string_len(git.worktree_root),
                ),
                output_size::member_len("git_dir"@, tool_support::json_string_len(git.git_dir)),
                output_size::member_len(
                    "common_dir"@,
                    tool_support::json_string_len(git.common_dir),
                ),
                output_size::member_len("linked"@, output_size::flag_len(git.linked)),
            ],
        );
    } else {
        lemma_simple(true, 0);
    }
    assert(bytes(shown) == output_size::optional_git_len(workspace.git_worktree));
    lemma_member("git_worktree"@, shown);
    let items = seq![
        member_text("root"@, string_text(workspace.root)),
        member_text("git_worktree"@, shown),
    ];
    let lengths = seq![
        output_size::member_len("root"@, tool_support::json_string_len(workspace.root)),
        output_size::member_len(
            "git_worktree"@,
            output_size::optional_git_len(workspace.git_worktree),
        ),
    ];
    lemma_listed(items, lengths);
    assert(workspace_text(workspace) == object_text(items));
    assert(output_size::workspace_len(workspace) == output_size::listed_len(lengths));
}

proof fn lemma_value(value: FieldValueView)
    ensures
        bytes(value_text(value)) == output_size::value_len(value),
{
    match value {
        FieldValueView::Null => {
            lemma_simple(true, 0);
        },
        FieldValueView::Flag(flag) => {
            lemma_simple(flag, 0);
        },
        FieldValueView::Number(number) => {
            lemma_simple(true, number as int);
        },
        FieldValueView::Signed(number) => {
            lemma_simple(true, number as int);
        },
        FieldValueView::Text(shown) => {
            law_json_strings_are_measured(shown);
        },
        FieldValueView::Texts(texts) => {
            let items = texts.map_values(|shown: Seq<char>| string_text(shown));
            let lengths = texts.map_values(
                |shown: Seq<char>| tool_support::json_string_len(shown),
            );
            assert forall|i: int| 0 <= i < items.len() implies bytes(#[trigger] items[i])
                == lengths[i] by {
                law_json_strings_are_measured(texts[i]);
            }
            lemma_listed(items, lengths);
        },
        FieldValueView::Matches(matches) => {
            let items = matches.map_values(|found: MatchView| match_text(found));
            let lengths = matches.map_values(|found: MatchView| search_model::match_json_len(found));
            assert forall|i: int| 0 <= i < items.len() implies bytes(#[trigger] items[i])
                == lengths[i] by {
                law_matches_are_measured(matches[i]);
            }
            lemma_listed(items, lengths);
        },
        FieldValueView::Workspace(workspace) => {
            lemma_workspace(workspace);
        },
    }
}

proof fn lemma_fields(fields: Seq<(Seq<char>, FieldValueView)>)
    ensures
        bytes(fields_text(fields)) == output_size::fields_len(fields),
{
    reveal(output_size::fields_len);
    let items = fields.map_values(
        |field: (Seq<char>, FieldValueView)| member_text(field.0, value_text(field.1)),
    );
    let lengths = fields.map_values(
        |field: (Seq<char>, FieldValueView)|
            output_size::member_len(field.0, output_size::value_len(field.1)),
    );
    assert forall|i: int| 0 <= i < items.len() implies bytes(#[trigger] items[i]) == lengths[i] by {
        lemma_value(fields[i].1);
        lemma_member(fields[i].0, value_text(fields[i].1));
    }
    lemma_listed(items, lengths);
}

proof fn lemma_content(content: ContentView)
    ensures
        bytes(content_text(content)) == output_size::content_len(content),
{
    law_json_strings_are_measured("text"@);
    law_json_strings_are_measured("json"@);
    lemma_member("type"@, string_text("text"@));
    lemma_member("type"@, string_text("json"@));
    match content {
        ContentView::Text(shown) => {
            law_json_strings_are_measured(shown);
            lemma_member("text"@, string_text(shown));
            lemma_listed(
                seq![
                    member_text("type"@, string_text("text"@)),
                    member_text("text"@, string_text(shown)),
                ],
                seq![
                    output_size::member_len("type"@, tool_support::json_string_len("text"@)),
                    output_size::member_len("text"@, tool_support::json_string_len(shown)),
                ],
            );
        },
        ContentView::Json(fields) => {
            lemma_fields(fields);
            lemma_member("value"@, fields_text(fields));
            lemma_listed(
                seq![
                    member_text("type"@, string_text("json"@)),
                    member_text("value"@, fields_text(fields)),
                ],
                seq![
                    output_size::member_len("type"@, tool_support::json_string_len("json"@)),
                    output_size::member_len("value"@, output_size::fields_len(fields)),
                ],
            );
        },
    }
}

proof fn lemma_with_fields(
    members: Seq<Seq<char>>,
    lengths: Seq<nat>,
    name: Seq<char>,
    fields: Seq<(Seq<char>, FieldValueView)>,
)
    requires
        members.len() == lengths.len(),
        forall|i: int| 0 <= i < members.len() ==> bytes(#[trigger] members[i]) == lengths[i],
    ensures
        with_fields(members, name, fields).len() == output_size::with_fields(
            lengths,
            name,
            fields,
        ).len(),
        forall|i: int|
            0 <= i < with_fields(members, name, fields).len() ==> bytes(
                #[trigger] with_fields(members, name, fields)[i],
            ) == output_size::with_fields(lengths, name, fields)[i],
{
    lemma_fields(fields);
    lemma_member(name, fields_text(fields));
}

/// The length that is counted for an output is the number of bytes of its JSON text.
pub proof fn law_outputs_are_measured(output: OutputView)
    ensures
        output_size::output_len(output) == bytes(output_text(output)),
{
    law_json_strings_are_measured("success"@);
    law_json_strings_are_measured("failure"@);
    lemma_member("status"@, string_text("success"@));
    lemma_member("status"@, string_text("failure"@));
    match output {
        OutputView::Success { content, metadata, extensions } => {
            let pieces = content.map_values(|piece: ContentView| content_text(piece));
            let sizes = content.map_values(|piece: ContentView| output_size::content_len(piece));
            assert forall|i: int| 0 <= i < pieces.len() implies bytes(#[trigger] pieces[i])
                == sizes[i] by {
                lemma_content(content[i]);
            }
            lemma_listed(pieces, sizes);
            lemma_member("content"@, array_text(pieces));
            let members = seq![
                member_text("status"@, string_text("success"@)),
                member_text("content"@, array_text(pieces)),
            ];
            let lengths = seq![
                output_size::member_len("status"@, tool_support::json_string_len("success"@)),
                output_size::member_len("content"@, output_size::listed_len(sizes)),
            ];
            lemma_with_fields(members, lengths, "metadata"@, metadata);
            let more = with_fields(members, "metadata"@, metadata);
            let longer = output_size::with_fields(lengths, "metadata"@, metadata);
            lemma_with_fields(more, longer, "extensions"@, extensions);
            lemma_listed(
                with_fields(more, "extensions"@, extensions),
                output_size::with_fields(longer, "extensions"@, extensions),
            );
        },
        OutputView::Failure { error, extensions } => {
            law_json_strings_are_measured(error.code);
            law_json_strings_are_measured(error.message);
            lemma_simple(error.retryable, 0);
            lemma_member("code"@, string_text(error.code));
            lemma_member("message"@, string_text(error.message));
            lemma_member("retryable"@, flag_text(error.retryable));
            let parts = seq![
                member_text("code"@, string_text(error.code)),
                member_text("message"@, string_text(error.message)),
                member_text("retryable"@, flag_text(error.retryable)),
            ];
            let sizes = seq![
                output_size::member_len("code"@, tool_support::json_string_len(error.code)),
                output_size::member_len("message"@, tool_support::json_string_len(error.message)),
                output_size::member_len("retryable"@, output_size::flag_len(error.retryable)),
            ];
            lemma_listed(parts, sizes);
            lemma_member("error"@, object_text(parts));
            let members = seq![
                member_text("status"@, string_text("failure"@)),
                member_text("error"@, object_text(parts)),
            ];
            let lengths = seq![
                output_size::member_len("status"@, tool_support::json_string_len("failure"@)),
                output_size::member_len("error"@, output_size::listed_len(sizes)),
            ];
            lemma_with_fields(members, lengths, "extensions"@, extensions);
            lemma_listed(
                with_fields(members, "extensions"@, extensions),
                output_size::with_fields(lengths, "extensions"@, extensions),
            );
        },
    }
}

/// An output that takes no more than 65536 bytes as JSON, and every failure, is handed
/// out as it is. Of a longer one the texts of the content stay as they are, and each
/// text of the metadata keeps its beginning: all of it where it takes no more than 2048
/// bytes, and no more than that otherwise.
pub proof fn law_outputs_are_handed_out(output: OutputView, at: int)
    ensures
        ({
            let shown = output_size::finalized(output);
            &&& bytes(output_text(output)) <= 65536 || output is Failure ==> shown == output
            &&& output matches OutputView::Success { content, metadata, extensions } ==> {
                &&& shown matches OutputView::Success {
                    content: shown_content,
                    metadata: shown_metadata,
                    extensions: shown_extensions,
                }
                &&& shown_extensions == extensions
                &&& shown_content.len() == content.len()
                &&& shown_metadata.len() == metadata.len()
                &&& 0 <= at < content.len() && content[at] is Text ==> shown_content[at]
                    == content[at]
                &&& 0 <= at < metadata.len() ==> shown_metadata[at].0 == metadata[at].0
                &&& 0 <= at < metadata.len() ==> match metadata[at].1 {
                    FieldValueView::Text(whole) => {
                        &&& shown_metadata[at].1 matches FieldValueView::Text(kept)
                        &&& kept.is_prefix_of(whole)
                        &&& bytes(string_text(whole)) <= 2048 ==> kept == whole
                        &&& bytes(output_text(output)) > 65536 ==> bytes(string_text(kept)) <= 2048
                    },
                    FieldValueView::Flag(_) => shown_metadata[at].1 == metadata[at].1,
                    FieldValueView::Number(_) => shown_metadata[at].1 == metadata[at].1,
                    FieldValueView::Signed(_) => shown_metadata[at].1 == metadata[at].1,
                    _ => true,
                }
            }
        }),
{
    law_outputs_are_measured(output);
    if let OutputView::Success { content, metadata, extensions } = output {
        if 0 <= at < metadata.len() {
            if let FieldValueView::Text(whole) = metadata[at].1 {
                let kept = tool_support::json_prefix(whole, 2048);
                tool_support::law_cut_texts_fit_their_limit(whole, 2048);
                law_json_strings_are_measured(whole);
                law_json_strings_are_measured(kept);
                assert(whole.is_prefix_of(whole)) by {
                    assert(whole.subrange(0, whole.len() as int) =~= whole);
                }
            }
        }
    }
}

} // verus!
