//! The parts that the tools are made of: shell words, paths, texts and walks.

use young_agent::io_failure::{ErrorKind, IoFailure};
use young_agent::literal_pattern::LiteralPattern;
use young_agent::path::{
    join_path, normalize_path, path_file_name, path_has_parent_step, path_is_absolute,
    path_is_within, path_parent, same_path, windows_join_path, windows_path_is_absolute,
    windows_path_parent,
};
use young_agent::search::{query_pattern, FileSearch, SearchResults};
use young_agent::search_line::LineState;
use young_agent::shell::{ParsedShellCommand, ShellParseError, MAX_POLICY_WORDS};
use young_agent::text::{
    byte_len, decimal, pad_zeros, parse_usize, split_inclusive_lines, split_lines, split_words,
};
use young_agent::tool::ToolOutput;
use young_agent::tool_support::{
    display_relative_path, failure, truncate_json_string, truncate_utf8,
};
use young_agent::utf8::Utf8Stream;
use young_agent::walk::{DirectoryEntry, DirectoryWalk, EntryKind, WalkAction};
use young_agent::workspace::{
    after_staging_failure, staging_path, StagingStep, MAX_STAGING_ATTEMPTS,
};

fn parsed(line: &str) -> ParsedShellCommand {
    match ParsedShellCommand::parse(line) {
        Ok(parsed) => parsed,
        Err(error) => panic!("{line:?} should parse: {error:?}"),
    }
}

#[test]
fn shell_lines_are_cut_into_commands_and_words() {
    let line = parsed("cargo test --workspace && printf '%s\\n' \"a b\"; pwd");
    assert_eq!(
        line.commands,
        vec![
            vec!["cargo", "test", "--workspace"],
            vec!["printf", "%s\\n", "a b"],
            vec!["pwd"],
        ]
    );
    assert!(!line.has_background);
    assert!(!line.has_redirection);
    assert!(!line.has_dynamic_expansion);
}

#[test]
fn quoted_words_are_read_back() {
    let words = ["rm -rf /", "$(touch x)", "a\\\n\"b\"", "", "~;&|<>*"];
    let line = words.map(|word| format!("'{word}'")).join(" ");
    let read = parsed(&line);
    assert_eq!(read.commands, vec![words.to_vec()]);
    assert!(!read.has_pathname_expansion);
    assert!(!read.has_unclassified_syntax);
    assert!(!read.has_comment);
}

#[test]
fn shell_syntax_is_noticed() {
    assert!(parsed("sleep 30 &").has_background);
    assert!(parsed("pwd > out").has_redirection);
    assert!(parsed("echo $HOME").has_dynamic_expansion);
    assert!(parsed("cat *.rs").has_pathname_expansion);
    assert!(parsed("pwd # here").has_comment);
    assert!(parsed("(pwd)").has_dynamic_expansion);
    assert!(parsed("pwd \\").has_unclassified_syntax);
    for line in ["'open", "\"open", "pwd &&", "| pwd", ""] {
        assert!(
            matches!(ParsedShellCommand::parse(line), Err(ShellParseError::Malformed)),
            "{line:?}"
        );
    }
    let long = vec!["x"; MAX_POLICY_WORDS + 1].join(" ");
    assert!(matches!(
        ParsedShellCommand::parse(&long),
        Err(ShellParseError::TooComplex)
    ));
}

#[test]
fn paths_are_taken_apart() {
    assert!(path_is_absolute("/a"));
    assert!(!path_is_absolute("a/b"));
    assert_eq!(join_path("/a", "b"), "/a/b");
    assert_eq!(join_path("/a", "/b"), "/b");
    assert_eq!(normalize_path("/a/./b/../c//d/"), "/a/c/d");
    assert_eq!(normalize_path("/../a"), "/a");
    assert_eq!(path_file_name("/a/b.txt"), Some("b.txt".to_string()));
    assert_eq!(path_file_name("/"), None);
    assert_eq!(path_parent("/a/b"), Some("/a".to_string()));
    assert_eq!(path_parent("/"), None);
    assert!(path_is_within("/a/b/c", "/a/b"));
    assert!(!path_is_within("/a/bc", "/a/b"));
    assert!(same_path("/a//b/", "/a/b"));
    assert!(path_has_parent_step("a/../b"));
    assert!(!path_has_parent_step("a..b/c"));
}

#[test]
fn texts_are_cut_on_character_boundaries() {
    assert_eq!(truncate_utf8("a\u{754c}b", 3), "a");
    assert_eq!(truncate_utf8("a\u{754c}b", 4), "a\u{754c}");
    assert_eq!(truncate_json_string("a\"b", 5), ("a\"".to_string(), true));
    assert_eq!(truncate_json_string("a\"b", 6), ("a\"b".to_string(), false));
    assert_eq!(truncate_json_string("\0\0", 8), ("\0".to_string(), true));
    assert_eq!(byte_len("a\u{754c}"), 4);
    assert_eq!(display_relative_path(""), ".");
}

#[test]
fn failure_messages_are_bounded() {
    let ToolOutput::Failure { error, extensions } = failure("code", &"\n".repeat(9000), true)
    else {
        panic!("a failure is a failure");
    };
    assert_eq!(error.message.len(), 4095);
    assert!(error.retryable);
    assert!(extensions.is_empty());
}

#[test]
fn texts_are_split_into_lines_and_words() {
    assert_eq!(split_inclusive_lines("a\nb\r\nc"), ["a\n", "b\r\n", "c"]);
    assert_eq!(split_inclusive_lines("a\n"), ["a\n"]);
    assert_eq!(split_lines("a\r\nb\n"), ["a", "b"]);
    assert_eq!(split_words(" a \t b\u{2003}c "), ["a", "b", "c"]);
    let text = "one\n\ntwo";
    assert_eq!(split_inclusive_lines(text).concat(), text);
}

#[test]
fn numbers_are_written_and_read() {
    assert_eq!(decimal(0), "0");
    assert_eq!(decimal(u128::MAX), u128::MAX.to_string());
    assert_eq!(pad_zeros("7", 3), "007");
    assert_eq!(parse_usize("+12"), Some(12));
    assert_eq!(parse_usize("18446744073709551616"), None);
    assert_eq!(parse_usize(""), None);
}

#[test]
fn characters_may_come_in_pieces() {
    let bytes = "a\u{754c}b".as_bytes();
    for cut in 0..=bytes.len() {
        let mut stream = Utf8Stream::new();
        stream.feed(&bytes[..cut]);
        stream.feed(&bytes[cut..]);
        assert!(stream.is_valid());
    }
    let mut stream = Utf8Stream::new();
    stream.feed(&bytes[..2]);
    assert!(!stream.is_valid());
}

#[test]
fn a_file_is_searched_line_by_line() {
    let pattern = query_pattern("aab");
    let mut search = FileSearch::begin("file.txt", &pattern, SearchResults::new());
    for byte in b"aaab\naa\nb\n\naaab aab" {
        search.feed(&[*byte]);
    }
    let results = search.finish();
    assert!(!results.limit_reached());
}

#[test]
fn a_walk_goes_down_in_order() {
    let entry = |name: &str, kind: EntryKind| DirectoryEntry { name: name.to_string(), kind };
    let mut walk = DirectoryWalk::new();
    walk.enter(
        ".",
        vec![
            entry("b.txt", EntryKind::File),
            entry("a", EntryKind::Directory),
            entry(".git", EntryKind::Directory),
            entry("link", EntryKind::Symlink),
        ],
    );
    assert_eq!(walk.next(), WalkAction::List("./a".to_string()));
    walk.enter("./a", vec![entry("c.txt", EntryKind::File)]);
    assert_eq!(walk.next(), WalkAction::Search("./a/c.txt".to_string()));
    assert_eq!(walk.next(), WalkAction::Search("./b.txt".to_string()));
    assert_eq!(walk.next(), WalkAction::Finished);
    assert_eq!(walk.directories_visited(), 2);
    assert!(!walk.truncated());
}

#[test]
fn taken_staging_names_are_followed_by_others() {
    let exists = || IoFailure::new(ErrorKind::AlreadyExists, "exists");
    assert_eq!(after_staging_failure(1, exists()), StagingStep::TryNext);
    assert_eq!(
        after_staging_failure(MAX_STAGING_ATTEMPTS, exists()),
        StagingStep::Fail(IoFailure::new(
            ErrorKind::AlreadyExists,
            "could not allocate a unique patch staging file"
        ))
    );
    let full = || IoFailure::new(ErrorKind::Other, "full");
    assert_eq!(after_staging_failure(1, full()), StagingStep::Fail(full()));
    assert_eq!(staging_path("src", 7, 1), "src/.young-agent-patch-7-1.tmp");
}

#[test]
fn the_order_of_a_listing_makes_no_difference() {
    let entry = |name: &str| DirectoryEntry { name: name.to_string(), kind: EntryKind::File };
    let mut walked = Vec::new();
    for names in [["b", "a", "c"], ["c", "b", "a"], ["a", "b", "c"]] {
        let mut walk = DirectoryWalk::new();
        walk.enter("x", names.iter().map(|name| entry(name)).collect());
        walked.push([walk.next(), walk.next(), walk.next(), walk.next()]);
    }
    assert_eq!(walked[0], walked[1]);
    assert_eq!(walked[0], walked[2]);
    assert_eq!(walked[0][0], WalkAction::Search("x/a".to_string()));
    assert_eq!(walked[0][2], WalkAction::Search("x/c".to_string()));
    assert_eq!(walked[0][3], WalkAction::Finished);
}

#[test]
fn parents_are_beginnings_of_their_paths() {
    for (path, expected) in [
        ("/a//b/run.jsonl", Some("/a//b")),
        ("/a/./b/run.jsonl", Some("/a/./b")),
        ("/a/b/", Some("/a")),
        ("/a/b/.", Some("/a")),
        ("a/./b", Some("a")),
        ("./b", Some(".")),
        ("a/..", Some("a")),
        ("//a", Some("/")),
        ("/a", Some("/")),
        ("a", Some("")),
        ("", None),
        ("//", None),
    ] {
        assert_eq!(path_parent(path), expected.map(str::to_string), "{path}");
    }
}

#[test]
fn windows_paths_have_drives_and_shares() {
    for (path, absolute) in [
        ("C:\\Users\\me\\AppData\\Local", true),
        ("c:/temp", true),
        ("\\\\server\\share", true),
        ("\\\\?\\C:\\temp", true),
        ("C:temp", false),
        ("\\temp", false),
        ("\\\\server", false),
        ("temp", false),
        ("/temp", false),
        ("", false),
    ] {
        assert_eq!(windows_path_is_absolute(path), absolute, "{path}");
    }
    assert_eq!(windows_join_path("C:\\state", "runs"), "C:\\state\\runs");
    assert_eq!(windows_join_path("C:\\", "runs"), "C:\\runs");
    assert_eq!(windows_join_path("C:\\state", "D:\\runs"), "D:\\runs");
    assert_eq!(windows_join_path("C:\\state", "\\runs"), "C:\\runs");
    assert_eq!(windows_join_path("C:", "runs"), "C:runs");
    assert_eq!(
        windows_path_parent("C:\\state\\runs\\run.jsonl"),
        Some("C:\\state\\runs".to_string())
    );
    assert_eq!(windows_path_parent("C:\\run.jsonl"), Some("C:\\".to_string()));
    assert_eq!(windows_path_parent("C:\\"), None);
    assert_eq!(
        windows_path_parent("\\\\server\\share\\run"),
        Some("\\\\server\\share\\".to_string())
    );
}

#[test]
fn a_line_is_matched_in_whatever_pieces_it_comes() {
    let pattern = LiteralPattern::new(b"needle");
    let mut line = LineState::new(&pattern);
    line.feed(&[b'x'; 8200], &pattern);
    line.feed(b"nee", &pattern);
    assert!(!line.matched());
    line.feed(b"dle tail", &pattern);
    assert!(line.matched());
    assert_eq!(line.bytes_seen(), 8211);
    assert_eq!(line.visible(), &[b'x'; 8192][..]);
    assert!(line.truncated());

    let mut short = LineState::new(&pattern);
    short.feed(b"neeneedl", &pattern);
    assert!(!short.matched());
    short.feed(b"e", &pattern);
    assert!(short.matched());
    assert_eq!(short.visible(), b"neeneedle");
    assert!(!short.truncated());
}
