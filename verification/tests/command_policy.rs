//! The approval policy on concrete commands, in a workspace whose files are
//! given by the test.

use young_agent::command_policy::{
    CommandApprovalPolicy, CommandPolicyDecision, Outcome, PathAnswer, PathProbeBudget,
    PathRequest, PolicyStep,
};
use young_agent::io_failure::ErrorKind;
use young_agent::workspace::{CodingWorkspace, WorkspaceContext};

/// What stands in the workspace: files and directories, and links with the
/// place that each leads to (none where it dangles).
struct Files {
    present: Vec<String>,
    links: Vec<(String, Option<String>)>,
}

impl Files {
    fn new(present: &[&str]) -> Files {
        Files {
            present: present.iter().map(|path| path.to_string()).collect(),
            links: Vec::new(),
        }
    }

    fn link(&mut self, path: &str, target: Option<&str>) {
        let target = target.map(|target| target.to_string());
        self.links.push((path.to_string(), target));
    }

    fn answer(&self, request: &PathRequest) -> PathAnswer {
        match request {
            PathRequest::Inspect(path) => {
                if self.links.iter().any(|(link, _)| link == path) {
                    PathAnswer::Symlink
                } else if self.present.iter().any(|entry| entry == path) {
                    PathAnswer::Present
                } else {
                    PathAnswer::Failed(ErrorKind::NotFound)
                }
            }
            PathRequest::Follow(path) => {
                match self.links.iter().find(|(link, _)| link == path) {
                    Some((_, Some(target))) => PathAnswer::Resolved(target.clone()),
                    _ => PathAnswer::Unresolved,
                }
            }
        }
    }

    fn decide(&self, root: &str, command: &str) -> CommandPolicyDecision {
        let workspace = CodingWorkspace::new(WorkspaceContext::new(root.to_string(), None));
        let mut answers = Vec::new();
        loop {
            match CommandApprovalPolicy.classify(&workspace, command, &answers) {
                PolicyStep::Decided(decision) => return decision,
                PolicyStep::Lookup(request) => answers.push(self.answer(&request)),
            }
        }
    }
}

/// The decision in the directory of a crate.
fn decide(command: &str) -> CommandPolicyDecision {
    Files::new(&["/workspace/Cargo.toml", "/workspace/src", "/workspace/tests"])
        .decide("/workspace", command)
}

#[test]
fn low_risk_read_and_validation_commands_are_allowed() {

    for command in [
        "pwd",
        "cargo check --workspace",
        "cargo test --workspace",
        "cargo clippy --workspace --all-targets",
        "cargo fmt --all -- --check",
        "rg --no-config approval src tests",
    ] {
        assert_eq!(
            decide(command),
            CommandPolicyDecision::Allow,
            "expected low-risk command to be allowed: {command}",
        );
    }
}

#[test]
fn side_effecting_and_uncertain_commands_require_an_informative_approval() {

    for (command, expected_reason_fragment) in [
        ("touch marker.txt", "mutate workspace files"),
        ("rm -rf target/debug", "destructive"),
        ("git reset --hard HEAD~1", "destructive"),
        ("cargo add anyhow", "dependencies"),
        ("npm install", "dependencies"),
        ("sleep 30 &", "background"),
        ("printf -v PATH .", "shell variable"),
        ("printf -vPATH .", "shell variable"),
        ("printf '%1000000000s' x", "amplify output"),
        ("printf '%*s' 1000000000 x", "amplify output"),
        ("printf -- '%1000000000s' x", "amplify output"),
        ("git status --short", "fsmonitor"),
        ("git ls-files /definitely-outside-workspace", "fsmonitor"),
        (
            "git grep approval /definitely-outside-workspace",
            "fsmonitor",
        ),
        (
            "git diff --no-textconv --no-ext-diff -- Cargo.toml",
            "fsmonitor",
        ),
        ("curl https://example.com", "not classified as low-risk"),
        (
            "rg approval src tests",
            "preprocessor from inherited configuration",
        ),
    ] {
        let CommandPolicyDecision::RequiresApproval { reason } =
            decide(command)
        else {
            panic!("expected approval for command: {command}");
        };
        assert!(
            reason.contains(expected_reason_fragment),
            "approval reason '{reason}' should describe command: {command}",
        );
    }
}

#[test]
fn malformed_and_clearly_unsafe_commands_are_rejected() {
    let oversized = "x".repeat(64 * 1024 + 1);
    let oversized_whitespace = " ".repeat(64 * 1024 + 1);

    for (command, expected_reason_fragment) in [
        ("", "must not be empty"),
        (oversized.as_str(), "65536 bytes"),
        (oversized_whitespace.as_str(), "65536 bytes"),
        ("sudo rm -rf target", "privilege elevation"),
        ("/usr/bin/sudo rm -rf target", "privilege elevation"),
        ("rm -rf /", "filesystem root"),
        ("rm -rf /./", "filesystem root"),
        ("/bin/rm -rf /", "filesystem root"),
        ("rm -rf /tmp/../*", "filesystem root"),
        ("find / -delete", "filesystem root"),
        ("/usr/bin/find / -delete", "filesystem root"),
        ("chmod -R 777 /", "filesystem root"),
        ("chown -R root /", "filesystem root"),
        ("env rm -rf /", "filesystem root"),
        ("env -i rm -rf /", "filesystem root"),
        ("env -iv rm -rf /", "filesystem root"),
        ("env -uFOO rm -rf /", "filesystem root"),
        ("env -P /usr/bin rm -rf /", "filesystem root"),
        ("env -- FOO=bar rm -rf /", "filesystem root"),
        ("env -- 1=foo rm -rf /", "filesystem root"),
        ("env -- FOO=bar sudo true", "privilege elevation"),
        ("env -uFOO sudo true", "privilege elevation"),
        (
            "env -S 'rm -rf /'",
            "unsupported transparent command wrapper syntax",
        ),
        ("command -- rm -rf /", "filesystem root"),
        ("command -p rm -rf /", "filesystem root"),
        ("exec rm -rf /", "filesystem root"),
        ("exec -c rm -rf /", "filesystem root"),
        (
            "env env env env env rm -rf /",
            "too many transparent command wrappers",
        ),
        ("cd ..", "outside the workspace"),
        ("echo 'unterminated", "malformed shell syntax"),
        ("; pwd", "malformed shell syntax"),
        ("pwd;;pwd", "malformed shell syntax"),
    ] {
        let CommandPolicyDecision::Reject { reason } = decide(command) else {
            panic!("expected command to be rejected: {command}");
        };
        assert!(
            reason.contains(expected_reason_fragment),
            "rejection reason '{reason}' should describe command: {command}",
        );
    }
}

#[test]
fn shell_composition_cannot_hide_a_risky_operation() {

    for (command, expected_reason_fragment) in [
        (
            "cargo test --workspace && touch marker.txt",
            "mutate workspace files",
        ),
        ("pwd > marker.txt", "redirects input or output"),
        ("echo $(touch marker.txt)", "dynamic shell expansion"),
        ("echo `touch marker.txt`", "dynamic shell expansion"),
        ("cat *.rs", "dynamic shell expansion"),
        ("rg needle --pre 'touch marker.txt'", "executes a helper"),
        ("cargo test --workspace &", "background"),
        ("cargo test --workspace\nrm -rf target", "destructive"),
        ("git status --short | tee status.txt", "fsmonitor"),
    ] {
        let CommandPolicyDecision::RequiresApproval { reason } =
            decide(command)
        else {
            panic!("expected composed command to require approval: {command}");
        };
        assert!(
            reason.contains(expected_reason_fragment),
            "approval reason '{reason}' should describe command: {command}",
        );
    }
}

#[test]
fn unsupported_shell_syntax_fails_closed() {

    for command in [
        "cat <<EOF\nhello\nEOF",
        "cat <(pwd)",
        "MODE=check cargo test --workspace",
        "if true; then pwd; fi",
        "for file in Cargo.toml; do cat \"$file\"; done",
        "check() { pwd; }",
    ] {
        let reason = match decide(command) {
            CommandPolicyDecision::RequiresApproval { reason }
            | CommandPolicyDecision::Reject { reason } => reason,
            CommandPolicyDecision::Allow => {
                panic!("unsupported shell syntax must not be allowed: {command}")
            }
        };
        assert!(
            !reason.trim().is_empty(),
            "fail-closed decision should explain unsupported syntax: {command}",
        );
    }
}

#[test]
fn composed_read_and_validation_commands_remain_low_risk() {

    for command in [
        "rg --no-config approval src tests | head -n 20",
        "cargo test --workspace || cargo check --workspace",
        "printf '%s\\n' ready; pwd",
        "git branch --show-current",
        "sed -n '1,20p' Cargo.toml",
        "command -v cargo",
        "cargo metadata --no-deps",
        "cat '*.rs'",
    ] {
        assert_eq!(
            decide(command),
            CommandPolicyDecision::Allow,
            "expected composed low-risk command to be allowed: {command}",
        );
    }
}

#[test]
fn low_risk_programs_cannot_use_side_effecting_escape_hatches() {

    for (command, expected_reason_fragment) in [
        ("git diff --output=diff.txt", "mutate workspace files"),
        ("git diff -- Cargo.toml", "fsmonitor"),
        ("git log -p", "signature verification"),
        (
            "git log -p --author --no-textconv --no-ext-diff",
            "signature verification",
        ),
        (
            "git log -p -- --no-textconv --no-ext-diff",
            "signature verification",
        ),
        (
            "git log --no-textconv --no-ext-diff -p --show-signature",
            "signature verification",
        ),
        (
            "git log --no-textconv --no-ext-diff --format='%G?'",
            "signature verification",
        ),
        (
            "git log --no-textconv --no-ext-diff",
            "signature verification",
        ),
        (
            "git show --no-textconv --no-ext-diff HEAD",
            "signature verification",
        ),
        ("git show HEAD", "signature verification"),
        ("git grep -O less approval", "executes a helper"),
        ("git grep -Oless approval", "executes a helper"),
        (
            "git grep --open-files-in-pager=less approval",
            "executes a helper",
        ),
        (
            "git grep --open-files-in=less approval",
            "executes a helper",
        ),
        ("git diff --ext-diff", "executes a helper"),
        (
            "cargo test --config build.rustc-wrapper=./wrapper",
            "executes configured tooling",
        ),
        ("find . -fprint report.txt", "mutate workspace files"),
        ("file --compile -m magic", "mutate workspace files"),
        ("file --comp -m magic", "mutate workspace files"),
        ("file -Cm magic", "mutate workspace files"),
        ("file -z archive.zst", "executes a helper"),
        ("file -iZ archive.zst", "executes a helper"),
        ("file --uncompress archive.zst", "executes a helper"),
        (
            "file --uncompress-noreport archive.zst",
            "executes a helper",
        ),
        ("rg -z needle archive.gz", "executes a helper"),
        ("rg -iz needle archive.gz", "executes a helper"),
        ("rg --search-zip needle archive.gz", "executes a helper"),
        ("cargo clippy --fix", "mutate workspace files"),
        (
            "find . -fprintf report.txt '%p\\n'",
            "mutate workspace files",
        ),
        (
            "sed -n '1w report.txt' Cargo.toml",
            "mutate workspace files",
        ),
        ("sed -e'1w marker.txt' 1", "mutate workspace files"),
    ] {
        let CommandPolicyDecision::RequiresApproval { reason } =
            decide(command)
        else {
            panic!("expected escape hatch to require approval: {command}");
        };
        assert!(
            reason.contains(expected_reason_fragment),
            "approval reason '{reason}' should describe command: {command}",
        );
    }
}

#[test]
fn recursive_and_indirect_read_modes_require_approval() {

    for command in [
        "rg -L needle .",
        "rg --follow needle .",
        "grep -R needle .",
        "grep --dereference-recursive needle .",
        "find -L . -name '*.rs'",
        "find . -follow -name '*.rs'",
        "file --files-from paths.txt",
        "file -f paths.txt",
        "wc --files0-from=paths.txt",
        "find -files0-from paths.txt",
        "ls -LR .",
        "tail -F app.log",
    ] {
        assert!(
            matches!(
                decide(command),
                CommandPolicyDecision::RequiresApproval { .. }
            ),
            "expected risky read mode to require approval: {command}",
        );
    }
}

#[test]
fn path_bearing_options_cannot_hide_cross_workspace_inputs() {

    for command in [
        "rg -f/etc/patterns needle",
        "rg --file=/etc/patterns needle",
        "grep -nf/etc/patterns needle",
        "file -m/etc/magic Cargo.toml",
        "file -M/etc/magic Cargo.toml",
        "file -m Cargo.toml:/etc/magic Cargo.toml",
        "file --magic-file=Cargo.toml:/etc/magic Cargo.toml",
    ] {
        let CommandPolicyDecision::RequiresApproval { reason } =
            decide(command)
        else {
            panic!("expected cross-workspace option path approval: {command}");
        };
        assert!(reason.contains("outside the workspace"), "{reason}");
    }
}

#[test]
fn magic_file_path_lists_have_a_bounded_classification_budget() {
    let paths = |range: std::ops::Range<usize>| {
        range
            .map(|index| format!("missing-{index}"))
            .collect::<Vec<_>>()
            .join(":")
    };
    let at_limit = format!("file -m{} Cargo.toml", paths(0..255));
    let over_limit = format!(
        "file -m{} Cargo.toml; file -m{} Cargo.toml",
        paths(0..128),
        paths(128..256),
    );

    assert_eq!(
        decide(&at_limit),
        CommandPolicyDecision::Allow,
    );
    let CommandPolicyDecision::RequiresApproval { reason } =
        decide(&over_limit)
    else {
        panic!("an oversized magic-file path list must fail closed");
    };
    assert!(reason.contains("path inspection budget"), "{reason}");
}

#[test]
fn printf_format_reuse_has_a_bounded_low_risk_literal() {
    let at_limit = format!("printf 'missing/{}%s' a b", "x".repeat(1014));
    let over_limit = format!("printf 'missing/{}%s' a b", "x".repeat(1015));

    assert_eq!(
        decide(&at_limit),
        CommandPolicyDecision::Allow,
    );
    let CommandPolicyDecision::RequiresApproval { reason } =
        decide(&over_limit)
    else {
        panic!("a reusable large printf format must require approval");
    };
    assert!(reason.contains("amplify output"), "{reason}");
}

#[test]
fn commands_at_the_complexity_limits_remain_classifiable() {
    let thirty_two_commands = vec!["pwd"; 32].join("; ");
    let two_hundred_fifty_six_words = format!("printf {}", vec!["''"; 255].join(" "));

    for command in [thirty_two_commands, two_hundred_fifty_six_words] {
        assert_eq!(
            decide(&command),
            CommandPolicyDecision::Allow,
            "a command exactly at a complexity limit should remain allowed",
        );
    }
}

#[test]
fn commands_above_each_complexity_limit_are_rejected() {
    let thirty_three_commands = vec!["pwd"; 33].join("; ");
    let two_hundred_fifty_seven_words = format!("printf {}", vec!["''"; 256].join(" "));

    for command in [thirty_three_commands, two_hundred_fifty_seven_words] {
        let CommandPolicyDecision::Reject { reason } = decide(&command) else {
            panic!("a command above a complexity limit must be rejected");
        };
        assert!(reason.contains("too complex"), "{reason}");
    }
}

#[test]
fn non_posix_whitespace_does_not_change_the_program_identity() {

    for command in ["pwd\u{00a0}", "pwd\r", "pwd\u{000b}"] {
        let CommandPolicyDecision::RequiresApproval { reason } =
            decide(command)
        else {
            panic!("non-POSIX whitespace must remain part of the program name: {command:?}");
        };
        assert!(reason.contains("not classified as low-risk"), "{reason}");
    }
}

#[test]
fn explicit_cross_workspace_access_requires_approval() {
    let root = "/container/workspace";
    let outside = "/container/outside.txt";
    let mut files = Files::new(&[]);

    for command in [
        "cat ../outside.txt".to_string(),
        format!("cat {outside}"),
        format!("cat {outside}=ignored"),
        "cargo test --target-dir /container/outside-target=ignored".to_string(),
        "cat ~young/.ssh/config".to_string(),
    ] {
        let CommandPolicyDecision::RequiresApproval { reason } = files.decide(root, &command)
        else {
            panic!("expected cross-workspace approval for command: {command}");
        };
        assert!(reason.contains("outside the workspace"), "{reason}");
    }

    files.link("/container/workspace/outside-link", Some(outside));
    files.link("/container/workspace/dangling-outside-link", None);
    files.link("/container/workspace/safe\\q", Some(outside));
    files.link("/container/workspace/safeq", Some(outside));
    files.present.push("/container/workspace/-".to_string());

    for command in [
        "cat outside-link",
        "cat dangling-outside-link",
        "cat outside-link/not-created-yet",
        "cat \"safe\\q\"",
        "cat safe\\\nq",
        "cat -- -/../../outside.txt",
    ] {
        let CommandPolicyDecision::RequiresApproval { reason } = files.decide(root, command)
        else {
            panic!("expected approval for command: {command}");
        };
        assert!(reason.contains("outside the workspace"), "{reason}");
    }
}

#[test]
fn shared_deep_prefixes_cannot_multiply_workspace_path_inspections() {
    let parts: Vec<String> = (0..128).map(|index| format!("d{index}")).collect();
    let mut files = Files::new(&[]);
    for depth in 1..=128 {
        files
            .present
            .push(format!("/workspace/{}", parts[..depth].join("/")));
    }
    let relative = parts.join("/");
    let command = format!("file -m{relative}/missing-a:{relative}/missing-b missing-input");

    let CommandPolicyDecision::RequiresApproval { reason } = files.decide("/workspace", &command)
    else {
        panic!("component-level path probes must share one classification budget");
    };
    assert!(reason.contains("path inspection budget"), "{reason}");
}

#[test]
fn deep_missing_path_stops_at_its_first_missing_prefix() {
    let root = "/workspace";
    let candidate = format!("{root}/{}", vec!["missing"; 128].join("/"));
    let mut answers: Vec<PathAnswer> = Vec::new();

    let escaped = loop {
        let mut budget = PathProbeBudget::new();
        match budget.path_escapes_workspace(root, &candidate, &answers) {
            Outcome::Known(escaped) => break Some(escaped),
            Outcome::Exhausted => break None,
            Outcome::Pending(_) => answers.push(PathAnswer::Failed(ErrorKind::NotFound)),
        }
    };

    assert_eq!(escaped, Some(false));
    assert_eq!(answers.len(), 1);
}

#[test]
fn a_link_inside_the_workspace_stays_allowed() {
    let mut files = Files::new(&["/workspace/notes", "/workspace/notes/today.txt"]);
    files.link("/workspace/latest", Some("/workspace/notes/today.txt"));
    assert_eq!(
        files.decide("/workspace", "cat latest"),
        CommandPolicyDecision::Allow
    );
}

#[test]
fn an_inaccessible_path_fails_closed() {
    let workspace = CodingWorkspace::new(WorkspaceContext::new("/workspace".to_string(), None));
    let answers = [PathAnswer::Failed(ErrorKind::PermissionDenied)];
    let PolicyStep::Decided(CommandPolicyDecision::RequiresApproval { reason }) =
        CommandApprovalPolicy.classify(&workspace, "cat secret.txt", &answers)
    else {
        panic!("a path that cannot be inspected must require approval");
    };
    assert!(reason.contains("outside the workspace"), "{reason}");
}

#[test]
fn a_lookup_names_the_path_it_is_about() {
    let workspace = CodingWorkspace::new(WorkspaceContext::new("/workspace".to_string(), None));
    assert_eq!(
        CommandApprovalPolicy.classify(&workspace, "cat src/lib.rs", &[]),
        PolicyStep::Lookup(PathRequest::Inspect("/workspace/src".to_string()))
    );
    assert_eq!(
        CommandApprovalPolicy.classify(&workspace, "cat src/lib.rs", &[PathAnswer::Symlink]),
        PolicyStep::Lookup(PathRequest::Follow("/workspace/src".to_string()))
    );
}

#[test]
fn the_arguments_of_a_call_are_classified_from_their_text() {
    let workspace = CodingWorkspace::new(WorkspaceContext::new("/workspace".to_string(), None));
    let policy = CommandApprovalPolicy;
    assert_eq!(
        policy.classify_call(&workspace, "{\"command\":\"pwd\"}", &[]),
        PolicyStep::Decided(CommandPolicyDecision::Allow)
    );
    for (arguments, expected) in [
        ("[]", "run_command arguments must be an object"),
        ("{\"command\":", "run_command arguments must be an object"),
        ("{}", "run_command requires a string 'command' argument"),
        (
            "{\"command\":[\"pwd\"]}",
            "run_command requires a string 'command' argument",
        ),
        (
            "{\"command\":\"pwd\",\"cwd\":\"/\"}",
            "run_command does not accept unknown arguments",
        ),
        ("{\"command\":\"  \"}", "command must not be empty"),
    ] {
        let PolicyStep::Decided(CommandPolicyDecision::Reject { reason }) =
            policy.classify_call(&workspace, arguments, &[])
        else {
            panic!("expected a rejection for {arguments}");
        };
        assert_eq!(reason, expected);
    }
}

#[test]
fn a_decision_stays_whatever_is_answered_later() {
    let workspace = CodingWorkspace::new(WorkspaceContext::new("/workspace".to_string(), None));
    let missing = PathAnswer::Failed(ErrorKind::NotFound);
    let decided =
        CommandApprovalPolicy.classify(&workspace, "cat notes.txt", &[missing.clone()]);
    let later = CommandApprovalPolicy.classify(
        &workspace,
        "cat notes.txt",
        &[missing, PathAnswer::Symlink],
    );
    assert_eq!(decided, PolicyStep::Decided(CommandPolicyDecision::Allow));
    assert_eq!(later, decided);
}

#[test]
fn the_members_of_a_call_are_classified_like_its_text() {
    let workspace = CodingWorkspace::new(WorkspaceContext::new("/workspace".to_string(), None));
    let policy = CommandApprovalPolicy;
    let command = |value: &str| {
        Some(vec![("command".to_string(), Some(value.to_string()))])
    };
    assert_eq!(
        policy.classify_members(&workspace, command("pwd"), &[]),
        PolicyStep::Decided(CommandPolicyDecision::Allow)
    );
    assert_eq!(
        policy.classify_members(&workspace, command("rm -rf /"), &[]),
        policy.classify_call(&workspace, "{\"command\":\"rm -rf /\"}", &[])
    );
    assert_eq!(
        policy.classify_members(&workspace, None, &[]),
        PolicyStep::Decided(CommandPolicyDecision::Reject {
            reason: "run_command arguments must be an object".to_string(),
        })
    );
}

#[test]
fn parts_of_allowed_compositions_are_allowed() {
    for (first, second) in [
        ("pwd", "cargo check --workspace"),
        ("rg --no-config approval src tests", "ls src"),
        ("cat Cargo.toml | head", "true && wc Cargo.toml"),
        ("touch marker.txt", "pwd"),
        ("pwd", "sudo ls"),
        ("ls ..", "pwd"),
    ] {
        let whole = decide(&format!("{first}; {second}"));
        let parts = [decide(first), decide(second)];
        if whole == CommandPolicyDecision::Allow {
            assert_eq!(
                parts,
                [CommandPolicyDecision::Allow, CommandPolicyDecision::Allow]
            );
        } else {
            assert_ne!(
                parts,
                [CommandPolicyDecision::Allow, CommandPolicyDecision::Allow]
            );
        }
    }
    assert_eq!(
        decide("pwd; cargo check --workspace"),
        CommandPolicyDecision::Allow
    );
}
