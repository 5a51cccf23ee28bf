use dig::commit::{
    build_git_commit_args, format_commit_success_output, format_recent_commits,
    parse_git_log_output, CommitArgs, CommitEntry, CommitOptions, CommitOutcome,
};
use dig::error::CommandStatus;

#[test]
fn builds_commit_command_with_supported_passthrough_flags() {
    let options = CommitOptions {
        all: true,
        messages: vec!["first".into(), "second".into()],
        no_edit: true,
        amend: true,
    };

    assert_eq!(
        build_git_commit_args(&options),
        vec![
            "commit",
            "-a",
            "-m",
            "first",
            "-m",
            "second",
            "--no-edit",
            "--amend",
        ]
    );
}

#[test]
fn builds_minimal_commit_command_when_no_flags_are_set() {
    let options = CommitOptions::default();

    assert_eq!(build_git_commit_args(&options), vec!["commit"]);
}

#[test]
fn parses_git_log_output_into_commit_entries() {
    let log = "abc1234 first commit\n987fedc second commit\n";

    assert_eq!(
        parse_git_log_output(log),
        vec![
            CommitEntry {
                hash: "abc1234".into(),
                refs: vec![],
                is_head: false,
                title: "first commit".into(),
            },
            CommitEntry {
                hash: "987fedc".into(),
                refs: vec![],
                is_head: false,
                title: "second commit".into(),
            },
        ]
    );
}

#[test]
fn parses_blank_lines_and_hash_only_lines() {
    let log = "  \r\n deadbee\n\ncafe123  spaced  title \r\n";

    assert_eq!(
        parse_git_log_output(log),
        vec![
            CommitEntry {
                hash: "deadbee".into(),
                refs: vec![],
                is_head: false,
                title: "".into(),
            },
            CommitEntry {
                hash: "cafe123".into(),
                refs: vec![],
                is_head: false,
                title: " spaced  title".into(),
            },
        ]
    );
    assert!(parse_git_log_output("").is_empty());
}

#[test]
fn converts_cli_args_into_core_commit_options() {
    let args = CommitArgs {
        all: true,
        messages: vec!["message".into()],
        no_edit: true,
        amend: true,
    };

    assert_eq!(
        CommitOptions::from(args),
        CommitOptions {
            all: true,
            messages: vec!["message".into()],
            no_edit: true,
            amend: true,
        }
    );
}

#[test]
fn formats_recent_commits_for_cli_output() {
    let formatted = format_recent_commits(&vec![
        CommitEntry {
            hash: "abc1234".into(),
            refs: vec!["main".into(), "tag: v0.1.0".into()],
            is_head: true,
            title: "latest commit".into(),
        },
        CommitEntry {
            hash: "def5678".into(),
            refs: vec!["tag: v0.0.9".into()],
            is_head: false,
            title: "older commit".into(),
        },
    ]);

    assert_eq!(
        formatted,
        "\u{1b}[34m→\u{1b}[0m \u{1b}[33mabc1234\u{1b}[0m (\u{1b}[32mmain\u{1b}[0m, \u{1b}[33mtag: v0.1.0\u{1b}[0m): latest commit\n* \u{1b}[33mdef5678\u{1b}[0m (\u{1b}[33mtag: v0.0.9\u{1b}[0m): older commit"
    );
}

#[test]
fn formats_commit_output_with_summary_and_blank_line_before_log() {
    let outcome = CommitOutcome {
        status: CommandStatus { code: Some(0) },
        summary_line: Some("10 files changed, 2245 insertions(+)".into()),
        recent_commits: vec![CommitEntry {
            hash: "abc1234".into(),
            refs: vec!["main".into()],
            is_head: true,
            title: "latest commit".into(),
        }],
    };

    assert_eq!(
        format_commit_success_output(&outcome),
        "10 files changed, 2245 insertions(+)\n\n\u{1b}[34m→\u{1b}[0m \u{1b}[33mabc1234\u{1b}[0m (\u{1b}[32mmain\u{1b}[0m): latest commit"
    );
}

#[test]
fn commit_output_without_summary_or_log_is_empty() {
    let outcome = CommitOutcome {
        status: CommandStatus { code: Some(0) },
        summary_line: None,
        recent_commits: vec![],
    };
    assert_eq!(format_commit_success_output(&outcome), "");
}
