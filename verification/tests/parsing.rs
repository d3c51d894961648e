use gitsect::changes::FileDiff;
use gitsect::error::GitMetricsError;
use gitsect::git_collector::GitCollector;
use gitsect::models::{Commit, FileChange};
use gitsect::tool::ToolOutcome;

fn plain() -> GitCollector {
    GitCollector::new(".", None, None, Vec::new())
}

fn filtered(patterns: &[&str]) -> GitCollector {
    GitCollector::new(".", None, None, patterns.iter().map(|p| p.to_string()).collect())
}

fn change(status: &str, filename: &str, additions: u32, deletions: u32) -> FileChange {
    FileChange {
        filename: filename.to_string(),
        status: status.to_string(),
        additions,
        deletions,
    }
}

fn diff(filename: &str, additions: u64, deletions: u64) -> FileDiff {
    FileDiff { filename: filename.to_string(), additions, deletions, total: additions + deletions }
}

#[test]
fn status_counts_follow_the_first_character_only() {
    let collector = plain();
    assert_eq!(collector.status_to_change_count("C087"), (1, 1));
    assert_eq!(collector.status_to_change_count("R"), (1, 1));
    assert_eq!(collector.status_to_change_count("Axyz"), (1, 0));
    assert_eq!(collector.status_to_change_count("D100"), (0, 1));
    assert_eq!(collector.status_to_change_count(""), (0, 0));
    assert_eq!(collector.status_to_change_count("T"), (0, 0));
    assert_eq!(collector.status_to_change_count("a"), (0, 0));
    assert_eq!(collector.status_to_change_count("XA"), (0, 0));
}

#[test]
fn star_dot_pattern_matches_by_suffix() {
    let collector = filtered(&["*.rs"]);
    assert!(collector.matches_file_pattern("main.rs"));
    assert!(!collector.matches_file_pattern("main.js"));
    assert!(collector.matches_file_pattern("deep/er/lib.rs"));
    assert!(collector.matches_file_pattern(".rs"));
    assert!(!collector.matches_file_pattern("rs"));
    assert!(!collector.matches_file_pattern("main.rsx"));
}

#[test]
fn directory_glob_matches_inside_the_directory_only() {
    let collector = filtered(&["src/*"]);
    assert!(collector.matches_file_pattern("src/lib.rs"));
    assert!(!collector.matches_file_pattern("test/main.rs"));
    assert!(!collector.matches_file_pattern("my_src/lib.rs"));
    assert!(collector.matches_file_pattern("src/"));
}

#[test]
fn glob_is_anchored_at_both_ends() {
    let collector = filtered(&["a*c"]);
    assert!(collector.matches_file_pattern("abc"));
    assert!(collector.matches_file_pattern("ac"));
    assert!(!collector.matches_file_pattern("xabc"));
    assert!(!collector.matches_file_pattern("abcx"));
}

#[test]
fn glob_dot_is_a_literal_dot() {
    let collector = filtered(&["a.b*"]);
    assert!(collector.matches_file_pattern("a.bc"));
    assert!(!collector.matches_file_pattern("aXbc"));
}

#[test]
fn exact_pattern_matches_only_that_name() {
    let collector = filtered(&["exact_file.txt"]);
    assert!(collector.matches_file_pattern("exact_file.txt"));
    assert!(!collector.matches_file_pattern("exact_file_2.txt"));
    assert!(!collector.matches_file_pattern("dir/exact_file.txt"));
    assert!(!collector.matches_file_pattern("exact_fileXtxt"));
}

#[test]
fn no_patterns_let_every_name_through() {
    let collector = plain();
    assert!(collector.matches_file_pattern("anything"));
    assert!(collector.matches_file_pattern(""));
}

#[test]
fn glob_that_is_no_regular_expression_matches_nothing() {
    let collector = filtered(&["(*"]);
    assert!(!collector.matches_file_pattern("(x"));
    assert!(!collector.matches_file_pattern("(*"));
}

#[test]
fn glob_regex_reads_as_the_engine_expects() {
    let pattern: Vec<char> = "src/*.rs".chars().collect();
    let regex: String = gitsect::patterns::glob_to_regex(&pattern).into_iter().collect();
    assert_eq!(regex, "^src/.*\\.rs$");
}

#[test]
fn pattern_verdict_reads_the_engine_outcome_only_for_globs() {
    let glob: Vec<char> = "src/*".chars().collect();
    let name: Vec<char> = "src/lib.rs".chars().collect();
    assert!(gitsect::patterns::pattern_matches_given(&glob, &name, Some(true)));
    assert!(!gitsect::patterns::pattern_matches_given(&glob, &name, Some(false)));
    assert!(!gitsect::patterns::pattern_matches_given(&glob, &name, None));
    let suffix: Vec<char> = "*.rs".chars().collect();
    assert!(gitsect::patterns::pattern_matches_given(&suffix, &name, None));
    let exact: Vec<char> = "src/lib.rs".chars().collect();
    assert!(gitsect::patterns::pattern_matches_given(&exact, &name, Some(false)));
}

#[test]
fn diff_stats_in_words() {
    let collector = plain();
    assert_eq!(collector.parse_diff_stats("1 insertion(+), 1 deletion(-)"), (1, 1));
    assert_eq!(collector.parse_diff_stats("  12 insertions(+)"), (12, 0));
    assert_eq!(collector.parse_diff_stats("3 files changed, 4 deletions(-)"), (0, 4));
    assert_eq!(collector.parse_diff_stats("+5 insertions(+)"), (5, 0));
    assert_eq!(collector.parse_diff_stats("007 deletions(-)"), (0, 7));
}

#[test]
fn diff_stats_words_without_a_number_fall_through() {
    let collector = plain();
    assert_eq!(collector.parse_diff_stats("some insertions(+)"), (1, 0));
    assert_eq!(collector.parse_diff_stats("0 insertions(+)"), (1, 0));
    assert_eq!(collector.parse_diff_stats("insertion"), (0, 0));
    assert_eq!(collector.parse_diff_stats("deletions"), (0, 0));
}

#[test]
fn diff_stats_as_histogram() {
    let collector = plain();
    assert_eq!(collector.parse_diff_stats("4 +++-"), (3, 1));
    assert_eq!(collector.parse_diff_stats("+"), (1, 0));
    assert_eq!(collector.parse_diff_stats("----"), (0, 4));
}

#[test]
fn diff_stats_as_total() {
    let collector = plain();
    assert_eq!(collector.parse_diff_stats("0"), (0, 0));
    assert_eq!(collector.parse_diff_stats("1"), (1, 0));
    assert_eq!(collector.parse_diff_stats("4294967295"), (2147483648, 2147483647));
    assert_eq!(collector.parse_diff_stats("4294967296"), (0, 0));
    assert_eq!(collector.parse_diff_stats(""), (0, 0));
    assert_eq!(collector.parse_diff_stats("Bin"), (0, 0));
    assert_eq!(collector.parse_diff_stats("12 34"), (6, 6));
}

#[test]
fn diff_stat_tiers_stand_alone() {
    let stats: Vec<char> = "5 insertions(+), 3 deletions(-)".chars().collect();
    assert_eq!(gitsect::diffstat::worded_counts_in(&stats, 0, stats.len()), (5, 3));
    assert_eq!(gitsect::diffstat::count_char_in(&stats, 0, stats.len(), '+'), 1);
    assert_eq!(gitsect::diffstat::split_evenly(11), (6, 5));
    assert_eq!(gitsect::diffstat::split_evenly(0), (0, 0));
    assert_eq!(gitsect::diffstat::leading_count_in(&stats, 0, stats.len()), Some(5));
    assert_eq!(gitsect::diffstat::leading_count_in(&stats, 1, stats.len()), None);
}

#[test]
fn diff_line_needs_exactly_one_bar() {
    let collector = plain();
    assert_eq!(
        collector.parse_diff_line(" src/lib.rs | 5 +++--"),
        Some(diff("src/lib.rs", 3, 2))
    );
    assert_eq!(collector.parse_diff_line("src/lib.rs 5 +++--"), None);
    assert_eq!(collector.parse_diff_line("a | b | c"), None);
    assert_eq!(collector.parse_diff_line(""), None);
    assert_eq!(collector.parse_diff_line("   "), None);
    assert_eq!(
        collector.parse_diff_line(" 3 files changed, 5 insertions(+), 3 deletions(-)"),
        None
    );
}

#[test]
fn diff_line_sums_the_counts() {
    let collector = plain();
    assert_eq!(
        collector.parse_diff_line("a.txt | 2 insertions(+), 7 deletions(-)"),
        Some(FileDiff { filename: "a.txt".to_string(), additions: 2, deletions: 7, total: 9 })
    );
    assert_eq!(collector.parse_diff_line("b.bin | Bin"), Some(diff("b.bin", 0, 0)));
    assert_eq!(collector.parse_diff_line("| 4"), Some(diff("", 2, 2)));
}

#[test]
fn diff_line_is_filtered_by_pattern() {
    let collector = filtered(&["*.rs"]);
    assert_eq!(collector.parse_diff_line("main.rs | 2 +-"), Some(diff("main.rs", 1, 1)));
    assert_eq!(collector.parse_diff_line("main.js | 2 +-"), None);
}

#[test]
fn current_changes_keep_the_last_line_of_a_file() {
    let collector = plain();
    let outcome = ToolOutcome::Exited {
        success: true,
        stdout: b" a.rs | 2 +-\n b.rs | 3 ++-\n a.rs | 4 ++++\n 2 files changed\n".to_vec(),
        stderr: Vec::new(),
    };
    assert_eq!(
        collector.get_current_changes(outcome),
        Ok(vec![diff("a.rs", 4, 0), diff("b.rs", 2, 1)])
    );
}

#[test]
fn current_changes_of_an_empty_summary_are_empty() {
    let collector = plain();
    let outcome = ToolOutcome::Exited {
        success: true,
        stdout: Vec::new(),
        stderr: b"ignored".to_vec(),
    };
    assert_eq!(collector.get_current_changes(outcome), Ok(Vec::new()));
}

#[test]
fn current_changes_fail_with_the_tool() {
    let collector = plain();
    let failed = ToolOutcome::Exited {
        success: false,
        stdout: b" a.rs | 2 +-\n".to_vec(),
        stderr: b"fatal: not a git repository\n".to_vec(),
    };
    assert_eq!(
        collector.get_current_changes(failed),
        Err(GitMetricsError::CommandError(
            "Git command failed: fatal: not a git repository\n".to_string()
        ))
    );
    let missing = ToolOutcome::NotStarted("No such file or directory".to_string());
    assert_eq!(
        collector.get_current_changes(missing),
        Err(GitMetricsError::Other(
            "Failed to execute git command: No such file or directory".to_string()
        ))
    );
}

#[test]
fn command_result_returns_stdout_as_it_is() {
    let outcome = ToolOutcome::Exited {
        success: true,
        stdout: b"text \n\n".to_vec(),
        stderr: b"warning".to_vec(),
    };
    assert_eq!(gitsect::tool::command_result(outcome), Ok("text \n\n".to_string()));
}

#[test]
fn command_result_replaces_bytes_that_are_not_text() {
    let outcome = ToolOutcome::Exited {
        success: true,
        stdout: vec![b'a', 0xff, b'b', 0xc3, 0xa9],
        stderr: Vec::new(),
    };
    assert_eq!(gitsect::tool::command_result(outcome), Ok("a\u{fffd}b\u{e9}".to_string()));
    let failed = ToolOutcome::Exited {
        success: false,
        stdout: Vec::new(),
        stderr: vec![0xfe, b'!'],
    };
    assert_eq!(
        gitsect::tool::command_result(failed),
        Err(GitMetricsError::CommandError("Git command failed: \u{fffd}!".to_string()))
    );
}

#[test]
fn result_of_text_follows_the_exit_status() {
    let exited = |success| ToolOutcome::Exited { success, stdout: Vec::new(), stderr: Vec::new() };
    assert_eq!(
        gitsect::tool::result_of_text(exited(true), "out".to_string(), "err".to_string()),
        Ok("out".to_string())
    );
    assert_eq!(
        gitsect::tool::result_of_text(exited(false), "out".to_string(), "err".to_string()),
        Err(GitMetricsError::CommandError("Git command failed: err".to_string()))
    );
    assert_eq!(
        gitsect::tool::result_of_text(
            ToolOutcome::NotStarted("why".to_string()),
            "out".to_string(),
            "err".to_string()
        ),
        Err(GitMetricsError::Other("Failed to execute git command: why".to_string()))
    );
}

#[test]
fn file_changes_skip_lines_without_a_tab() {
    let collector = plain();
    let lines = vec![
        "M\tsrc/lib.rs".to_string(),
        "".to_string(),
        "no tab here".to_string(),
        "  A\tnew.txt  ".to_string(),
        "R100\told.rs\tnew.rs".to_string(),
        "X\tweird".to_string(),
        "D\t".to_string(),
    ];
    assert_eq!(
        collector.parse_file_changes(&lines),
        vec![
            change("M", "src/lib.rs", 1, 1),
            change("A", "new.txt", 1, 0),
            change("R100", "old.rs", 1, 1),
            change("X", "weird", 0, 0),
        ]
    );
}

#[test]
fn file_changes_are_filtered_by_pattern() {
    let collector = filtered(&["*.rs"]);
    let lines = vec!["M\tsrc/lib.rs".to_string(), "A\tREADME.md".to_string()];
    assert_eq!(collector.parse_file_changes(&lines), vec![change("M", "src/lib.rs", 1, 1)]);
}

#[test]
fn single_commit_takes_four_header_lines() {
    let collector = plain();
    let block = "abc123\nJane Doe\nMon Jan 1 00:00:00 2024 +0000\nFix bug\n\nM\tsrc/lib.rs\nD\told.txt\nCOMMIT_END\nA\tafter.txt\n";
    assert_eq!(
        collector.parse_single_commit(block),
        Ok(Commit {
            hash: "abc123".to_string(),
            author: "Jane Doe".to_string(),
            date: "Mon Jan 1 00:00:00 2024 +0000".to_string(),
            message: "Fix bug".to_string(),
            files: vec![change("M", "src/lib.rs", 1, 1), change("D", "old.txt", 0, 1)],
        })
    );
}

#[test]
fn single_commit_reads_carriage_returns_as_line_ends() {
    let collector = plain();
    let block = "h\r\na\r\nd\r\nm\r\nCOMMIT_END\r\n";
    assert_eq!(
        collector.parse_single_commit(block),
        Ok(Commit {
            hash: "h".to_string(),
            author: "a".to_string(),
            date: "d".to_string(),
            message: "m".to_string(),
            files: Vec::new(),
        })
    );
}

#[test]
fn single_commit_without_terminator_is_malformed() {
    let collector = plain();
    assert_eq!(
        collector.parse_single_commit("h\na\nd\nm\nM\tf\n"),
        Err(GitMetricsError::Other("Malformed commit data: no COMMIT_END marker".to_string()))
    );
    assert_eq!(
        collector.parse_single_commit(""),
        Err(GitMetricsError::Other("Malformed commit data: no COMMIT_END marker".to_string()))
    );
    assert_eq!(
        collector.parse_single_commit("h\na\nd\nm\n COMMIT_END\n"),
        Err(GitMetricsError::Other("Malformed commit data: no COMMIT_END marker".to_string()))
    );
}

#[test]
fn single_commit_with_few_header_lines_is_malformed() {
    let collector = plain();
    assert_eq!(
        collector.parse_single_commit("h\na\nd\nCOMMIT_END\nx\ny\n"),
        Err(GitMetricsError::Other("Not enough lines in commit data".to_string()))
    );
    assert_eq!(
        collector.parse_single_commit("COMMIT_END"),
        Err(GitMetricsError::Other("Not enough lines in commit data".to_string()))
    );
}

#[test]
fn commit_data_drops_malformed_blocks_and_keeps_the_order() {
    let collector = plain();
    let data = "noise before\nCOMMIT_START\nh1\na1\nd1\nm1\nM\tx.rs\nCOMMIT_END\n\
COMMIT_START\nh2\na2\nd2\nno end here\n\
COMMIT_START\nh3\nCOMMIT_END\n\
COMMIT_START\nh4\na4\nd4\nm4\nCOMMIT_END\n";
    let commits = collector.parse_commit_data(data);
    assert_eq!(commits.len(), 2);
    assert_eq!(commits[0].hash, "h1");
    assert_eq!(commits[0].files, vec![change("M", "x.rs", 1, 1)]);
    assert_eq!(commits[1].hash, "h4");
    assert!(commits[1].files.is_empty());
}

#[test]
fn commit_data_without_a_start_marker_holds_no_commit() {
    let collector = plain();
    assert!(collector.parse_commit_data("").is_empty());
    assert!(collector.parse_commit_data("h\na\nd\nm\nCOMMIT_END\n").is_empty());
    assert!(collector.parse_commit_data("COMMIT_START h\na\nd\nm\nCOMMIT_END\n").is_empty());
}

#[test]
fn commit_data_with_filters_drops_commits_without_matching_files() {
    let collector = filtered(&["*.rs"]);
    let data = "COMMIT_START\nh1\na\nd\nm\nM\tREADME.md\nCOMMIT_END\n\
COMMIT_START\nh2\na\nd\nm\nM\tREADME.md\nA\tmain.rs\nCOMMIT_END\n\
COMMIT_START\nh3\na\nd\nm\nCOMMIT_END\n";
    let commits = collector.parse_commit_data(data);
    assert_eq!(commits.len(), 1);
    assert_eq!(commits[0].hash, "h2");
    assert_eq!(commits[0].files, vec![change("A", "main.rs", 1, 0)]);
}

#[test]
fn error_messages_name_the_kind_of_failure() {
    assert_eq!(GitMetricsError::IoError("disk full".to_string()).message(), "IO error: disk full");
    assert_eq!(
        GitMetricsError::SerializationError("bad value".to_string()).message(),
        "Serialization error: bad value"
    );
    assert_eq!(
        GitMetricsError::CommandError("exit 1".to_string()).message(),
        "Command error: exit 1"
    );
    assert_eq!(GitMetricsError::Other("plain".to_string()).message(), "plain");
}
