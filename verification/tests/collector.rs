use gitsect::git_collector::GitCollector;
use tempfile::tempdir;

#[test]
fn test_status_to_change_count() {
    let collector = GitCollector::new(".", None, None, Vec::new());

    assert_eq!(collector.status_to_change_count("A"), (1, 0));
    assert_eq!(collector.status_to_change_count("D"), (0, 1));
    assert_eq!(collector.status_to_change_count("M"), (1, 1));
    assert_eq!(collector.status_to_change_count("R100"), (1, 1));
    assert_eq!(collector.status_to_change_count("??"), (0, 0));
}

#[test]
fn test_matches_file_pattern() {
    let patterns = vec![
        "*.rs".to_string(),
        "src/*".to_string(),
        "exact_file.txt".to_string(),
    ];

    let collector = GitCollector::new(".", None, None, patterns);

    assert!(collector.matches_file_pattern("main.rs"));
    assert!(collector.matches_file_pattern("src/lib.rs"));
    assert!(collector.matches_file_pattern("exact_file.txt"));

    assert!(!collector.matches_file_pattern("main.js"));
    assert!(!collector.matches_file_pattern("exact_file_2.txt"));

    // A name under another directory gets through `*.rs` by its suffix; it is
    // `src/*` that does not accept it.
    assert!(collector.matches_file_pattern("test/main.rs"));
    let only_src = GitCollector::new(".", None, None, vec!["src/*".to_string()]);
    assert!(!only_src.matches_file_pattern("test/main.rs"));
}

#[test]
fn test_parse_diff_stats() {
    let collector = GitCollector::new(".", None, None, Vec::new());

    assert_eq!(collector.parse_diff_stats("5 insertions(+), 3 deletions(-)"), (5, 3));
    assert_eq!(collector.parse_diff_stats("2 insertions(+)"), (2, 0));
    assert_eq!(collector.parse_diff_stats("7 deletions(-)"), (0, 7));
    assert_eq!(collector.parse_diff_stats("++--"), (2, 2));
    assert_eq!(collector.parse_diff_stats("10 "), (5, 5));
    assert_eq!(collector.parse_diff_stats("11 "), (6, 5));
}

#[test]
fn test_get_cache_key() {
    let dir = tempdir().unwrap();
    let repo_path = dir.path().to_str().unwrap();

    let collector1 = GitCollector::new(repo_path, Some(10), None, Vec::new());
    let collector2 = GitCollector::new(repo_path, Some(10), None, Vec::new());
    let collector3 = GitCollector::new(repo_path, Some(20), None, Vec::new());

    let key1 = collector1.get_cache_key(None);
    let key2 = collector2.get_cache_key(None);
    let key3 = collector3.get_cache_key(None);

    assert_eq!(key1, key2);
    assert_ne!(key1, key3);
}

#[test]
fn cache_key_is_the_md5_of_the_key_text() {
    let collector = GitCollector::new("/repo", Some(10), None, Vec::new());
    assert_eq!(collector.get_cache_key(None), "eabd4d4960f1cd0d8b067e5700cb3f15");
    let other = GitCollector::new("/repo", Some(20), None, Vec::new());
    assert_eq!(other.get_cache_key(None), "f1ce1f6c64d10086e9d7c5b2ba94d440");
    let unlimited = GitCollector::new("/repo", None, None, Vec::new());
    assert_eq!(unlimited.get_cache_key(None), "0cd2540fe8a38b5f58b5527cdcb3d358");
}

#[test]
fn cache_key_joins_patterns_with_commas() {
    let collector = GitCollector::new(
        "/repo",
        None,
        Some(7),
        vec!["*.rs".to_string(), "src/*".to_string()],
    );
    assert_eq!(collector.get_cache_key(None), "721233bd839e84ed2da5c13cacd74921");
}

#[test]
fn cache_key_prefers_the_canonical_path() {
    let collector = GitCollector::new(".", None, None, Vec::new());
    assert_eq!(collector.get_cache_key(None), "208cb88871f0ce6b8968caee33f45221");
    assert_eq!(collector.get_cache_key(Some("/repo")), "0cd2540fe8a38b5f58b5527cdcb3d358");
}

#[test]
fn cache_key_hashes_the_utf8_bytes() {
    let collector = GitCollector::new("/r\u{e9}po", None, None, Vec::new());
    assert_eq!(collector.get_cache_key(None), "c586b83a1785744d0ab35006a9345356");
}

#[test]
fn cache_key_has_32_lower_case_hex_digits() {
    let collector = GitCollector::new("/some/where", Some(3), Some(4), vec!["a".to_string()]);
    let key = collector.get_cache_key(None);
    assert_eq!(key.len(), 32);
    assert!(key.chars().all(|c| c.is_ascii_digit() || ('a'..='f').contains(&c)));
}

#[test]
fn cache_key_changes_with_each_parameter() {
    let base = GitCollector::new("/repo", Some(10), Some(5), vec!["*.rs".to_string()]);
    let key = base.get_cache_key(None);
    let path = GitCollector::new("/other", Some(10), Some(5), vec!["*.rs".to_string()]);
    let limit = GitCollector::new("/repo", Some(11), Some(5), vec!["*.rs".to_string()]);
    let window = GitCollector::new("/repo", Some(10), None, vec!["*.rs".to_string()]);
    let patterns = GitCollector::new("/repo", Some(10), Some(5), vec!["*.js".to_string()]);
    assert_ne!(key, path.get_cache_key(None));
    assert_ne!(key, limit.get_cache_key(None));
    assert_ne!(key, window.get_cache_key(None));
    assert_ne!(key, patterns.get_cache_key(None));
}

#[test]
fn cache_key_cannot_tell_joined_patterns_apart() {
    let one = GitCollector::new("/repo", None, None, vec!["a,b".to_string()]);
    let two = GitCollector::new("/repo", None, None, vec!["a".to_string(), "b".to_string()]);
    assert_eq!(one.get_cache_key(None), two.get_cache_key(None));
}

#[test]
fn cache_file_name_is_the_key_with_an_extension() {
    let collector = GitCollector::new("/repo", Some(10), None, Vec::new());
    assert_eq!(
        collector.get_cache_file_path(None),
        "eabd4d4960f1cd0d8b067e5700cb3f15.json"
    );
}

#[test]
fn commit_args_hold_window_then_limit() {
    let collector = GitCollector::new(".", Some(5), Some(30), Vec::new());
    assert_eq!(
        collector.commit_args_with(Some("2024-01-01".to_string())),
        vec!["--since=2024-01-01".to_string(), "-n".to_string(), "5".to_string()]
    );
    assert_eq!(
        collector.commit_args_with(None),
        vec!["--since=2000-01-01".to_string(), "-n".to_string(), "5".to_string()]
    );
}

#[test]
fn commit_args_leave_out_what_is_not_configured() {
    let none = GitCollector::new(".", None, None, Vec::new());
    assert!(none.commit_args_with(Some("2024-01-01".to_string())).is_empty());
    let limit = GitCollector::new(".", Some(0), None, Vec::new());
    assert_eq!(limit.commit_args_with(None), vec!["-n".to_string(), "0".to_string()]);
    let big = GitCollector::new(".", Some(4294967295), None, Vec::new());
    assert_eq!(big.commit_args_with(None), vec!["-n".to_string(), "4294967295".to_string()]);
}

#[test]
fn build_commit_args_counts_back_from_today() {
    let collector = GitCollector::new(".", Some(7), Some(1), Vec::new());
    let args = collector.build_commit_args();
    assert_eq!(args.len(), 3);
    assert!(args[0].starts_with("--since="));
    let date = &args[0]["--since=".len()..];
    assert_eq!(date.len(), 10);
    assert_ne!(date, "2000-01-01");
    let bytes = date.as_bytes();
    assert_eq!(bytes[4], b'-');
    assert_eq!(bytes[7], b'-');
    assert!(date.chars().filter(|c| c.is_ascii_digit()).count() == 8);
    assert_eq!(args[1], "-n");
    assert_eq!(args[2], "7");
}

#[test]
fn build_commit_args_falls_back_when_the_date_is_out_of_range() {
    let collector = GitCollector::new(".", None, Some(4294967295), Vec::new());
    assert_eq!(collector.build_commit_args(), vec!["--since=2000-01-01".to_string()]);
}

#[test]
fn log_command_switches_the_pager_off_first() {
    let collector = GitCollector::new("/repo", Some(2), None, Vec::new());
    let invocation = collector.log_command(collector.commit_args_with(None));
    assert_eq!(invocation.program, "git");
    assert_eq!(invocation.working_dir, "/repo");
    assert_eq!(
        invocation.args,
        vec![
            "--no-pager".to_string(),
            "log".to_string(),
            "--pretty=format:COMMIT_START%n%H%n%an%n%ad%n%s%n%b%nCOMMIT_END".to_string(),
            "--name-status".to_string(),
            "-n".to_string(),
            "2".to_string(),
        ]
    );
}

#[test]
fn diff_command_asks_for_the_summary() {
    let collector = GitCollector::new("/repo", None, None, Vec::new());
    let invocation = collector.diff_command();
    assert_eq!(invocation.program, "git");
    assert_eq!(invocation.working_dir, "/repo");
    assert_eq!(
        invocation.args,
        vec!["--no-pager".to_string(), "diff".to_string(), "--stat".to_string()]
    );
}

#[test]
fn start_message_names_limit_window_and_scope() {
    let all = GitCollector::new(".", None, None, Vec::new());
    assert_eq!(
        all.collection_start_message(),
        "Collecting entire git history (all files)..."
    );
    let both = GitCollector::new(
        ".",
        Some(10),
        Some(7),
        vec!["*.rs".to_string(), "src/*".to_string()],
    );
    assert_eq!(
        both.collection_start_message(),
        "Collecting git history (limited to 10 commits from the last 7 days, files matching: *.rs, src/*)..."
    );
    let limit = GitCollector::new(".", Some(10), None, Vec::new());
    assert_eq!(
        limit.collection_start_message(),
        "Collecting git history (limited to 10 commits, all files)..."
    );
    let window = GitCollector::new(".", None, Some(7), Vec::new());
    assert_eq!(
        window.collection_start_message(),
        "Collecting git history (from the last 7 days, all files)..."
    );
}
