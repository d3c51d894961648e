//! The collector: the parameters of a collection request, and what they
//! make of the tool's output.

use crate::cache::{cache_file_name, cache_key, derive_cache_key, file_name_of_key};
use crate::changes::{
    as_map, current_changes, diff_line, diff_views, distinct_names, working_changes, FileDiff,
};
use crate::diffstat::diff_stats;
use crate::error::{ErrorView, GitMetricsError};
use crate::models::{
    change_count, commit_views, file_views, status_counts, Commit, CommitView, FileChange,
};
use crate::numbers::{decimal_digits, decimal_of};
use crate::patterns::{matches_any, matches_any_pattern};
use crate::records::{file_changes, parse_log, parse_record};
use crate::text::{
    append_chars, append_str, chars_of, chars_of_all, join, join_with, string_of, texts, views,
};
use crate::tool::{
    command_result, git_command, git_invocation, tool_result, ToolInvocation, ToolInvocationView,
    ToolOutcome,
};
use vstd::prelude::*;
use vstd::string::StringExecFns;

verus! {

/// The parameters of a collection request.
pub struct GitCollector {
    repo_path: String,
    max_commits: Option<u32>,
    since_days: Option<u32>,
    file_patterns: Vec<String>,
}

/// What a `GitCollector` holds, as mathematical values.
pub struct GitCollectorView {
    /// The path of the repository, as it was given.
    pub repo_path: Seq<char>,
    /// The most commits to collect, if there is a limit.
    pub max_commits: Option<u32>,
    /// How many days back to collect, if there is a window.
    pub since_days: Option<u32>,
    /// The file patterns, in the order given; empty for no filtering.
    pub file_patterns: Seq<Seq<char>>,
}

impl View for GitCollector {
    type V = GitCollectorView;

    closed spec fn view(&self) -> GitCollectorView {
        GitCollectorView {
            repo_path: self.repo_path@,
            max_commits: self.max_commits,
            since_days: self.since_days,
            file_patterns: texts(self.file_patterns@),
        }
    }
}

/// The text behind an optional string.
pub open spec fn opt_text(s: Option<&str>) -> Option<Seq<char>> {
    match s {
        Some(t) => Some(t@),
        None => None,
    }
}

/// The text behind an optional string.
pub open spec fn opt_string_text(s: Option<String>) -> Option<Seq<char>> {
    match s {
        Some(t) => Some(t@),
        None => None,
    }
}

impl GitCollectorView {
    /// The path that goes into the cache key: the canonical path of the
    /// repository, or the path as given where it has no canonical form.
    pub open spec fn key_path(self, canonical_path: Option<Seq<char>>) -> Seq<char> {
        match canonical_path {
            Some(path) => path,
            None => self.repo_path,
        }
    }

    /// The cache key of the request.
    pub open spec fn cache_key(self, canonical_path: Option<Seq<char>>) -> Seq<char> {
        cache_key(
            self.key_path(canonical_path),
            self.max_commits,
            self.since_days,
            self.file_patterns,
        )
    }

    /// The argument that opens the day window at the date `cutoff`, or at
    /// the first day of the year 2000 where there is no such date.
    pub open spec fn since_arg(cutoff: Option<Seq<char>>) -> Seq<char> {
        "--since="@ + match cutoff {
            Some(date) => date,
            None => "2000-01-01"@,
        }
    }

    /// The arguments that narrow the history: the day window, where one is
    /// configured, then the commit limit, where one is configured, as the
    /// two tokens `-n` and the number.
    pub open spec fn commit_args(self, cutoff: Option<Seq<char>>) -> Seq<Seq<char>> {
        (if self.since_days is Some {
            seq![Self::since_arg(cutoff)]
        } else {
            seq![]
        }) + (match self.max_commits {
            Some(n) => seq!["-n"@, decimal_digits(n as nat)],
            None => seq![],
        })
    }

    /// The arguments of the history mode.
    pub open spec fn log_args(self, cutoff: Option<Seq<char>>) -> Seq<Seq<char>> {
        seq![
            "log"@,
            "--pretty=format:COMMIT_START%n%H%n%an%n%ad%n%s%n%b%nCOMMIT_END"@,
            "--name-status"@,
        ] + self.commit_args(cutoff)
    }

    /// The invocation of the history mode.
    pub open spec fn log_invocation(self, cutoff: Option<Seq<char>>) -> ToolInvocationView {
        git_invocation(self.repo_path, self.log_args(cutoff))
    }

    /// The invocation of the working-changes mode.
    pub open spec fn diff_invocation(self) -> ToolInvocationView {
        git_invocation(self.repo_path, seq!["diff"@, "--stat"@])
    }

    /// How the file patterns read in a progress message.
    pub open spec fn scope_text(self) -> Seq<char> {
        if self.file_patterns.len() == 0 {
            "all files"@
        } else {
            "files matching: "@ + join(self.file_patterns, ", "@)
        }
    }

    /// The progress message for the start of a collection.
    pub open spec fn start_message(self) -> Seq<char> {
        match (self.max_commits, self.since_days) {
            (None, None) => "Collecting entire git history ("@ + self.scope_text() + ")..."@,
            (Some(max), Some(days)) => "Collecting git history (limited to "@ + decimal_digits(
                max as nat,
            ) + " commits from the last "@ + decimal_digits(days as nat) + " days, "@
                + self.scope_text() + ")..."@,
            (Some(max), None) => "Collecting git history (limited to "@ + decimal_digits(
                max as nat,
            ) + " commits, "@ + self.scope_text() + ")..."@,
            (None, Some(days)) => "Collecting git history (from the last "@ + decimal_digits(
                days as nat,
            ) + " days, "@ + self.scope_text() + ")..."@,
        }
    }
}

/// The calendar date, in UTC, that lies `days` days before now, written as
/// `YYYY-MM-DD`; `None` where that date is outside the range of the
/// calendar library. Calls `chrono::Utc::now`,
/// `DateTime::checked_sub_signed` with `Duration::days`, and
/// `DateTime::format`. The result depends on the clock, so nothing is
/// claimed of it. `Utc::now` takes a clock that is not set before the year
/// 1970 for granted.
#[verifier::external_body]
fn utc_date_days_ago(days: u32) -> Option<String> {
    match chrono::Utc::now().checked_sub_signed(chrono::Duration::days(i64::from(days))) {
        Some(date) => Some(date.format("%Y-%m-%d").to_string()),
        None => None,
    }
}

impl GitCollector {
    /// A collector for the repository at `repo_path`.
    pub fn new(
        repo_path: &str,
        max_commits: Option<u32>,
        since_days: Option<u32>,
        file_patterns: Vec<String>,
    ) -> (r: Self)
        ensures
            r@ == (GitCollectorView {
                repo_path: repo_path@,
                max_commits,
                since_days,
                file_patterns: texts(file_patterns@),
            }),
    {
        GitCollector {
            repo_path: String::from_str(repo_path),
            max_commits,
            since_days,
            file_patterns,
        }
    }

    /// The path of the repository, as it was given.
    pub fn repo_path(&self) -> (r: &str)
        ensures
            r@ == self@.repo_path,
    {
        self.repo_path.as_str()
    }

    /// The most commits to collect, if there is a limit.
    pub fn max_commits(&self) -> (r: Option<u32>)
        ensures
            r == self@.max_commits,
    {
        self.max_commits
    }

    /// How many days back to collect, if there is a window.
    pub fn since_days(&self) -> (r: Option<u32>)
        ensures
            r == self@.since_days,
    {
        self.since_days
    }

    /// The file patterns, in the order given.
    pub fn file_patterns(&self) -> (r: &Vec<String>)
        ensures
            texts(r@) == self@.file_patterns,
    {
        &self.file_patterns
    }

    /// The file patterns as character vectors.
    fn pattern_chars(&self) -> (r: Vec<Vec<char>>)
        ensures
            views(r@) == self@.file_patterns,
    {
        chars_of_all(&self.file_patterns)
    }

    /// The cache key of the request, 32 hexadecimal digits.
    /// `canonical_path` is the canonical absolute path of the repository,
    /// or `None` where the path has no canonical form.
    pub fn get_cache_key(&self, canonical_path: Option<&str>) -> (r: String)
        ensures
            r@ == self@.cache_key(opt_text(canonical_path)),
            r@.len() == 32,
    {
        let patterns = self.pattern_chars();
        let path: &str = match canonical_path {
            Some(p) => p,
            None => self.repo_path.as_str(),
        };
        derive_cache_key(path, self.max_commits, self.since_days, &patterns)
    }

    /// The name of the cache file of the request, within the cache
    /// directory.
    pub fn get_cache_file_path(&self, canonical_path: Option<&str>) -> (r: String)
        ensures
            r@ == cache_file_name(self@.cache_key(opt_text(canonical_path))),
    {
        let key = self.get_cache_key(canonical_path);
        file_name_of_key(key.as_str())
    }

    /// The arguments that narrow the history, with the day window opening
    /// at the date `cutoff`.
    pub fn commit_args_with(&self, cutoff: Option<String>) -> (r: Vec<String>)
        ensures
            texts(r@) == self@.commit_args(opt_string_text(cutoff)),
    {
        let mut args: Vec<String> = Vec::new();
        if self.since_days.is_some() {
            let since = match cutoff {
                Some(date) => String::from_str("--since=").concat(date.as_str()),
                None => String::from_str("--since=").concat("2000-01-01"),
            };
            args.push(since);
        }
        if let Some(n) = self.max_commits {
            args.push(String::from_str("-n"));
            args.push(string_of(&decimal_of(n)));
        }
        assert(texts(args@) =~= self@.commit_args(opt_string_text(cutoff)));
        args
    }

    /// The arguments that narrow the history, with the day window counted
    /// back from today.
    pub fn build_commit_args(&self) -> (r: Vec<String>)
        ensures
            exists|cutoff: Option<Seq<char>>| texts(r@) == #[trigger] self@.commit_args(cutoff),
    {
        let cutoff = match self.since_days {
            Some(days) => utc_date_days_ago(days),
            None => None,
        };
        self.commit_args_with(cutoff)
    }

    /// The invocation of the tool in the repository with `args`, the pager
    /// switched off.
    pub fn run_git_command(&self, args: Vec<String>) -> (r: ToolInvocation)
        ensures
            r@ == git_invocation(self@.repo_path, texts(args@)),
    {
        git_command(self.repo_path.as_str(), args)
    }

    /// The invocation of the history mode for the narrowing arguments
    /// `narrowing`.
    pub fn log_command(&self, narrowing: Vec<String>) -> (r: ToolInvocation)
        ensures
            r@ == git_invocation(
                self@.repo_path,
                seq![
                    "log"@,
                    "--pretty=format:COMMIT_START%n%H%n%an%n%ad%n%s%n%b%nCOMMIT_END"@,
                    "--name-status"@,
                ] + texts(narrowing@),
            ),
    {
        let mut narrowing = narrowing;
        let mut args: Vec<String> = Vec::new();
        args.push(String::from_str("log"));
        args.push(
            String::from_str("--pretty=format:COMMIT_START%n%H%n%an%n%ad%n%s%n%b%nCOMMIT_END"),
        );
        args.push(String::from_str("--name-status"));
        let ghost head = texts(args@);
        let ghost tail = texts(narrowing@);
        args.append(&mut narrowing);
        assert(texts(args@) =~= head + tail);
        assert(head =~= seq![
            "log"@,
            "--pretty=format:COMMIT_START%n%H%n%an%n%ad%n%s%n%b%nCOMMIT_END"@,
            "--name-status"@,
        ]);
        self.run_git_command(args)
    }

    /// The invocation of the working-changes mode.
    pub fn diff_command(&self) -> (r: ToolInvocation)
        ensures
            r@ == self@.diff_invocation(),
    {
        let mut args: Vec<String> = Vec::new();
        args.push(String::from_str("diff"));
        args.push(String::from_str("--stat"));
        assert(texts(args@) =~= seq!["diff"@, "--stat"@]);
        self.run_git_command(args)
    }

    /// The progress message for the start of a collection.
    pub fn collection_start_message(&self) -> (r: String)
        ensures
            r@ == self@.start_message(),
    {
        let patterns = self.pattern_chars();
        let mut scope: Vec<char> = Vec::new();
        if patterns.len() == 0 {
            append_str(&mut scope, "all files");
        } else {
            append_str(&mut scope, "files matching: ");
            append_chars(&mut scope, &join_with(&patterns, &chars_of(", ")));
        }
        assert(scope@ =~= self@.scope_text());
        let mut r: Vec<char> = Vec::new();
        match (self.max_commits, self.since_days) {
            (None, None) => {
                append_str(&mut r, "Collecting entire git history (");
            },
            (Some(max), Some(days)) => {
                append_str(&mut r, "Collecting git history (limited to ");
                append_chars(&mut r, &decimal_of(max));
                append_str(&mut r, " commits from the last ");
                append_chars(&mut r, &decimal_of(days));
                append_str(&mut r, " days, ");
            },
            (Some(max), None) => {
                append_str(&mut r, "Collecting git history (limited to ");
                append_chars(&mut r, &decimal_of(max));
                append_str(&mut r, " commits, ");
            },
            (None, Some(days)) => {
                append_str(&mut r, "Collecting git history (from the last ");
                append_chars(&mut r, &decimal_of(days));
                append_str(&mut r, " days, ");
            },
        }
        append_chars(&mut r, &scope);
        append_str(&mut r, ")...");
        assert(r@ =~= self@.start_message());
        string_of(&r)
    }

    /// The pair (additions, deletions) that the status code `status` stands
    /// for.
    pub fn status_to_change_count(&self, status: &str) -> (r: (u32, u32))
        ensures
            r == status_counts(status@),
    {
        change_count(&chars_of(status))
    }

    /// Whether the file patterns let `filename` through.
    pub fn matches_file_pattern(&self, filename: &str) -> (r: bool)
        ensures
            r == matches_any(self@.file_patterns, filename@),
    {
        let patterns = self.pattern_chars();
        matches_any_pattern(&patterns, &chars_of(filename))
    }

    /// The file changes that `file_lines` tell of, in the order of the
    /// lines.
    pub fn parse_file_changes(&self, file_lines: &Vec<String>) -> (r: Vec<FileChange>)
        ensures
            file_views(r@) == file_changes(texts(file_lines@), self@.file_patterns),
    {
        let patterns = self.pattern_chars();
        let lines = chars_of_all(file_lines);
        assert(views(lines@).subrange(0, lines.len() as int) =~= views(lines@));
        crate::records::parse_file_changes(&lines, 0, lines.len(), &patterns)
    }

    /// Parses one block of the history output into a commit, or says why
    /// the block is malformed.
    pub fn parse_single_commit(&self, commit_data: &str) -> (r: Result<Commit, GitMetricsError>)
        ensures
            match r {
                Ok(commit) => parse_record(commit_data@, self@.file_patterns) == Ok::<
                    CommitView,
                    ErrorView,
                >(commit@),
                Err(e) => parse_record(commit_data@, self@.file_patterns) == Err::<
                    CommitView,
                    ErrorView,
                >(e@),
            },
    {
        let patterns = self.pattern_chars();
        crate::records::parse_single_commit(&chars_of(commit_data), &patterns)
    }

    /// The commits that the captured history output `data` tells of, in the
    /// order in which they appear.
    pub fn parse_commit_data(&self, data: &str) -> (r: Vec<Commit>)
        ensures
            commit_views(r@) == parse_log(data@, self@.file_patterns),
    {
        let patterns = self.pattern_chars();
        crate::records::parse_commit_data(&chars_of(data), &patterns)
    }

    /// The additions and deletions that the statistics `stats` tell of.
    pub fn parse_diff_stats(&self, stats: &str) -> (r: (u64, u64))
        ensures
            (r.0 as nat, r.1 as nat) == diff_stats(stats@),
    {
        crate::diffstat::parse_diff_stats(stats)
    }

    /// The changes that the line `line` of a diff summary tells of.
    pub fn parse_diff_line(&self, line: &str) -> (r: Option<FileDiff>)
        ensures
            match r {
                Some(diff) => diff_line(line@, self@.file_patterns) == Some(diff@),
                None => diff_line(line@, self@.file_patterns) is None,
            },
    {
        let patterns = self.pattern_chars();
        crate::changes::parse_diff_line(&chars_of(line), &patterns)
    }

    /// The changes of the working tree, from the outcome of a run of the
    /// working-changes mode: one entry for each file that the summary names
    /// and the patterns let through, or the failure of the run.
    pub fn get_current_changes(&self, outcome: ToolOutcome) -> (r: Result<
        Vec<FileDiff>,
        GitMetricsError,
    >)
        ensures
            match r {
                Ok(changes) => {
                    &&& tool_result(outcome@) is Ok
                    &&& distinct_names(diff_views(changes@))
                    &&& as_map(diff_views(changes@)) == working_changes(
                        tool_result(outcome@)->Ok_0,
                        self@.file_patterns,
                    )
                },
                Err(e) => tool_result(outcome@) == Err::<Seq<char>, ErrorView>(e@),
            },
    {
        match command_result(outcome) {
            Ok(stdout) => {
                let patterns = self.pattern_chars();
                Ok(current_changes(&chars_of(stdout.as_str()), &patterns))
            },
            Err(e) => Err(e),
        }
    }
}

} // verus!
