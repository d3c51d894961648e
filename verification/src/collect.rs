//! Collecting a history as a dialogue between the collector and whoever
//! does the outside work.
//!
//! The collector reads no file and starts no process. It decides: given the
//! state of a request and what has just happened outside, it names the next
//! state and the next thing to do outside. The caller performs that action
//! and reports the event that followed, until the action is to return the
//! commits or to fail.
//!
//! A request looks into the cache first. An entry that is missing, older
//! than the time to live, or unreadable as a list of commits counts as
//! absent: the tool is run, its output parsed, and the result written to the
//! cache before it is returned.

use crate::cache::{cache_file_name, cache_is_fresh, freshness, Timestamp};
use crate::error::{ErrorView, GitMetricsError};
use crate::git_collector::{GitCollector, GitCollectorView};
use crate::models::{commit_views, Commit, CommitView};
use crate::records::parse_log;
use crate::text::texts;
use crate::tool::{
    command_result, lossy_text, tool_result, ToolInvocation, ToolInvocationView, ToolOutcome,
    ToolOutcomeView,
};
use vstd::prelude::*;
use vstd::string::StringExecFns;

verus! {

/// Where a collection request stands.
#[derive(Debug, Clone, PartialEq, Eq)]
pub enum CollectState {
    /// Nothing has been done yet.
    Idle,
    /// The age of the cache file was asked for.
    ProbingCache { file_name: String },
    /// The content of the cache file was asked for.
    ReadingCache { file_name: String },
    /// The tool is running in history mode.
    RunningTool { file_name: String },
    /// The commits are being written to the cache file.
    SavingCache { file_name: String, commits: Vec<Commit> },
    /// The request is over.
    Finished,
}

/// What a `CollectState` holds, as mathematical values.
pub enum CollectStateView {
    Idle,
    ProbingCache { file_name: Seq<char> },
    ReadingCache { file_name: Seq<char> },
    RunningTool { file_name: Seq<char> },
    SavingCache { file_name: Seq<char>, commits: Seq<CommitView> },
    Finished,
}

impl View for CollectState {
    type V = CollectStateView;

    open spec fn view(&self) -> CollectStateView {
        match self {
            CollectState::Idle => CollectStateView::Idle,
            CollectState::ProbingCache { file_name } => CollectStateView::ProbingCache {
                file_name: file_name@,
            },
            CollectState::ReadingCache { file_name } => CollectStateView::ReadingCache {
                file_name: file_name@,
            },
            CollectState::RunningTool { file_name } => CollectStateView::RunningTool {
                file_name: file_name@,
            },
            CollectState::SavingCache { file_name, commits } => CollectStateView::SavingCache {
                file_name: file_name@,
                commits: commit_views(commits@),
            },
            CollectState::Finished => CollectStateView::Finished,
        }
    }
}

/// What happened outside since the last action.
#[derive(Debug, Clone, PartialEq, Eq)]
pub enum CollectEvent {
    /// The request begins. Carries the canonical absolute path of the
    /// repository, or `None` where the path has no canonical form.
    Begin { canonical_path: Option<String> },
    /// There is no cache file.
    CacheMissing,
    /// There is a cache file, last modified at `modified`; it is `now`.
    CacheFound { modified: Timestamp, now: Timestamp },
    /// The cache file was read and holds these commits.
    CacheDecoded(Vec<Commit>),
    /// The cache file was read and does not hold a list of commits.
    CacheCorrupt,
    /// The tool was run.
    ToolReturned(ToolOutcome),
    /// The commits were written to the cache file.
    CacheSaved,
    /// A file operation failed; carries the cause.
    IoFailed(String),
    /// The commits could not be encoded; carries the cause.
    EncodeFailed(String),
}

/// What a `CollectEvent` holds, as mathematical values.
pub enum CollectEventView {
    Begin { canonical_path: Option<Seq<char>> },
    CacheMissing,
    CacheFound { modified: Timestamp, now: Timestamp },
    CacheDecoded(Seq<CommitView>),
    CacheCorrupt,
    ToolReturned(ToolOutcomeView),
    CacheSaved,
    IoFailed(Seq<char>),
    EncodeFailed(Seq<char>),
}

impl View for CollectEvent {
    type V = CollectEventView;

    open spec fn view(&self) -> CollectEventView {
        match self {
            CollectEvent::Begin { canonical_path } => CollectEventView::Begin {
                canonical_path: match canonical_path {
                    Some(path) => Some(path@),
                    None => None,
                },
            },
            CollectEvent::CacheMissing => CollectEventView::CacheMissing,
            CollectEvent::CacheFound { modified, now } => CollectEventView::CacheFound {
                modified: *modified,
                now: *now,
            },
            CollectEvent::CacheDecoded(commits) => CollectEventView::CacheDecoded(
                commit_views(commits@),
            ),
            CollectEvent::CacheCorrupt => CollectEventView::CacheCorrupt,
            CollectEvent::ToolReturned(outcome) => CollectEventView::ToolReturned(outcome@),
            CollectEvent::CacheSaved => CollectEventView::CacheSaved,
            CollectEvent::IoFailed(cause) => CollectEventView::IoFailed(cause@),
            CollectEvent::EncodeFailed(cause) => CollectEventView::EncodeFailed(cause@),
        }
    }
}

/// What is to be done outside next.
#[derive(Debug, Clone, PartialEq, Eq)]
pub enum CollectAction {
    /// Look for the cache file of this name; report `CacheMissing`, or
    /// `CacheFound` with its modification time and the current time.
    ProbeCache(String),
    /// Read the cache file of this name and decode it; report
    /// `CacheDecoded` or `CacheCorrupt`.
    ReadCache(String),
    /// Run the tool; report `ToolReturned`.
    RunTool(ToolInvocation),
    /// Encode the commits that the state holds and write them to the cache
    /// file of this name, replacing what it held; report `CacheSaved`.
    SaveCache(String),
    /// The request succeeded with these commits; `from_cache` says whether
    /// they came from the cache.
    Return { commits: Vec<Commit>, from_cache: bool },
    /// The request failed.
    Fail(GitMetricsError),
}

/// What a `CollectAction` holds, as mathematical values.
pub enum CollectActionView {
    ProbeCache(Seq<char>),
    ReadCache(Seq<char>),
    RunTool(ToolInvocationView),
    SaveCache(Seq<char>),
    Return { commits: Seq<CommitView>, from_cache: bool },
    Fail(ErrorView),
}

impl View for CollectAction {
    type V = CollectActionView;

    open spec fn view(&self) -> CollectActionView {
        match self {
            CollectAction::ProbeCache(file_name) => CollectActionView::ProbeCache(file_name@),
            CollectAction::ReadCache(file_name) => CollectActionView::ReadCache(file_name@),
            CollectAction::RunTool(invocation) => CollectActionView::RunTool(invocation@),
            CollectAction::SaveCache(file_name) => CollectActionView::SaveCache(file_name@),
            CollectAction::Return { commits, from_cache } => CollectActionView::Return {
                commits: commit_views(commits@),
                from_cache: *from_cache,
            },
            CollectAction::Fail(e) => CollectActionView::Fail(e@),
        }
    }
}

impl GitCollectorView {
    /// The step that treats the cache entry as absent: the tool is run in
    /// history mode.
    pub open spec fn refetch(self, file_name: Seq<char>, cutoff: Option<Seq<char>>) -> (
        CollectStateView,
        CollectActionView,
    ) {
        (
            CollectStateView::RunningTool { file_name },
            CollectActionView::RunTool(self.log_invocation(cutoff)),
        )
    }

    /// The step that ends the request with a failure.
    pub open spec fn fail(e: ErrorView) -> (CollectStateView, CollectActionView) {
        (CollectStateView::Finished, CollectActionView::Fail(e))
    }

    /// The next state and the next action of a request in `state` to which
    /// `event` is reported. `cutoff` is the date at which the day window
    /// opens, should the tool have to be run.
    pub open spec fn collect_step(
        self,
        state: CollectStateView,
        event: CollectEventView,
        cutoff: Option<Seq<char>>,
    ) -> (CollectStateView, CollectActionView) {
        match (state, event) {
            (CollectStateView::Idle, CollectEventView::Begin { canonical_path }) => {
                let file_name = cache_file_name(self.cache_key(canonical_path));
                (
                    CollectStateView::ProbingCache { file_name },
                    CollectActionView::ProbeCache(file_name),
                )
            },
            (
                CollectStateView::ProbingCache { file_name },
                CollectEventView::CacheMissing,
            ) => self.refetch(file_name, cutoff),
            (
                CollectStateView::ProbingCache { file_name },
                CollectEventView::CacheFound { modified, now },
            ) => match freshness(modified, now) {
                Err(e) => Self::fail(e),
                Ok(fresh) => if fresh {
                    (
                        CollectStateView::ReadingCache { file_name },
                        CollectActionView::ReadCache(file_name),
                    )
                } else {
                    self.refetch(file_name, cutoff)
                },
            },
            (
                CollectStateView::ReadingCache { file_name },
                CollectEventView::CacheDecoded(commits),
            ) => (
                CollectStateView::Finished,
                CollectActionView::Return { commits, from_cache: true },
            ),
            (
                CollectStateView::ReadingCache { file_name },
                CollectEventView::CacheCorrupt,
            ) => self.refetch(file_name, cutoff),
            (
                CollectStateView::RunningTool { file_name },
                CollectEventView::ToolReturned(outcome),
            ) => match tool_result(outcome) {
                Ok(stdout) => (
                    CollectStateView::SavingCache {
                        file_name,
                        commits: parse_log(stdout, self.file_patterns),
                    },
                    CollectActionView::SaveCache(file_name),
                ),
                Err(e) => Self::fail(e),
            },
            (
                CollectStateView::SavingCache { file_name, commits },
                CollectEventView::CacheSaved,
            ) => (
                CollectStateView::Finished,
                CollectActionView::Return { commits, from_cache: false },
            ),
            (
                CollectStateView::SavingCache { file_name, commits },
                CollectEventView::EncodeFailed(cause),
            ) => Self::fail(ErrorView::SerializationError(cause)),
            (CollectStateView::ProbingCache { file_name }, CollectEventView::IoFailed(cause)) => {
                Self::fail(ErrorView::IoError(cause))
            },
            (CollectStateView::ReadingCache { file_name }, CollectEventView::IoFailed(cause)) => {
                Self::fail(ErrorView::IoError(cause))
            },
            (
                CollectStateView::SavingCache { file_name, commits },
                CollectEventView::IoFailed(cause),
            ) => Self::fail(ErrorView::IoError(cause)),
            _ => Self::fail(ErrorView::Other("Unexpected event for the state of the request"@)),
        }
    }
}

impl GitCollector {
    /// The step that ends the request with a failure.
    fn fail(e: GitMetricsError) -> (r: (CollectState, CollectAction))
        ensures
            (r.0@, r.1@) == GitCollectorView::fail(e@),
    {
        (CollectState::Finished, CollectAction::Fail(e))
    }

    /// The step for an event that the state of the request does not expect.
    fn out_of_turn() -> (r: (CollectState, CollectAction))
        ensures
            (r.0@, r.1@) == GitCollectorView::fail(
                ErrorView::Other("Unexpected event for the state of the request"@),
            ),
    {
        Self::fail(
            GitMetricsError::Other(
                String::from_str("Unexpected event for the state of the request"),
            ),
        )
    }

    /// The step that treats the cache entry as absent: the tool is asked for
    /// the history, narrowed as the collector is configured.
    fn fetch_commits_batch(&self, file_name: String) -> (r: (CollectState, CollectAction))
        ensures
            exists|cutoff: Option<Seq<char>>|
                (r.0@, r.1@) == #[trigger] self@.refetch(file_name@, cutoff),
    {
        let narrowing = self.build_commit_args();
        let ghost cutoff = choose|cutoff: Option<Seq<char>>|
            texts(narrowing@) == #[trigger] self@.commit_args(cutoff);
        let invocation = self.log_command(narrowing);
        let r = (CollectState::RunningTool { file_name }, CollectAction::RunTool(invocation));
        assert((r.0@, r.1@) == self@.refetch(file_name@, cutoff));
        r
    }

    /// The steps that look into the cache: what follows the probe of the
    /// cache file, and what follows the reading of it.
    fn load_from_cache(&self, state: CollectState, event: CollectEvent) -> (r: (
        CollectState,
        CollectAction,
    ))
        requires
            state is ProbingCache || state is ReadingCache,
        ensures
            exists|cutoff: Option<Seq<char>>|
                (r.0@, r.1@) == #[trigger] self@.collect_step(state@, event@, cutoff),
    {
        match (state, event) {
            (CollectState::ProbingCache { file_name }, CollectEvent::CacheMissing) => {
                let r = self.fetch_commits_batch(file_name);
                let ghost cutoff = choose|cutoff: Option<Seq<char>>|
                    (r.0@, r.1@) == #[trigger] self@.refetch(file_name@, cutoff);
                assert((r.0@, r.1@) == self@.collect_step(state@, event@, cutoff));
                r
            },
            (
                CollectState::ProbingCache { file_name },
                CollectEvent::CacheFound { modified, now },
            ) => {
                match cache_is_fresh(modified, now) {
                    Err(e) => {
                        let r = Self::fail(e);
                        assert((r.0@, r.1@) == self@.collect_step(state@, event@, None));
                        r
                    },
                    Ok(fresh) => if fresh {
                        let r = (
                            CollectState::ReadingCache { file_name: file_name.clone() },
                            CollectAction::ReadCache(file_name),
                        );
                        assert((r.0@, r.1@) == self@.collect_step(state@, event@, None));
                        r
                    } else {
                        let r = self.fetch_commits_batch(file_name);
                        let ghost cutoff = choose|cutoff: Option<Seq<char>>|
                            (r.0@, r.1@) == #[trigger] self@.refetch(file_name@, cutoff);
                        assert((r.0@, r.1@) == self@.collect_step(state@, event@, cutoff));
                        r
                    },
                }
            },
            (CollectState::ReadingCache { file_name }, CollectEvent::CacheDecoded(commits)) => {
                let r = (
                    CollectState::Finished,
                    CollectAction::Return { commits, from_cache: true },
                );
                assert((r.0@, r.1@) == self@.collect_step(state@, event@, None));
                r
            },
            (CollectState::ReadingCache { file_name }, CollectEvent::CacheCorrupt) => {
                let r = self.fetch_commits_batch(file_name);
                let ghost cutoff = choose|cutoff: Option<Seq<char>>|
                    (r.0@, r.1@) == #[trigger] self@.refetch(file_name@, cutoff);
                assert((r.0@, r.1@) == self@.collect_step(state@, event@, cutoff));
                r
            },
            (_, CollectEvent::IoFailed(cause)) => {
                let r = Self::fail(GitMetricsError::IoError(cause));
                assert((r.0@, r.1@) == self@.collect_step(state@, event@, None));
                r
            },
            _ => {
                let r = Self::out_of_turn();
                assert((r.0@, r.1@) == self@.collect_step(state@, event@, None));
                r
            },
        }
    }

    /// The step that follows the run of the tool: its output is parsed and
    /// the commits are to be saved, or the request fails as the run did.
    fn parse_fetched(&self, file_name: String, outcome: ToolOutcome) -> (r: (
        CollectState,
        CollectAction,
    ))
        ensures
            (r.0@, r.1@) == self@.collect_step(
                CollectStateView::RunningTool { file_name: file_name@ },
                CollectEventView::ToolReturned(outcome@),
                None,
            ),
    {
        match command_result(outcome) {
            Ok(stdout) => {
                let commits = self.parse_commit_data(stdout.as_str());
                (
                    CollectState::SavingCache { file_name: file_name.clone(), commits },
                    CollectAction::SaveCache(file_name),
                )
            },
            Err(e) => Self::fail(e),
        }
    }

    /// The step that follows the writing of the cache file: the commits are
    /// returned, or the request fails as the writing did.
    fn save_to_cache(&self, file_name: String, commits: Vec<Commit>, event: CollectEvent) -> (r: (
        CollectState,
        CollectAction,
    ))
        ensures
            (r.0@, r.1@) == self@.collect_step(
                CollectStateView::SavingCache {
                    file_name: file_name@,
                    commits: commit_views(commits@),
                },
                event@,
                None,
            ),
    {
        match event {
            CollectEvent::CacheSaved => (
                CollectState::Finished,
                CollectAction::Return { commits, from_cache: false },
            ),
            CollectEvent::EncodeFailed(cause) => Self::fail(
                GitMetricsError::SerializationError(cause),
            ),
            CollectEvent::IoFailed(cause) => Self::fail(GitMetricsError::IoError(cause)),
            _ => Self::out_of_turn(),
        }
    }

    /// One step of a collection request: the next state and the next action
    /// for a request in `state` to which `event` is reported.
    ///
    /// Only the date at which the day window opens depends on anything but
    /// the arguments: it is counted back from today when the tool has to be
    /// run.
    pub fn collect_history(&self, state: CollectState, event: CollectEvent) -> (r: (
        CollectState,
        CollectAction,
    ))
        ensures
            exists|cutoff: Option<Seq<char>>|
                (r.0@, r.1@) == #[trigger] self@.collect_step(state@, event@, cutoff),
    {
        match state {
            CollectState::Idle => match event {
                CollectEvent::Begin { canonical_path } => {
                    let file_name = match canonical_path {
                        Some(path) => self.get_cache_file_path(Some(path.as_str())),
                        None => self.get_cache_file_path(None),
                    };
                    let r = (
                        CollectState::ProbingCache { file_name: file_name.clone() },
                        CollectAction::ProbeCache(file_name),
                    );
                    assert((r.0@, r.1@) == self@.collect_step(state@, event@, None));
                    r
                },
                _ => {
                    let r = Self::out_of_turn();
                    assert((r.0@, r.1@) == self@.collect_step(state@, event@, None));
                    r
                },
            },
            CollectState::ProbingCache { .. } | CollectState::ReadingCache { .. } => {
                self.load_from_cache(state, event)
            },
            CollectState::RunningTool { file_name } => match event {
                CollectEvent::ToolReturned(outcome) => {
                    let r = self.parse_fetched(file_name, outcome);
                    assert((r.0@, r.1@) == self@.collect_step(state@, event@, None));
                    r
                },
                _ => {
                    let r = Self::out_of_turn();
                    assert((r.0@, r.1@) == self@.collect_step(state@, event@, None));
                    r
                },
            },
            CollectState::SavingCache { file_name, commits } => {
                let r = self.save_to_cache(file_name, commits, event);
                assert((r.0@, r.1@) == self@.collect_step(state@, event@, None));
                r
            },
            CollectState::Finished => {
                let r = Self::out_of_turn();
                assert((r.0@, r.1@) == self@.collect_step(state@, event@, None));
                r
            },
        }
    }
}

/// What is to be done to the cache directory.
#[derive(Debug, Clone, Copy, PartialEq, Eq)]
pub enum CacheDirStep {
    /// Remove the directory with all it holds.
    RemoveAll,
    /// Create the directory, empty.
    CreateAll,
}

/// The steps that clear the cache: a directory that exists is removed and
/// created anew; one that does not exist is left alone.
pub open spec fn clear_plan(cache_dir_exists: bool) -> Seq<CacheDirStep> {
    if cache_dir_exists {
        seq![CacheDirStep::RemoveAll, CacheDirStep::CreateAll]
    } else {
        seq![]
    }
}

impl GitCollector {
    /// The steps that clear the cache, to be taken in order. A step that
    /// fails outside is an I/O failure.
    pub fn clear_cache(&self, cache_dir_exists: bool) -> (r: Vec<CacheDirStep>)
        ensures
            r@ == clear_plan(cache_dir_exists),
    {
        let mut steps: Vec<CacheDirStep> = Vec::new();
        if cache_dir_exists {
            steps.push(CacheDirStep::RemoveAll);
            steps.push(CacheDirStep::CreateAll);
        }
        assert(steps@ =~= clear_plan(cache_dir_exists));
        steps
    }
}

/// A cache file older than the time to live counts as absent: the request
/// goes on as if there were no file, and the file is not read.
pub proof fn lemma_stale_entry_counts_as_absent(
    collector: GitCollectorView,
    file_name: Seq<char>,
    modified: Timestamp,
    now: Timestamp,
    cutoff: Option<Seq<char>>,
)
    requires
        now.total_nanos() - modified.total_nanos() > crate::cache::CACHE_TTL_SECONDS
            * 1_000_000_000,
    ensures
        collector.collect_step(
            CollectStateView::ProbingCache { file_name },
            CollectEventView::CacheFound { modified, now },
            cutoff,
        ) == collector.collect_step(
            CollectStateView::ProbingCache { file_name },
            CollectEventView::CacheMissing,
            cutoff,
        ),
        collector.collect_step(
            CollectStateView::ProbingCache { file_name },
            CollectEventView::CacheFound { modified, now },
            cutoff,
        ).1 is RunTool,
{
}

/// A cache file that does not hold a list of commits counts as absent,
/// whatever its age: the request goes on as if there had been no file.
pub proof fn lemma_corrupt_entry_counts_as_absent(
    collector: GitCollectorView,
    file_name: Seq<char>,
    cutoff: Option<Seq<char>>,
)
    ensures
        collector.collect_step(
            CollectStateView::ReadingCache { file_name },
            CollectEventView::CacheCorrupt,
            cutoff,
        ) == collector.collect_step(
            CollectStateView::ProbingCache { file_name },
            CollectEventView::CacheMissing,
            cutoff,
        ),
{
}

/// A request that finds a fresh cache file holding commits returns those
/// commits, and never asks for the tool to be run.
pub proof fn lemma_fresh_hit_returns_cached(
    collector: GitCollectorView,
    canonical_path: Option<Seq<char>>,
    modified: Timestamp,
    now: Timestamp,
    commits: Seq<CommitView>,
    cutoff: Option<Seq<char>>,
)
    requires
        modified.total_nanos() <= now.total_nanos(),
        now.total_nanos() - modified.total_nanos() <= crate::cache::CACHE_TTL_SECONDS
            * 1_000_000_000,
    ensures
        ({
            let first = collector.collect_step(
                CollectStateView::Idle,
                CollectEventView::Begin { canonical_path },
                cutoff,
            );
            let second = collector.collect_step(
                first.0,
                CollectEventView::CacheFound { modified, now },
                cutoff,
            );
            let third = collector.collect_step(
                second.0,
                CollectEventView::CacheDecoded(commits),
                cutoff,
            );
            &&& first.1 is ProbeCache
            &&& second.1 is ReadCache
            &&& third == (
                CollectStateView::Finished,
                CollectActionView::Return { commits, from_cache: true },
            )
        }),
{
}

/// A request that finds no cache file runs the tool, parses what it wrote,
/// has the commits saved under the name that was probed, and returns them.
pub proof fn lemma_miss_collects_and_saves(
    collector: GitCollectorView,
    canonical_path: Option<Seq<char>>,
    stdout: Seq<u8>,
    stderr: Seq<u8>,
    cutoff: Option<Seq<char>>,
)
    ensures
        ({
            let file_name = cache_file_name(collector.cache_key(canonical_path));
            let first = collector.collect_step(
                CollectStateView::Idle,
                CollectEventView::Begin { canonical_path },
                cutoff,
            );
            let second = collector.collect_step(first.0, CollectEventView::CacheMissing, cutoff);
            let third = collector.collect_step(
                second.0,
                CollectEventView::ToolReturned(
                    ToolOutcomeView::Exited { success: true, stdout, stderr },
                ),
                cutoff,
            );
            let fourth = collector.collect_step(third.0, CollectEventView::CacheSaved, cutoff);
            &&& first.1 == CollectActionView::ProbeCache(file_name)
            &&& second.1 == CollectActionView::RunTool(collector.log_invocation(cutoff))
            &&& third.1 == CollectActionView::SaveCache(file_name)
            &&& fourth == (
                CollectStateView::Finished,
                CollectActionView::Return {
                    commits: parse_log(lossy_text(stdout), collector.file_patterns),
                    from_cache: false,
                },
            )
        }),
{
}

} // verus!
