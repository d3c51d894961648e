//! The record parser: from the captured output of the tool's history mode to
//! commits.
//!
//! The tool is asked to write one block per commit. A block starts right
//! after the start marker and holds four header lines (hash, author, date,
//! summary), then any number of lines of the form `status<TAB>filename`,
//! then a line that is the end marker. A block that lacks the end marker, or
//! has fewer than four lines before it, is dropped; the blocks around it are
//! parsed all the same.

use crate::error::{ErrorView, GitMetricsError};
use crate::models::{
    change_count, commit_views, file_views, status_counts, Commit, CommitView, FileChange,
    FileChangeView,
};
use crate::patterns::{matches_any, matches_any_pattern};
use crate::text::{
    chars_of, find_char, lines, lines_of, same_chars, scan, slice_of, split, split_on, string_of,
    trim, trim_bounds, views, CharClass,
};
use vstd::prelude::*;
use vstd::string::StringExecFns;

verus! {

/// The text after which a block starts.
pub open spec fn start_marker() -> Seq<char> {
    "COMMIT_START\n"@
}

/// The line that ends a block.
pub open spec fn end_marker() -> Seq<char> {
    "COMMIT_END"@
}

/// The status code and the file name of a file-status line: the first two
/// fields of the trimmed line, where a tab separates fields. A line without
/// a tab has none.
pub open spec fn status_line(line: Seq<char>) -> Option<(Seq<char>, Seq<char>)> {
    let t = trim(line);
    let tab = find_char(t, '\t') as int;
    if tab < t.len() {
        let rest = t.skip(tab + 1);
        Some((t.take(tab), rest.take(find_char(rest, '\t') as int)))
    } else {
        None
    }
}

/// The file change that a line tells of, if it is a file-status line whose
/// file name `patterns` lets through.
pub open spec fn file_change_of(line: Seq<char>, patterns: Seq<Seq<char>>) -> Option<
    FileChangeView,
> {
    match status_line(line) {
        Some((status, filename)) => if matches_any(patterns, filename) {
            Some(
                FileChangeView {
                    filename,
                    status,
                    additions: status_counts(status).0,
                    deletions: status_counts(status).1,
                },
            )
        } else {
            None
        },
        None => None,
    }
}

/// The file changes that `lines` tell of, in the order of the lines.
pub open spec fn file_changes(lines: Seq<Seq<char>>, patterns: Seq<Seq<char>>) -> Seq<
    FileChangeView,
>
    decreases lines.len(),
{
    if lines.len() == 0 {
        seq![]
    } else {
        let before = file_changes(lines.drop_last(), patterns);
        match file_change_of(lines.last(), patterns) {
            Some(change) => before.push(change),
            None => before,
        }
    }
}

/// The index of the first line that is the end marker, or `lines.len()`
/// where no line is.
pub open spec fn terminator_index(lines: Seq<Seq<char>>) -> nat
    decreases lines.len(),
{
    if lines.len() == 0 || lines[0] == end_marker() {
        0
    } else {
        1 + terminator_index(lines.skip(1))
    }
}

/// What a block parses to: the commit, or the reason why it is malformed.
pub open spec fn parse_record(chunk: Seq<char>, patterns: Seq<Seq<char>>) -> Result<
    CommitView,
    ErrorView,
> {
    let ls = lines(chunk);
    let end = terminator_index(ls) as int;
    if end >= ls.len() {
        Err(ErrorView::Other("Malformed commit data: no COMMIT_END marker"@))
    } else if end < 4 {
        Err(ErrorView::Other("Not enough lines in commit data"@))
    } else {
        Ok(
            CommitView {
                hash: ls[0],
                author: ls[1],
                date: ls[2],
                message: ls[3],
                files: file_changes(ls.subrange(4, end), patterns),
            },
        )
    }
}

/// Whether a parsed commit stays in the result: with filters configured, a
/// commit none of whose files got through is left out.
pub open spec fn retained(commit: CommitView, patterns: Seq<Seq<char>>) -> bool {
    patterns.len() == 0 || commit.files.len() > 0
}

/// The commits that `chunks` parse to, in the order of the chunks: those
/// that are well formed and retained.
pub open spec fn commits_in(chunks: Seq<Seq<char>>, patterns: Seq<Seq<char>>) -> Seq<CommitView>
    decreases chunks.len(),
{
    if chunks.len() == 0 {
        seq![]
    } else {
        let before = commits_in(chunks.drop_last(), patterns);
        match parse_record(chunks.last(), patterns) {
            Ok(commit) => if retained(commit, patterns) {
                before.push(commit)
            } else {
                before
            },
            Err(_) => before,
        }
    }
}

/// The blocks of the captured output: what stands between the start
/// markers, without the text before the first of them.
pub open spec fn records(data: Seq<char>) -> Seq<Seq<char>> {
    split_on(data, start_marker()).skip(1)
}

/// The commits that the captured output `data` tells of.
pub open spec fn parse_log(data: Seq<char>, patterns: Seq<Seq<char>>) -> Seq<CommitView> {
    commits_in(records(data), patterns)
}

/// An index `n` at which the end marker stands, or the end of `lines`, with
/// no end marker before it, is the terminator index.
pub proof fn lemma_terminator_index_is(lines: Seq<Seq<char>>, n: nat)
    requires
        n <= lines.len(),
        forall|k: int| 0 <= k < n ==> #[trigger] lines[k] != end_marker(),
        n == lines.len() || lines[n as int] == end_marker(),
    ensures
        terminator_index(lines) == n,
    decreases n,
{
    if n > 0 {
        let t = lines.skip(1);
        assert forall|k: int| 0 <= k < n - 1 implies #[trigger] t[k] != end_marker() by {
            assert(t[k] == lines[k + 1]);
        }
        lemma_terminator_index_is(t, (n - 1) as nat);
    }
}

/// The status code and the file name of the file-status line `line`.
pub fn parse_status_line(line: &Vec<char>) -> (r: Option<(Vec<char>, Vec<char>)>)
    ensures
        match r {
            Some((status, filename)) => status_line(line@) == Some((status@, filename@)),
            None => status_line(line@) is None,
        },
{
    let (a, b) = trim_bounds(line, 0, line.len());
    assert(line@.subrange(0, line.len() as int) =~= line@);
    let ghost t = line@.subrange(a as int, b as int);
    let tab = scan(line, a, b, CharClass::Except('\t'));
    if tab == b {
        return None;
    }
    let end = scan(line, tab + 1, b, CharClass::Except('\t'));
    let status = slice_of(line, a, tab);
    let filename = slice_of(line, tab + 1, end);
    proof {
        let rest = t.skip(tab - a + 1);
        assert(rest =~= line@.subrange(tab + 1, b as int));
        assert(t.take(tab - a) =~= status@);
        assert(rest.take(end - (tab + 1)) =~= filename@);
    }
    Some((status, filename))
}

/// The file changes that the lines `lines[from..to]` tell of.
pub fn parse_file_changes(
    lines: &Vec<Vec<char>>,
    from: usize,
    to: usize,
    patterns: &Vec<Vec<char>>,
) -> (r: Vec<FileChange>)
    requires
        from <= to <= lines.len(),
    ensures
        file_views(r@) == file_changes(
            views(lines@).subrange(from as int, to as int),
            views(patterns@),
        ),
{
    let mut r: Vec<FileChange> = Vec::new();
    let mut i: usize = from;
    let ghost window = views(lines@).subrange(from as int, to as int);
    assert(window.take(0) =~= Seq::<Seq<char>>::empty());
    assert(file_views(r@) =~= Seq::<FileChangeView>::empty());
    while i < to
        invariant
            from <= i <= to <= lines.len(),
            window == views(lines@).subrange(from as int, to as int),
            file_views(r@) == file_changes(window.take(i - from), views(patterns@)),
        decreases to - i,
    {
        let ghost before = file_views(r@);
        proof {
            let next = window.take(i - from + 1);
            assert(next.drop_last() =~= window.take(i - from));
            assert(next.last() == lines@[i as int]@);
        }
        match parse_status_line(&lines[i]) {
            Some((status, filename)) => {
                if matches_any_pattern(patterns, &filename) {
                    let (additions, deletions) = change_count(&status);
                    let change = FileChange {
                        filename: string_of(&filename),
                        status: string_of(&status),
                        additions,
                        deletions,
                    };
                    r.push(change);
                    assert(file_views(r@) =~= before.push(change@));
                }
            },
            None => {},
        }
        i += 1;
    }
    assert(window.take(to - from) =~= window);
    r
}

/// The index of the first line of `lines` that is the end marker, or the
/// number of lines.
pub fn find_terminator(lines: &Vec<Vec<char>>) -> (n: usize)
    ensures
        n == terminator_index(views(lines@)),
        n <= lines.len(),
{
    let marker = chars_of("COMMIT_END");
    let mut n: usize = 0;
    while n < lines.len()
        invariant
            n <= lines.len(),
            marker@ == end_marker(),
            forall|k: int| 0 <= k < n ==> #[trigger] views(lines@)[k] != end_marker(),
        decreases lines.len() - n,
    {
        if same_chars(&lines[n], &marker) {
            proof {
                lemma_terminator_index_is(views(lines@), n as nat);
            }
            return n;
        }
        n += 1;
    }
    proof {
        lemma_terminator_index_is(views(lines@), n as nat);
    }
    n
}

/// Parses one block into a commit, or says why the block is malformed.
pub fn parse_single_commit(chunk: &Vec<char>, patterns: &Vec<Vec<char>>) -> (r: Result<
    Commit,
    GitMetricsError,
>)
    ensures
        match r {
            Ok(commit) => parse_record(chunk@, views(patterns@)) == Ok::<CommitView, ErrorView>(
                commit@,
            ),
            Err(e) => parse_record(chunk@, views(patterns@)) == Err::<CommitView, ErrorView>(e@),
        },
{
    let ls = lines_of(chunk);
    let end = find_terminator(&ls);
    if end >= ls.len() {
        return Err(
            GitMetricsError::Other(
                String::from_str("Malformed commit data: no COMMIT_END marker"),
            ),
        );
    }
    if end < 4 {
        return Err(GitMetricsError::Other(String::from_str("Not enough lines in commit data")));
    }
    let files = parse_file_changes(&ls, 4, end, patterns);
    Ok(
        Commit {
            hash: string_of(&ls[0]),
            author: string_of(&ls[1]),
            date: string_of(&ls[2]),
            message: string_of(&ls[3]),
            files,
        },
    )
}

/// Whether a parsed commit stays in the result.
pub fn is_retained(commit: &Commit, patterns: &Vec<Vec<char>>) -> (r: bool)
    ensures
        r == retained(commit@, views(patterns@)),
{
    patterns.len() == 0 || commit.files.len() > 0
}

/// The commits that the blocks `chunks[from..]` parse to.
pub fn parse_chunks(chunks: &Vec<Vec<char>>, from: usize, patterns: &Vec<Vec<char>>) -> (r: Vec<
    Commit,
>)
    requires
        from <= chunks.len(),
    ensures
        commit_views(r@) == commits_in(views(chunks@).skip(from as int), views(patterns@)),
{
    let mut r: Vec<Commit> = Vec::new();
    let mut i: usize = from;
    let ghost window = views(chunks@).skip(from as int);
    assert(window.take(0) =~= Seq::<Seq<char>>::empty());
    assert(commit_views(r@) =~= Seq::<CommitView>::empty());
    while i < chunks.len()
        invariant
            from <= i <= chunks.len(),
            window == views(chunks@).skip(from as int),
            commit_views(r@) == commits_in(window.take(i - from), views(patterns@)),
        decreases chunks.len() - i,
    {
        let ghost before = commit_views(r@);
        proof {
            let next = window.take(i - from + 1);
            assert(next.drop_last() =~= window.take(i - from));
            assert(next.last() == chunks@[i as int]@);
        }
        match parse_single_commit(&chunks[i], patterns) {
            Ok(commit) => {
                if is_retained(&commit, patterns) {
                    r.push(commit);
                    assert(commit_views(r@) =~= before.push(commit@));
                }
            },
            Err(_) => {},
        }
        i += 1;
    }
    assert(window.take(chunks.len() - from) =~= window);
    r
}

/// The commits that the captured output `data` tells of. No input makes
/// this fail: a malformed block only leaves the result shorter.
pub fn parse_commit_data(data: &Vec<char>, patterns: &Vec<Vec<char>>) -> (r: Vec<Commit>)
    ensures
        commit_views(r@) == parse_log(data@, views(patterns@)),
{
    let marker = chars_of("COMMIT_START\n");
    proof {
        reveal_strlit("COMMIT_START\n");
    }
    let chunks = split(data, &marker);
    parse_chunks(&chunks, 1, patterns)
}

/// The commits of a list of blocks are those of its front part followed by
/// those of its back part.
pub proof fn lemma_commits_in_concat(
    front: Seq<Seq<char>>,
    back: Seq<Seq<char>>,
    patterns: Seq<Seq<char>>,
)
    ensures
        commits_in(front + back, patterns) == commits_in(front, patterns) + commits_in(
            back,
            patterns,
        ),
    decreases back.len(),
{
    if back.len() == 0 {
        assert(front + back =~= front);
        assert(commits_in(front, patterns) + commits_in(back, patterns) =~= commits_in(
            front,
            patterns,
        ));
    } else {
        lemma_commits_in_concat(front, back.drop_last(), patterns);
        assert((front + back).drop_last() =~= front + back.drop_last());
        assert((front + back).last() == back.last());
        let head = commits_in(front, patterns);
        let tail = commits_in(back.drop_last(), patterns);
        match parse_record(back.last(), patterns) {
            Ok(commit) => {
                if retained(commit, patterns) {
                    assert((head + tail).push(commit) =~= head + tail.push(commit));
                }
            },
            Err(_) => {},
        }
    }
}

/// A block without the end marker, or with fewer than four lines before
/// it, is dropped, and the blocks around it parse as if it were not there.
pub proof fn lemma_malformed_block_is_dropped(
    before: Seq<Seq<char>>,
    block: Seq<char>,
    after: Seq<Seq<char>>,
    patterns: Seq<Seq<char>>,
)
    requires
        terminator_index(lines(block)) >= lines(block).len() || terminator_index(lines(block))
            < 4,
    ensures
        parse_record(block, patterns) is Err,
        commits_in(before + seq![block] + after, patterns) == commits_in(
            before + after,
            patterns,
        ),
{
    let one = seq![block];
    assert(parse_record(block, patterns) is Err);
    assert(one.last() == block);
    assert(one.drop_last() =~= Seq::<Seq<char>>::empty());
    assert(commits_in(one.drop_last(), patterns) =~= Seq::<CommitView>::empty());
    assert(commits_in(one, patterns) =~= Seq::<CommitView>::empty());
    lemma_commits_in_concat(before, one, patterns);
    lemma_commits_in_concat(before + one, after, patterns);
    lemma_commits_in_concat(before, after, patterns);
    assert(commits_in(before, patterns) + commits_in(one, patterns) =~= commits_in(
        before,
        patterns,
    ));
}

/// Every file change that a parse produces carries the counts that its
/// status stands for, and with patterns configured its name got through
/// them.
pub proof fn lemma_file_changes_wf(lines: Seq<Seq<char>>, patterns: Seq<Seq<char>>)
    ensures
        forall|i: int|
            0 <= i < file_changes(lines, patterns).len() ==> {
                &&& (#[trigger] file_changes(lines, patterns)[i]).wf()
                &&& matches_any(patterns, file_changes(lines, patterns)[i].filename)
            },
    decreases lines.len(),
{
    if lines.len() > 0 {
        let front = file_changes(lines.drop_last(), patterns);
        let all = file_changes(lines, patterns);
        lemma_file_changes_wf(lines.drop_last(), patterns);
        assert forall|i: int| 0 <= i < all.len() implies {
            &&& (#[trigger] all[i]).wf()
            &&& matches_any(patterns, all[i].filename)
        } by {
            if i < front.len() {
                assert(all[i] == front[i]);
            } else {
                assert(file_change_of(lines.last(), patterns) == Some(all[i]));
            }
        }
    }
}

/// Every commit of a parse is one of the blocks parsed whole: the parse of
/// a list of blocks holds no commit that `parse_record` did not give for
/// one of them, and each commit is well formed and retained.
pub proof fn lemma_commits_are_whole(chunks: Seq<Seq<char>>, patterns: Seq<Seq<char>>)
    ensures
        forall|i: int|
            0 <= i < commits_in(chunks, patterns).len() ==> {
                &&& exists|k: int|
                    0 <= k < chunks.len() && parse_record(#[trigger] chunks[k], patterns) == Ok::<
                        CommitView,
                        ErrorView,
                    >(commits_in(chunks, patterns)[i])
                &&& (#[trigger] commits_in(chunks, patterns)[i]).wf()
                &&& retained(commits_in(chunks, patterns)[i], patterns)
            },
    decreases chunks.len(),
{
    if chunks.len() > 0 {
        let front = chunks.drop_last();
        lemma_commits_are_whole(front, patterns);
        let all = commits_in(chunks, patterns);
        assert forall|i: int| 0 <= i < all.len() implies {
            &&& exists|k: int|
                0 <= k < chunks.len() && parse_record(#[trigger] chunks[k], patterns) == Ok::<
                    CommitView,
                    ErrorView,
                >(all[i])
            &&& (#[trigger] all[i]).wf()
            &&& retained(all[i], patterns)
        } by {
            if i < commits_in(front, patterns).len() {
                assert(all[i] == commits_in(front, patterns)[i]);
                let k = choose|k: int|
                    0 <= k < front.len() && parse_record(#[trigger] front[k], patterns) == Ok::<
                        CommitView,
                        ErrorView,
                    >(all[i]);
                assert(chunks[k] == front[k]);
            } else {
                let last = chunks.len() - 1;
                assert(parse_record(chunks[last], patterns) == Ok::<CommitView, ErrorView>(
                    all[i],
                ));
                let ls = lines(chunks[last]);
                lemma_file_changes_wf(
                    ls.subrange(4, terminator_index(ls) as int),
                    patterns,
                );
            }
        }
    }
}

} // verus!
