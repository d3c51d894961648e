//! The working changes: from the captured output of the tool's diff
//! summary to additions and deletions per file.
//!
//! A line of the summary has the form `<filename> | <statistics>`. A line
//! with no bar, or with more than one, tells of no file and is passed over.
//! Of several lines for one file the last one counts.

use crate::diffstat::{diff_stats, diff_stats_in};
use crate::patterns::{matches_any, matches_any_pattern};
use crate::text::{
    find_char, lines, lines_of, scan, slice_of, string_of, trim, trim_bounds, views, CharClass,
};
use vstd::prelude::*;

verus! {

/// The changes to one file of the working tree.
#[derive(Debug, Clone, PartialEq, Eq)]
pub struct FileDiff {
    /// The path as the tool reported it.
    pub filename: String,
    /// The number of lines added.
    pub additions: u64,
    /// The number of lines deleted.
    pub deletions: u64,
    /// The sum of the two.
    pub total: u64,
}

/// What a `FileDiff` holds, as mathematical values.
pub struct FileDiffView {
    pub filename: Seq<char>,
    pub additions: nat,
    pub deletions: nat,
    pub total: nat,
}

impl View for FileDiff {
    type V = FileDiffView;

    open spec fn view(&self) -> FileDiffView {
        FileDiffView {
            filename: self.filename@,
            additions: self.additions as nat,
            deletions: self.deletions as nat,
            total: self.total as nat,
        }
    }
}

/// The views of a sequence of file diffs.
pub open spec fn diff_views(diffs: Seq<FileDiff>) -> Seq<FileDiffView> {
    Seq::new(diffs.len(), |i: int| diffs[i]@)
}

/// The changes that one line of the summary tells of: the trimmed text
/// before the only bar is the file name, the trimmed text after it the
/// statistics. Nothing where the line has no bar or more than one, or where
/// `patterns` does not let the file name through.
pub open spec fn diff_line(line: Seq<char>, patterns: Seq<Seq<char>>) -> Option<FileDiffView> {
    let t = trim(line);
    let bar = find_char(t, '|') as int;
    let rest = t.skip(bar + 1);
    let filename = trim(t.take(bar));
    let counts = diff_stats(trim(rest));
    if bar < t.len() && find_char(rest, '|') == rest.len() && matches_any(patterns, filename) {
        Some(
            FileDiffView {
                filename,
                additions: counts.0,
                deletions: counts.1,
                total: counts.0 + counts.1,
            },
        )
    } else {
        None
    }
}

/// The changes per file name that `lines` tell of; a later line replaces
/// what an earlier one said of the same file.
pub open spec fn changes_of(lines: Seq<Seq<char>>, patterns: Seq<Seq<char>>) -> Map<
    Seq<char>,
    FileDiffView,
>
    decreases lines.len(),
{
    if lines.len() == 0 {
        Map::empty()
    } else {
        let before = changes_of(lines.drop_last(), patterns);
        match diff_line(lines.last(), patterns) {
            Some(diff) => before.insert(diff.filename, diff),
            None => before,
        }
    }
}

/// The changes per file name that the captured summary `output` tells of.
pub open spec fn working_changes(output: Seq<char>, patterns: Seq<Seq<char>>) -> Map<
    Seq<char>,
    FileDiffView,
> {
    changes_of(lines(output), patterns)
}

/// No two entries are about the same file.
pub open spec fn distinct_names(entries: Seq<FileDiffView>) -> bool {
    forall|i: int, j: int|
        0 <= i < entries.len() && 0 <= j < entries.len() && i != j ==> (
        #[trigger] entries[i]).filename != (#[trigger] entries[j]).filename
}

/// The mapping from file name to entry that a list of entries stands for.
pub open spec fn as_map(entries: Seq<FileDiffView>) -> Map<Seq<char>, FileDiffView>
    decreases entries.len(),
{
    if entries.len() == 0 {
        Map::empty()
    } else {
        as_map(entries.drop_last()).insert(entries.last().filename, entries.last())
    }
}

/// Replacing the entry of a file in a list without repeated names replaces
/// it in the mapping, and repeats no name.
pub proof fn lemma_replace_entry(entries: Seq<FileDiffView>, j: int, entry: FileDiffView)
    requires
        distinct_names(entries),
        0 <= j < entries.len(),
        entries[j].filename == entry.filename,
    ensures
        distinct_names(entries.update(j, entry)),
        as_map(entries.update(j, entry)) == as_map(entries).insert(entry.filename, entry),
    decreases entries.len(),
{
    let updated = entries.update(j, entry);
    assert forall|a: int, b: int|
        0 <= a < updated.len() && 0 <= b < updated.len() && a != b implies (
    #[trigger] updated[a]).filename != (#[trigger] updated[b]).filename by {
        assert(updated[a].filename == entries[a].filename);
        assert(updated[b].filename == entries[b].filename);
    }
    let front = entries.drop_last();
    if j == entries.len() - 1 {
        assert(updated.drop_last() =~= front);
        assert(as_map(updated) =~= as_map(entries).insert(entry.filename, entry));
    } else {
        assert(distinct_names(front)) by {
            assert forall|a: int, b: int|
                0 <= a < front.len() && 0 <= b < front.len() && a != b implies (
            #[trigger] front[a]).filename != (#[trigger] front[b]).filename by {
                assert(front[a] == entries[a]);
                assert(front[b] == entries[b]);
            }
        }
        lemma_replace_entry(front, j, entry);
        assert(updated.drop_last() =~= front.update(j, entry));
        assert(updated.last() == entries.last());
        assert(entries.last().filename != entries[j].filename);
        assert(as_map(updated) =~= as_map(entries).insert(entry.filename, entry));
    }
}

/// An entry whose file no entry of the list is about is added to the
/// mapping when it is appended to the list, and repeats no name.
pub proof fn lemma_append_entry(entries: Seq<FileDiffView>, entry: FileDiffView)
    requires
        distinct_names(entries),
        forall|i: int| 0 <= i < entries.len() ==> (#[trigger] entries[i]).filename != entry.filename,
    ensures
        distinct_names(entries.push(entry)),
        as_map(entries.push(entry)) == as_map(entries).insert(entry.filename, entry),
{
    let pushed = entries.push(entry);
    assert(pushed.drop_last() =~= entries);
    assert forall|a: int, b: int|
        0 <= a < pushed.len() && 0 <= b < pushed.len() && a != b implies (
    #[trigger] pushed[a]).filename != (#[trigger] pushed[b]).filename by {
        if a < entries.len() {
            assert(pushed[a] == entries[a]);
        }
        if b < entries.len() {
            assert(pushed[b] == entries[b]);
        }
    }
}

/// The changes that the line `line` of the summary tells of.
pub fn parse_diff_line(line: &Vec<char>, patterns: &Vec<Vec<char>>) -> (r: Option<FileDiff>)
    ensures
        match r {
            Some(diff) => diff_line(line@, views(patterns@)) == Some(diff@),
            None => diff_line(line@, views(patterns@)) is None,
        },
{
    let (a, b) = trim_bounds(line, 0, line.len());
    assert(line@.subrange(0, line.len() as int) =~= line@);
    let ghost t = line@.subrange(a as int, b as int);
    let bar = scan(line, a, b, CharClass::Except('|'));
    if bar == b {
        return None;
    }
    let ghost rest = t.skip(bar - a + 1);
    assert(rest =~= line@.subrange(bar + 1, b as int));
    assert(t.take(bar - a) =~= line@.subrange(a as int, bar as int));
    let second = scan(line, bar + 1, b, CharClass::Except('|'));
    if second < b {
        return None;
    }
    let (name_from, name_to) = trim_bounds(line, a, bar);
    let filename = slice_of(line, name_from, name_to);
    if !matches_any_pattern(patterns, &filename) {
        return None;
    }
    let (stats_from, stats_to) = trim_bounds(line, bar + 1, b);
    let (additions, deletions) = diff_stats_in(line, stats_from, stats_to);
    Some(
        FileDiff {
            filename: string_of(&filename),
            additions,
            deletions,
            total: additions + deletions,
        },
    )
}

/// The index of the entry about the file `filename`, if there is one.
pub fn position_of(entries: &Vec<FileDiff>, filename: &String) -> (r: Option<usize>)
    ensures
        match r {
            Some(j) => j < entries.len() && entries@[j as int].filename@ == filename@,
            None => forall|i: int|
                0 <= i < entries.len() ==> (#[trigger] entries@[i]).filename@ != filename@,
        },
{
    let mut i: usize = 0;
    while i < entries.len()
        invariant
            i <= entries.len(),
            forall|k: int| 0 <= k < i ==> (#[trigger] entries@[k]).filename@ != filename@,
        decreases entries.len() - i,
    {
        if entries[i].filename == *filename {
            return Some(i);
        }
        i += 1;
    }
    None
}

/// The changes per file that the captured summary `output` tells of, one
/// entry for each file, in the order in which the files first appear.
pub fn current_changes(output: &Vec<char>, patterns: &Vec<Vec<char>>) -> (r: Vec<FileDiff>)
    ensures
        distinct_names(diff_views(r@)),
        as_map(diff_views(r@)) == working_changes(output@, views(patterns@)),
{
    let ls = lines_of(output);
    let mut r: Vec<FileDiff> = Vec::new();
    let mut i: usize = 0;
    assert(views(ls@).take(0) =~= Seq::<Seq<char>>::empty());
    assert(diff_views(r@) =~= Seq::<FileDiffView>::empty());
    while i < ls.len()
        invariant
            i <= ls.len(),
            views(ls@) == lines(output@),
            distinct_names(diff_views(r@)),
            as_map(diff_views(r@)) == changes_of(views(ls@).take(i as int), views(patterns@)),
        decreases ls.len() - i,
    {
        let ghost before = diff_views(r@);
        proof {
            let next = views(ls@).take(i + 1);
            assert(next.drop_last() =~= views(ls@).take(i as int));
            assert(next.last() == ls@[i as int]@);
        }
        match parse_diff_line(&ls[i], patterns) {
            Some(diff) => {
                match position_of(&r, &diff.filename) {
                    Some(j) => {
                        proof {
                            lemma_replace_entry(before, j as int, diff@);
                        }
                        r[j] = diff;
                        assert(diff_views(r@) =~= before.update(j as int, diff@));
                    },
                    None => {
                        proof {
                            lemma_append_entry(before, diff@);
                        }
                        r.push(diff);
                        assert(diff_views(r@) =~= before.push(diff@));
                    },
                }
            },
            None => {},
        }
        i += 1;
    }
    assert(views(ls@).take(ls.len() as int) =~= views(ls@));
    r
}

} // verus!
