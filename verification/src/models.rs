//! The records that a parse produces: a commit and the files it touched.

use vstd::prelude::*;

verus! {

/// One file touched by a commit.
#[derive(Debug, Clone, PartialEq, Eq)]
pub struct FileChange {
    /// The path as the tool reported it, relative to the repository root.
    pub filename: String,
    /// The raw status code, such as `A`, `M` or `R100`.
    pub status: String,
    /// 1 where the status adds content, else 0. Not a line count.
    pub additions: u32,
    /// 1 where the status removes content, else 0. Not a line count.
    pub deletions: u32,
}

/// What a `FileChange` holds, as mathematical values.
pub struct FileChangeView {
    pub filename: Seq<char>,
    pub status: Seq<char>,
    pub additions: u32,
    pub deletions: u32,
}

impl View for FileChange {
    type V = FileChangeView;

    open spec fn view(&self) -> FileChangeView {
        FileChangeView {
            filename: self.filename@,
            status: self.status@,
            additions: self.additions,
            deletions: self.deletions,
        }
    }
}

/// One revision record.
#[derive(Debug, Clone, PartialEq, Eq)]
pub struct Commit {
    /// The full revision identifier.
    pub hash: String,
    pub author: String,
    pub date: String,
    /// The summary line of the commit message.
    pub message: String,
    /// The files touched, in the order the tool reported them.
    pub files: Vec<FileChange>,
}

/// What a `Commit` holds, as mathematical values.
pub struct CommitView {
    pub hash: Seq<char>,
    pub author: Seq<char>,
    pub date: Seq<char>,
    pub message: Seq<char>,
    pub files: Seq<FileChangeView>,
}

impl View for Commit {
    type V = CommitView;

    open spec fn view(&self) -> CommitView {
        CommitView {
            hash: self.hash@,
            author: self.author@,
            date: self.date@,
            message: self.message@,
            files: file_views(self.files@),
        }
    }
}

/// The views of a sequence of file changes.
pub open spec fn file_views(files: Seq<FileChange>) -> Seq<FileChangeView> {
    Seq::new(files.len(), |i: int| files[i]@)
}

/// The views of a sequence of commits.
pub open spec fn commit_views(commits: Seq<Commit>) -> Seq<CommitView> {
    Seq::new(commits.len(), |i: int| commits[i]@)
}

/// The pair (additions, deletions) that a status code stands for. Only the
/// first character counts: `A` adds, `D` deletes, `M`, `R` and `C` do both,
/// and any other code, the empty one too, does neither.
pub open spec fn status_counts(status: Seq<char>) -> (u32, u32) {
    if status.len() == 0 {
        (0, 0)
    } else if status[0] == 'A' {
        (1, 0)
    } else if status[0] == 'D' {
        (0, 1)
    } else if status[0] == 'M' || status[0] == 'R' || status[0] == 'C' {
        (1, 1)
    } else {
        (0, 0)
    }
}

impl FileChangeView {
    /// The counts are those that the status stands for.
    pub open spec fn wf(self) -> bool {
        (self.additions, self.deletions) == status_counts(self.status)
    }
}

impl CommitView {
    /// Every file change of the commit is well formed.
    pub open spec fn wf(self) -> bool {
        forall|i: int| 0 <= i < self.files.len() ==> (#[trigger] self.files[i]).wf()
    }
}

/// The pair (additions, deletions) for the status code `status[..]`.
pub fn change_count(status: &Vec<char>) -> (r: (u32, u32))
    ensures
        r == status_counts(status@),
{
    if status.len() == 0 {
        return (0, 0);
    }
    let c = status[0];
    if c == 'A' {
        (1, 0)
    } else if c == 'D' {
        (0, 1)
    } else if c == 'M' || c == 'R' || c == 'C' {
        (1, 1)
    } else {
        (0, 0)
    }
}

/// Only the first character of a status code counts: what follows it, such
/// as the similarity after `R` or `C`, changes nothing.
pub proof fn lemma_status_suffix_ignored(status: Seq<char>, suffix: Seq<char>)
    requires
        status.len() > 0,
    ensures
        status_counts(status + suffix) == status_counts(status),
{
    assert((status + suffix)[0] == status[0]);
}

} // verus!
