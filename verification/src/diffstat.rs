//! Decoding the statistics part of a line of a diff summary into counts of
//! added and deleted lines.
//!
//! The tool writes the statistics in one of three ways, depending on its
//! version and on the width of the terminal. They are tried in a fixed
//! order, and the first that yields a count other than zero wins:
//!
//! 1. in words, as in `5 insertions(+), 3 deletions(-)`, where either part
//!    may be missing;
//! 2. as a histogram of `+` and `-` signs;
//! 3. as one total, which is split evenly, an odd one in favour of the
//!    additions.

use crate::numbers::{parse_number, parse_u32};
use crate::text::{
    chars_of, contains_sub, find_sub, first_token, first_token_bounds, last_token,
    last_token_bounds, search,
};
use vstd::prelude::*;

verus! {

/// The number written by the first token of `stats`, if it writes one.
pub open spec fn leading_count(stats: Seq<char>) -> Option<u32> {
    parse_u32(first_token(stats))
}

/// The number written by the token right before the first occurrence of
/// `word` in `stats`, if it writes one.
pub open spec fn count_before(stats: Seq<char>, word: Seq<char>) -> Option<u32> {
    parse_u32(last_token(stats.take(find_sub(stats, word) as int)))
}

/// The count, or zero where there is none.
pub open spec fn or_zero(count: Option<u32>) -> nat {
    match count {
        Some(n) => n as nat,
        None => 0,
    }
}

/// How often `c` occurs in `s`.
pub open spec fn occurrences(s: Seq<char>, c: char) -> nat
    decreases s.len(),
{
    if s.len() == 0 {
        0
    } else {
        occurrences(s.drop_last(), c) + if s.last() == c {
            1nat
        } else {
            0nat
        }
    }
}

/// The counts that `stats` gives in words: the leading number where the
/// word `insertion` occurs, and the number right before the word `deletion`
/// where that occurs. A part that is missing or is no number counts zero.
pub open spec fn worded_counts(stats: Seq<char>) -> (nat, nat) {
    (
        if contains_sub(stats, "insertion"@) {
            or_zero(leading_count(stats))
        } else {
            0
        },
        if contains_sub(stats, "deletion"@) {
            or_zero(count_before(stats, "deletion"@))
        } else {
            0
        },
    )
}

/// The counts that `stats` gives as a histogram: its `+` and `-` signs.
pub open spec fn symbol_counts(stats: Seq<char>) -> (nat, nat) {
    (occurrences(stats, '+'), occurrences(stats, '-'))
}

/// A total split evenly into additions and deletions; the additions get the
/// odd one.
pub open spec fn split_total(total: nat) -> (nat, nat) {
    (total / 2 + total % 2, total / 2)
}

/// Whether a way of reading the statistics yielded anything.
pub open spec fn yields(counts: (nat, nat)) -> bool {
    counts.0 != 0 || counts.1 != 0
}

/// The additions and deletions that `stats` tells of.
pub open spec fn diff_stats(stats: Seq<char>) -> (nat, nat) {
    if yields(worded_counts(stats)) {
        worded_counts(stats)
    } else if yields(symbol_counts(stats)) {
        symbol_counts(stats)
    } else {
        match leading_count(stats) {
            Some(total) => split_total(total as nat),
            None => (0, 0),
        }
    }
}

/// No character occurs more often than the sequence is long, and two
/// different characters share its length between them.
pub proof fn lemma_occurrences_bound(s: Seq<char>, a: char, b: char)
    requires
        a != b,
    ensures
        occurrences(s, a) + occurrences(s, b) <= s.len(),
    decreases s.len(),
{
    if s.len() > 0 {
        lemma_occurrences_bound(s.drop_last(), a, b);
    }
}

/// The number written by the first token of `v[from..to]`.
pub fn leading_count_in(v: &Vec<char>, from: usize, to: usize) -> (r: Option<u32>)
    requires
        from <= to <= v.len(),
    ensures
        r == leading_count(v@.subrange(from as int, to as int)),
{
    let (a, b) = first_token_bounds(v, from, to);
    parse_number(v, a, b)
}

/// Whether `word` occurs in `v[from..to]`.
pub fn contains_in(v: &Vec<char>, from: usize, to: usize, word: &Vec<char>) -> (r: bool)
    requires
        from <= to <= v.len(),
    ensures
        r == contains_sub(v@.subrange(from as int, to as int), word@),
{
    let hit = search(v, from, to, word);
    word.len() <= to - hit
}

/// The number written by the token right before the first occurrence of
/// `word` in `v[from..to]`.
pub fn count_before_in(v: &Vec<char>, from: usize, to: usize, word: &Vec<char>) -> (r: Option<
    u32,
>)
    requires
        from <= to <= v.len(),
    ensures
        r == count_before(v@.subrange(from as int, to as int), word@),
{
    let hit = search(v, from, to, word);
    let (a, b) = last_token_bounds(v, from, hit);
    assert(v@.subrange(from as int, to as int).take(hit - from) =~= v@.subrange(
        from as int,
        hit as int,
    ));
    parse_number(v, a, b)
}

/// How often `c` occurs in `v[from..to]`.
pub fn count_char_in(v: &Vec<char>, from: usize, to: usize, c: char) -> (n: usize)
    requires
        from <= to <= v.len(),
    ensures
        n == occurrences(v@.subrange(from as int, to as int), c),
        n <= to - from,
{
    let mut n: usize = 0;
    let mut i: usize = from;
    assert(v@.subrange(from as int, from as int) =~= Seq::<char>::empty());
    while i < to
        invariant
            from <= i <= to <= v.len(),
            n == occurrences(v@.subrange(from as int, i as int), c),
            n <= i - from,
        decreases to - i,
    {
        assert(v@.subrange(from as int, i + 1).drop_last() =~= v@.subrange(
            from as int,
            i as int,
        ));
        if v[i] == c {
            n += 1;
        }
        i += 1;
    }
    n
}

/// The counts that `v[from..to]` gives in words.
pub fn worded_counts_in(v: &Vec<char>, from: usize, to: usize) -> (r: (u32, u32))
    requires
        from <= to <= v.len(),
    ensures
        (r.0 as nat, r.1 as nat) == worded_counts(v@.subrange(from as int, to as int)),
{
    let insertion = chars_of("insertion");
    let deletion = chars_of("deletion");
    let mut added: u32 = 0;
    let mut deleted: u32 = 0;
    if contains_in(v, from, to, &insertion) {
        if let Some(n) = leading_count_in(v, from, to) {
            added = n;
        }
    }
    if contains_in(v, from, to, &deletion) {
        if let Some(n) = count_before_in(v, from, to, &deletion) {
            deleted = n;
        }
    }
    (added, deleted)
}

/// A total split evenly into additions and deletions.
pub fn split_evenly(total: u32) -> (r: (u32, u32))
    ensures
        (r.0 as nat, r.1 as nat) == split_total(total as nat),
{
    (total / 2 + total % 2, total / 2)
}

/// The additions and deletions that `v[from..to]` tells of.
pub fn diff_stats_in(v: &Vec<char>, from: usize, to: usize) -> (r: (u64, u64))
    requires
        from <= to <= v.len(),
    ensures
        (r.0 as nat, r.1 as nat) == diff_stats(v@.subrange(from as int, to as int)),
        r.0 + r.1 <= u64::MAX,
{
    let (added, deleted) = worded_counts_in(v, from, to);
    if added != 0 || deleted != 0 {
        return (added as u64, deleted as u64);
    }
    let plus = count_char_in(v, from, to, '+');
    let minus = count_char_in(v, from, to, '-');
    if plus != 0 || minus != 0 {
        proof {
            lemma_occurrences_bound(v@.subrange(from as int, to as int), '+', '-');
        }
        return (plus as u64, minus as u64);
    }
    match leading_count_in(v, from, to) {
        Some(total) => {
            let (more, less) = split_evenly(total);
            (more as u64, less as u64)
        },
        None => (0, 0),
    }
}

/// The additions and deletions that the statistics `stats` tell of.
pub fn parse_diff_stats(stats: &str) -> (r: (u64, u64))
    ensures
        (r.0 as nat, r.1 as nat) == diff_stats(stats@),
        r.0 + r.1 <= u64::MAX,
{
    let v = chars_of(stats);
    assert(v@.subrange(0, v.len() as int) =~= v@);
    diff_stats_in(&v, 0, v.len())
}

} // verus!
