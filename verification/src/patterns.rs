//! File-pattern filtering: which file names a list of glob patterns lets
//! through.
//!
//! A pattern is tried in three ways, in this order: a pattern that begins
//! with `*.` accepts every name that ends with what follows the star; a
//! pattern that holds a `*` is turned into an anchored regular expression
//! and handed to the regex engine; any other pattern accepts the one name
//! equal to it.

use crate::text::{find_char, occurs_at, same_chars, scan, slice_of, string_of, views, CharClass};
use vstd::prelude::*;

verus! {

/// What the regex engine says of the pattern source `source` and the text
/// `haystack`: `None` where `source` does not compile, else whether the
/// compiled expression matches somewhere in `haystack`.
pub uninterp spec fn regex_search(source: Seq<char>, haystack: Seq<char>) -> Option<bool>;

/// Compiles `source` with `regex::Regex::new` and, where that succeeds,
/// searches `haystack` with `Regex::is_match`. Both depend on their
/// arguments alone, so the outcome has a name; nothing more is claimed of
/// it.
#[verifier::external_body]
fn regex_is_match(source: &str, haystack: &str) -> (r: Option<bool>)
    ensures
        r == regex_search(source@, haystack@),
{
    match regex::Regex::new(source) {
        Ok(re) => Some(re.is_match(haystack)),
        Err(_) => None,
    }
}

/// What one character of a glob becomes in a regular expression: a dot is
/// escaped, a star stands for any run of characters, anything else stays.
pub open spec fn glob_piece(c: char) -> Seq<char> {
    if c == '.' {
        seq!['\\', '.']
    } else if c == '*' {
        seq!['.', '*']
    } else {
        seq![c]
    }
}

/// The pieces of all characters of `pattern`, in order.
pub open spec fn glob_body(pattern: Seq<char>) -> Seq<char>
    decreases pattern.len(),
{
    if pattern.len() == 0 {
        seq![]
    } else {
        glob_body(pattern.drop_last()) + glob_piece(pattern.last())
    }
}

/// The regular expression for the glob `pattern`, anchored at both ends.
pub open spec fn glob_regex(pattern: Seq<char>) -> Seq<char> {
    seq!['^'] + glob_body(pattern) + seq!['$']
}

/// Whether `pattern` begins with `*.`.
pub open spec fn is_suffix_glob(pattern: Seq<char>) -> bool {
    pattern.len() >= 2 && pattern[0] == '*' && pattern[1] == '.'
}

/// Whether `pattern` begins with `*.` and `filename` ends with what follows
/// the star.
pub open spec fn suffix_accepts(pattern: Seq<char>, filename: Seq<char>) -> bool {
    is_suffix_glob(pattern) && pattern.skip(1).is_suffix_of(filename)
}

/// Whether `pattern` holds a star.
pub open spec fn has_wildcard(pattern: Seq<char>) -> bool {
    find_char(pattern, '*') < pattern.len()
}

/// Whether the regex engine has to be asked about `pattern` and `filename`.
pub open spec fn needs_regex(pattern: Seq<char>, filename: Seq<char>) -> bool {
    !suffix_accepts(pattern, filename) && has_wildcard(pattern)
}

/// Whether `pattern` accepts `filename`, given what the regex engine said of
/// the pattern's regular expression and the name.
pub open spec fn accepts_given(
    pattern: Seq<char>,
    filename: Seq<char>,
    outcome: Option<bool>,
) -> bool {
    if suffix_accepts(pattern, filename) {
        true
    } else if has_wildcard(pattern) {
        outcome == Some(true)
    } else {
        filename == pattern
    }
}

/// Whether `pattern` accepts `filename`.
pub open spec fn pattern_accepts(pattern: Seq<char>, filename: Seq<char>) -> bool {
    accepts_given(pattern, filename, regex_search(glob_regex(pattern), filename))
}

/// Whether `patterns` lets `filename` through: an empty list accepts every
/// name, any other list the names that one of its patterns accepts.
pub open spec fn matches_any(patterns: Seq<Seq<char>>, filename: Seq<char>) -> bool {
    patterns.len() == 0 || exists|i: int|
        0 <= i < patterns.len() && pattern_accepts(#[trigger] patterns[i], filename)
}

/// The regular expression for the glob `pattern`.
pub fn glob_to_regex(pattern: &Vec<char>) -> (r: Vec<char>)
    ensures
        r@ == glob_regex(pattern@),
{
    let mut r: Vec<char> = Vec::new();
    r.push('^');
    let mut i: usize = 0;
    while i < pattern.len()
        invariant
            i <= pattern.len(),
            r@ == seq!['^'] + glob_body(pattern@.take(i as int)),
        decreases pattern.len() - i,
    {
        let c = pattern[i];
        let ghost before = r@;
        if c == '.' {
            r.push('\\');
            r.push('.');
        } else if c == '*' {
            r.push('.');
            r.push('*');
        } else {
            r.push(c);
        }
        proof {
            let next = pattern@.take(i + 1);
            assert(next.drop_last() =~= pattern@.take(i as int));
            assert(next.last() == c);
            assert(r@ =~= before + glob_piece(c));
        }
        i += 1;
    }
    r.push('$');
    assert(pattern@.take(pattern.len() as int) =~= pattern@);
    r
}

/// Whether `pattern` begins with `*.` and `filename` ends with what follows
/// the star.
pub fn suffix_matches(pattern: &Vec<char>, filename: &Vec<char>) -> (r: bool)
    ensures
        r == suffix_accepts(pattern@, filename@),
{
    if pattern.len() < 2 || pattern[0] != '*' || pattern[1] != '.' {
        return false;
    }
    let suffix = slice_of(pattern, 1, pattern.len());
    assert(suffix@ =~= pattern@.skip(1));
    if suffix.len() > filename.len() {
        return false;
    }
    let at = filename.len() - suffix.len();
    let r = occurs_at(filename, at, filename.len(), &suffix);
    proof {
        let tail = filename@.subrange(at as int, filename.len() as int);
        assert(tail.subrange(0, suffix@.len() as int) =~= tail);
    }
    r
}

/// Whether `pattern` holds a star.
pub fn contains_wildcard(pattern: &Vec<char>) -> (r: bool)
    ensures
        r == has_wildcard(pattern@),
{
    let n = scan(pattern, 0, pattern.len(), CharClass::Except('*'));
    assert(pattern@.subrange(0, pattern.len() as int) =~= pattern@);
    n < pattern.len()
}

/// Whether `pattern` accepts `filename`, given what the regex engine said of
/// the pattern's regular expression and the name. The outcome is read only
/// where the suffix rule does not accept and the pattern holds a star.
pub fn pattern_matches_given(
    pattern: &Vec<char>,
    filename: &Vec<char>,
    outcome: Option<bool>,
) -> (r: bool)
    ensures
        r == accepts_given(pattern@, filename@, outcome),
{
    if suffix_matches(pattern, filename) {
        true
    } else if contains_wildcard(pattern) {
        match outcome {
            Some(found) => found,
            None => false,
        }
    } else {
        same_chars(filename, pattern)
    }
}

/// Whether `pattern` accepts `filename`. The regex engine is asked only
/// where the other two rules leave the answer open.
pub fn pattern_matches(pattern: &Vec<char>, filename: &Vec<char>) -> (r: bool)
    ensures
        r == pattern_accepts(pattern@, filename@),
{
    if !suffix_matches(pattern, filename) && contains_wildcard(pattern) {
        let source = string_of(&glob_to_regex(pattern));
        let haystack = string_of(filename);
        let outcome = regex_is_match(source.as_str(), haystack.as_str());
        pattern_matches_given(pattern, filename, outcome)
    } else {
        pattern_matches_given(pattern, filename, None)
    }
}

/// Whether `patterns` lets `filename` through.
pub fn matches_any_pattern(patterns: &Vec<Vec<char>>, filename: &Vec<char>) -> (r: bool)
    ensures
        r == matches_any(views(patterns@), filename@),
{
    if patterns.len() == 0 {
        return true;
    }
    let mut i: usize = 0;
    while i < patterns.len()
        invariant
            i <= patterns.len(),
            patterns.len() > 0,
            forall|k: int|
                0 <= k < i ==> !pattern_accepts(#[trigger] views(patterns@)[k], filename@),
        decreases patterns.len() - i,
    {
        if pattern_matches(&patterns[i], filename) {
            assert(pattern_accepts(views(patterns@)[i as int], filename@));
            return true;
        }
        i += 1;
    }
    false
}

} // verus!
