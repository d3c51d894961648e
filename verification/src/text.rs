//! Character sequences: conversions between strings and vectors of
//! characters, and the scanning primitives the parsers are built from.
//!
//! Every parser in this crate works on a `Vec<char>` and describes its result
//! over the `Seq<char>` behind it. The primitives here take a window
//! `from..to` of such a vector, so that a long input is walked once and never
//! copied whole.

use vstd::prelude::*;

verus! {

/// `String::push` appends one character to the string.
pub assume_specification[ String::push ](s: &mut String, c: char)
    ensures
        final(s)@ == old(s)@.push(c),
;

/// White space: the characters that Unicode marks `White_Space`.
pub open spec fn is_space(c: char) -> bool {
    let n = c as u32;
    ||| 0x9 <= n <= 0xd
    ||| n == 0x20
    ||| n == 0x85
    ||| n == 0xa0
    ||| n == 0x1680
    ||| 0x2000 <= n <= 0x200a
    ||| n == 0x2028
    ||| n == 0x2029
    ||| n == 0x202f
    ||| n == 0x205f
    ||| n == 0x3000
}

/// Whether `c` is white space.
pub fn is_whitespace(c: char) -> (b: bool)
    ensures
        b == is_space(c),
{
    let n: u32 = c as u32;
    (0x9 <= n && n <= 0xd) || n == 0x20 || n == 0x85 || n == 0xa0 || n == 0x1680 || (0x2000 <= n
        && n <= 0x200a) || n == 0x2028 || n == 0x2029 || n == 0x202f || n == 0x205f || n == 0x3000
}

/// A set of characters that a scan runs over.
#[derive(Clone, Copy, Debug)]
pub enum CharClass {
    /// White space.
    Space,
    /// Everything but white space.
    Visible,
    /// Everything but the one character given.
    Except(char),
}

impl CharClass {
    /// Whether `c` belongs to the class.
    pub open spec fn holds(self, c: char) -> bool {
        match self {
            CharClass::Space => is_space(c),
            CharClass::Visible => !is_space(c),
            CharClass::Except(x) => c != x,
        }
    }

    /// Whether `c` belongs to the class.
    pub fn test(&self, c: char) -> (b: bool)
        ensures
            b == self.holds(c),
    {
        match self {
            CharClass::Space => is_whitespace(c),
            CharClass::Visible => !is_whitespace(c),
            CharClass::Except(x) => c != *x,
        }
    }
}

/// The length of the longest prefix of `s` made of characters of `class`.
pub open spec fn run_len(s: Seq<char>, class: CharClass) -> nat
    decreases s.len(),
{
    if s.len() > 0 && class.holds(s[0]) {
        1 + run_len(s.skip(1), class)
    } else {
        0
    }
}

/// The length of the longest suffix of `s` made of characters of `class`.
pub open spec fn tail_run_len(s: Seq<char>, class: CharClass) -> nat
    decreases s.len(),
{
    if s.len() > 0 && class.holds(s.last()) {
        1 + tail_run_len(s.drop_last(), class)
    } else {
        0
    }
}

/// The index of the first `c` in `s`, or `s.len()` where `s` holds none.
pub open spec fn find_char(s: Seq<char>, c: char) -> nat {
    run_len(s, CharClass::Except(c))
}

/// `s` without its leading and trailing white space.
pub open spec fn trim(s: Seq<char>) -> Seq<char> {
    let t = s.skip(run_len(s, CharClass::Space) as int);
    t.take(t.len() - tail_run_len(t, CharClass::Space))
}

/// The first maximal run of visible characters in `s`; empty where `s` has
/// none.
pub open spec fn first_token(s: Seq<char>) -> Seq<char> {
    let t = s.skip(run_len(s, CharClass::Space) as int);
    t.take(run_len(t, CharClass::Visible) as int)
}

/// The last maximal run of visible characters in `s`; empty where `s` has
/// none.
pub open spec fn last_token(s: Seq<char>) -> Seq<char> {
    let t = s.take(s.len() - tail_run_len(s, CharClass::Space));
    t.skip(t.len() - tail_run_len(t, CharClass::Visible))
}

/// The index of the first occurrence of `pat` in `s`, or `s.len()` where
/// there is none (for a `pat` that is not empty).
pub open spec fn find_sub(s: Seq<char>, pat: Seq<char>) -> nat
    decreases s.len(),
{
    if pat.is_prefix_of(s) || s.len() == 0 {
        0
    } else {
        1 + find_sub(s.skip(1), pat)
    }
}

/// Whether `pat` occurs in `s`.
pub open spec fn contains_sub(s: Seq<char>, pat: Seq<char>) -> bool {
    find_sub(s, pat) + pat.len() <= s.len()
}

/// The pieces of `s` between the occurrences of `pat`, found from left to
/// right without overlap. There is always at least one piece.
pub open spec fn split_on(s: Seq<char>, pat: Seq<char>) -> Seq<Seq<char>>
    decreases s.len(),
{
    let i = find_sub(s, pat) as int;
    if pat.len() > 0 && i + pat.len() <= s.len() {
        seq![s.take(i)] + split_on(s.skip(i + pat.len()), pat)
    } else {
        seq![s]
    }
}

/// `line` without one trailing carriage return.
pub open spec fn strip_cr(line: Seq<char>) -> Seq<char> {
    if line.len() > 0 && line.last() == '\r' {
        line.drop_last()
    } else {
        line
    }
}

/// The lines of `s`. A line ends at a line feed, which is left out together
/// with a carriage return right before it; text after the last line feed is
/// a line of its own unless it is empty.
pub open spec fn lines(s: Seq<char>) -> Seq<Seq<char>>
    decreases s.len(),
{
    if s.len() == 0 {
        seq![]
    } else {
        let i = find_char(s, '\n') as int;
        if i < s.len() {
            seq![strip_cr(s.take(i))] + lines(s.skip(i + 1))
        } else {
            seq![s]
        }
    }
}

/// The sequences behind a vector of character vectors.
pub open spec fn views(v: Seq<Vec<char>>) -> Seq<Seq<char>> {
    Seq::new(v.len(), |i: int| v[i]@)
}

/// The character sequences behind a sequence of strings.
pub open spec fn texts(strings: Seq<String>) -> Seq<Seq<char>> {
    Seq::new(strings.len(), |i: int| strings[i]@)
}

/// The parts of `parts`, in order, with `sep` between each two of them.
pub open spec fn join(parts: Seq<Seq<char>>, sep: Seq<char>) -> Seq<char>
    decreases parts.len(),
{
    if parts.len() == 0 {
        seq![]
    } else if parts.len() == 1 {
        parts[0]
    } else {
        join(parts.drop_last(), sep) + sep + parts.last()
    }
}

/// A prefix of length `n` whose characters are all of `class`, and which
/// ends `s` or is followed by a character outside `class`, is the run.
pub proof fn lemma_run_len_is(s: Seq<char>, class: CharClass, n: nat)
    requires
        n <= s.len(),
        forall|k: int| 0 <= k < n ==> class.holds(#[trigger] s[k]),
        n == s.len() || !class.holds(s[n as int]),
    ensures
        run_len(s, class) == n,
    decreases n,
{
    if n > 0 {
        let t = s.skip(1);
        assert forall|k: int| 0 <= k < n - 1 implies class.holds(#[trigger] t[k]) by {
            assert(t[k] == s[k + 1]);
        }
        lemma_run_len_is(t, class, (n - 1) as nat);
    }
}

/// A suffix of length `n` whose characters are all of `class`, and which
/// starts `s` or is preceded by a character outside `class`, is the tail run.
pub proof fn lemma_tail_run_len_is(s: Seq<char>, class: CharClass, n: nat)
    requires
        n <= s.len(),
        forall|k: int| s.len() - n <= k < s.len() ==> class.holds(#[trigger] s[k]),
        n == s.len() || !class.holds(s[s.len() - n - 1]),
    ensures
        tail_run_len(s, class) == n,
    decreases n,
{
    if n > 0 {
        let t = s.drop_last();
        assert forall|k: int| t.len() - (n - 1) <= k < t.len() implies class.holds(
            #[trigger] t[k],
        ) by {
            assert(t[k] == s[k]);
        }
        lemma_tail_run_len_is(t, class, (n - 1) as nat);
    }
}

/// An index `n` at which `pat` occurs, or the end of `s`, with no occurrence
/// before it, is what `find_sub` gives.
pub proof fn lemma_find_sub_is(s: Seq<char>, pat: Seq<char>, n: nat)
    requires
        n <= s.len(),
        forall|k: int| 0 <= k < n ==> !pat.is_prefix_of(#[trigger] s.skip(k)),
        n == s.len() || pat.is_prefix_of(s.skip(n as int)),
    ensures
        find_sub(s, pat) == n,
    decreases n,
{
    if n > 0 {
        let t = s.skip(1);
        assert(s.skip(0) =~= s);
        assert forall|k: int| 0 <= k < n - 1 implies !pat.is_prefix_of(#[trigger] t.skip(k)) by {
            assert(t.skip(k) =~= s.skip(k + 1));
        }
        assert(t.skip(n - 1) =~= s.skip(n as int));
        lemma_find_sub_is(t, pat, (n - 1) as nat);
    } else {
        assert(s.skip(0) =~= s);
    }
}

/// The characters of `s`, in order.
pub fn chars_of(s: &str) -> (v: Vec<char>)
    ensures
        v@ == s@,
{
    let mut v: Vec<char> = Vec::new();
    for c in it: s.chars()
        invariant
            v@ == it.seq().take(it.index() as int),
            it.seq() == s@,
    {
        v.push(c);
    }
    v
}

/// The string made of the characters of `v`.
pub fn string_of(v: &Vec<char>) -> (s: String)
    ensures
        s@ == v@,
{
    let mut s = String::new();
    let mut i: usize = 0;
    while i < v.len()
        invariant
            i <= v.len(),
            s@ == v@.take(i as int),
        decreases v.len() - i,
    {
        s.push(v[i]);
        i += 1;
    }
    s
}

/// A copy of `v[from..to]`.
pub fn slice_of(v: &Vec<char>, from: usize, to: usize) -> (r: Vec<char>)
    requires
        from <= to <= v.len(),
    ensures
        r@ == v@.subrange(from as int, to as int),
{
    let mut r: Vec<char> = Vec::new();
    let mut i: usize = from;
    while i < to
        invariant
            from <= i <= to <= v.len(),
            r@ == v@.subrange(from as int, i as int),
        decreases to - i,
    {
        r.push(v[i]);
        i += 1;
    }
    r
}

/// Whether `a` and `b` hold the same characters.
pub fn same_chars(a: &Vec<char>, b: &Vec<char>) -> (r: bool)
    ensures
        r == (a@ == b@),
{
    if a.len() != b.len() {
        return false;
    }
    let mut i: usize = 0;
    while i < a.len()
        invariant
            i <= a.len(),
            a.len() == b.len(),
            a@.take(i as int) == b@.take(i as int),
        decreases a.len() - i,
    {
        if a[i] != b[i] {
            return false;
        }
        assert(a@.take(i + 1) =~= a@.take(i as int).push(a@[i as int]));
        assert(b@.take(i + 1) =~= b@.take(i as int).push(b@[i as int]));
        i += 1;
    }
    assert(a@.take(a.len() as int) =~= a@);
    assert(b@.take(b.len() as int) =~= b@);
    true
}

/// Whether `pat` stands in `v` at index `at`, before index `to`.
pub fn occurs_at(v: &Vec<char>, at: usize, to: usize, pat: &Vec<char>) -> (r: bool)
    requires
        at <= to <= v.len(),
    ensures
        r == pat@.is_prefix_of(v@.subrange(at as int, to as int)),
{
    if pat.len() > to - at {
        return false;
    }
    let ghost window = v@.subrange(at as int, to as int);
    let mut i: usize = 0;
    while i < pat.len()
        invariant
            at <= to <= v.len(),
            i <= pat.len() <= to - at,
            window == v@.subrange(at as int, to as int),
            forall|k: int| 0 <= k < i ==> pat@[k] == window[k],
        decreases pat.len() - i,
    {
        if v[at + i] != pat[i] {
            assert(window[i as int] != pat@[i as int]);
            assert(window.subrange(0, pat@.len() as int)[i as int] == window[i as int]);
            return false;
        }
        i += 1;
    }
    assert(window.subrange(0, pat@.len() as int) =~= pat@);
    true
}

/// The end of the run of `class` that starts at `from`, within `v[from..to]`.
pub fn scan(v: &Vec<char>, from: usize, to: usize, class: CharClass) -> (n: usize)
    requires
        from <= to <= v.len(),
    ensures
        from <= n <= to,
        n - from == run_len(v@.subrange(from as int, to as int), class),
{
    let ghost window = v@.subrange(from as int, to as int);
    let mut n: usize = from;
    while n < to && class.test(v[n])
        invariant
            from <= n <= to <= v.len(),
            window == v@.subrange(from as int, to as int),
            forall|k: int| 0 <= k < n - from ==> class.holds(#[trigger] window[k]),
        decreases to - n,
    {
        n += 1;
    }
    proof {
        lemma_run_len_is(window, class, (n - from) as nat);
    }
    n
}

/// The start of the run of `class` that ends at `to`, within `v[from..to]`.
pub fn scan_back(v: &Vec<char>, from: usize, to: usize, class: CharClass) -> (n: usize)
    requires
        from <= to <= v.len(),
    ensures
        from <= n <= to,
        to - n == tail_run_len(v@.subrange(from as int, to as int), class),
{
    let ghost window = v@.subrange(from as int, to as int);
    let mut n: usize = to;
    while n > from && class.test(v[n - 1])
        invariant
            from <= n <= to <= v.len(),
            window == v@.subrange(from as int, to as int),
            forall|k: int| n - from <= k < to - from ==> class.holds(#[trigger] window[k]),
        decreases n - from,
    {
        n -= 1;
    }
    proof {
        lemma_tail_run_len_is(window, class, (to - n) as nat);
    }
    n
}

/// The index of the first occurrence of `pat` in `v[from..to]`, or `to`.
pub fn search(v: &Vec<char>, from: usize, to: usize, pat: &Vec<char>) -> (n: usize)
    requires
        from <= to <= v.len(),
    ensures
        from <= n <= to,
        n - from == find_sub(v@.subrange(from as int, to as int), pat@),
{
    let ghost window = v@.subrange(from as int, to as int);
    let mut n: usize = from;
    while n < to
        invariant
            from <= n <= to <= v.len(),
            window == v@.subrange(from as int, to as int),
            forall|k: int| 0 <= k < n - from ==> !pat@.is_prefix_of(#[trigger] window.skip(k)),
        decreases to - n,
    {
        assert(window.skip(n - from) =~= v@.subrange(n as int, to as int));
        if occurs_at(v, n, to, pat) {
            proof {
                lemma_find_sub_is(window, pat@, (n - from) as nat);
            }
            return n;
        }
        n += 1;
    }
    proof {
        lemma_find_sub_is(window, pat@, (n - from) as nat);
    }
    n
}

/// The bounds of `v[from..to]` without its leading and trailing white space.
pub fn trim_bounds(v: &Vec<char>, from: usize, to: usize) -> (r: (usize, usize))
    requires
        from <= to <= v.len(),
    ensures
        from <= r.0 <= r.1 <= to,
        v@.subrange(r.0 as int, r.1 as int) == trim(v@.subrange(from as int, to as int)),
{
    let a = scan(v, from, to, CharClass::Space);
    let b = scan_back(v, a, to, CharClass::Space);
    proof {
        let s = v@.subrange(from as int, to as int);
        assert(s.skip(a - from) =~= v@.subrange(a as int, to as int));
        assert(v@.subrange(a as int, to as int).take(b - a) =~= v@.subrange(a as int, b as int));
    }
    (a, b)
}

/// The bounds of the first token of `v[from..to]`; empty where it has none.
pub fn first_token_bounds(v: &Vec<char>, from: usize, to: usize) -> (r: (usize, usize))
    requires
        from <= to <= v.len(),
    ensures
        from <= r.0 <= r.1 <= to,
        v@.subrange(r.0 as int, r.1 as int) == first_token(v@.subrange(from as int, to as int)),
{
    let a = scan(v, from, to, CharClass::Space);
    let b = scan(v, a, to, CharClass::Visible);
    proof {
        let s = v@.subrange(from as int, to as int);
        assert(s.skip(a - from) =~= v@.subrange(a as int, to as int));
        assert(v@.subrange(a as int, to as int).take(b - a) =~= v@.subrange(a as int, b as int));
    }
    (a, b)
}

/// The bounds of the last token of `v[from..to]`; empty where it has none.
pub fn last_token_bounds(v: &Vec<char>, from: usize, to: usize) -> (r: (usize, usize))
    requires
        from <= to <= v.len(),
    ensures
        from <= r.0 <= r.1 <= to,
        v@.subrange(r.0 as int, r.1 as int) == last_token(v@.subrange(from as int, to as int)),
{
    let b = scan_back(v, from, to, CharClass::Space);
    let a = scan_back(v, from, b, CharClass::Visible);
    proof {
        let s = v@.subrange(from as int, to as int);
        assert(s.take(b - from) =~= v@.subrange(from as int, b as int));
        assert(v@.subrange(from as int, b as int).skip(a - from) =~= v@.subrange(
            a as int,
            b as int,
        ));
    }
    (a, b)
}

/// The pieces of `v` between the occurrences of `pat`.
pub fn split(v: &Vec<char>, pat: &Vec<char>) -> (r: Vec<Vec<char>>)
    requires
        pat.len() > 0,
    ensures
        views(r@) == split_on(v@, pat@),
        r.len() >= 1,
{
    let mut r: Vec<Vec<char>> = Vec::new();
    let mut pos: usize = 0;
    let len = v.len();
    proof {
        assert(v@.skip(0) =~= v@);
        assert(views(r@) + split_on(v@, pat@) =~= split_on(v@, pat@));
    }
    loop
        invariant_except_break
            pos <= len == v.len(),
            pat.len() > 0,
            split_on(v@, pat@) == views(r@) + split_on(v@.skip(pos as int), pat@),
        ensures
            views(r@) == split_on(v@, pat@),
            r.len() >= 1,
        decreases len - pos,
    {
        let ghost rest = v@.skip(pos as int);
        let ghost before = views(r@);
        assert(rest =~= v@.subrange(pos as int, len as int));
        let hit = search(v, pos, len, pat);
        if pat.len() <= len - hit {
            let piece = slice_of(v, pos, hit);
            r.push(piece);
            proof {
                assert(rest.take(hit - pos) =~= v@.subrange(pos as int, hit as int));
                assert(rest.skip(hit - pos + pat.len()) =~= v@.skip(hit + pat.len()));
                assert(views(r@) =~= before + seq![rest.take(hit - pos)]);
            }
            pos = hit + pat.len();
        } else {
            let piece = slice_of(v, pos, len);
            r.push(piece);
            proof {
                assert(views(r@) =~= before + seq![rest]);
            }
            break;
        }
    }
    r
}

/// The lines of `v`.
pub fn lines_of(v: &Vec<char>) -> (r: Vec<Vec<char>>)
    ensures
        views(r@) == lines(v@),
{
    let mut r: Vec<Vec<char>> = Vec::new();
    let mut pos: usize = 0;
    let len = v.len();
    proof {
        assert(v@.skip(0) =~= v@);
        assert(views(r@) + lines(v@) =~= lines(v@));
    }
    while pos < len
        invariant
            pos <= len == v.len(),
            lines(v@) == views(r@) + lines(v@.skip(pos as int)),
        decreases len - pos,
    {
        let ghost rest = v@.skip(pos as int);
        let ghost before = views(r@);
        assert(rest =~= v@.subrange(pos as int, len as int));
        let nl = scan(v, pos, len, CharClass::Except('\n'));
        if nl < len {
            let end = if nl > pos && v[nl - 1] == '\r' {
                nl - 1
            } else {
                nl
            };
            let line = slice_of(v, pos, end);
            r.push(line);
            proof {
                assert(rest.take(nl - pos) =~= v@.subrange(pos as int, nl as int));
                assert(strip_cr(rest.take(nl - pos)) =~= v@.subrange(pos as int, end as int));
                assert(rest.skip(nl - pos + 1) =~= v@.skip(nl + 1));
                assert(views(r@) =~= before + seq![strip_cr(rest.take(nl - pos))]);
            }
            pos = nl + 1;
        } else {
            let line = slice_of(v, pos, len);
            r.push(line);
            proof {
                assert(views(r@) =~= before + seq![rest]);
                assert(v@.skip(len as int).len() == 0);
                assert(lines(v@.skip(len as int)) =~= Seq::<Seq<char>>::empty());
            }
            pos = len;
        }
    }
    proof {
        assert(v@.skip(pos as int).len() == 0);
        assert(views(r@) + lines(v@.skip(pos as int)) =~= views(r@));
    }
    r
}

/// Appends the characters of `tail` to `v`.
pub fn append_chars(v: &mut Vec<char>, tail: &Vec<char>)
    ensures
        final(v)@ == old(v)@ + tail@,
{
    let mut i: usize = 0;
    while i < tail.len()
        invariant
            i <= tail.len(),
            v@ == old(v)@ + tail@.take(i as int),
        decreases tail.len() - i,
    {
        v.push(tail[i]);
        assert(tail@.take(i + 1) =~= tail@.take(i as int).push(tail@[i as int]));
        i += 1;
    }
    assert(tail@.take(tail.len() as int) =~= tail@);
}

/// Appends the characters of `tail` to `v`.
pub fn append_str(v: &mut Vec<char>, tail: &str)
    ensures
        final(v)@ == old(v)@ + tail@,
{
    let chars = chars_of(tail);
    append_chars(v, &chars);
}

/// The parts of `parts`, in order, with `sep` between each two of them.
pub fn join_with(parts: &Vec<Vec<char>>, sep: &Vec<char>) -> (r: Vec<char>)
    ensures
        r@ == join(views(parts@), sep@),
{
    let mut r: Vec<char> = Vec::new();
    let mut i: usize = 0;
    assert(views(parts@).take(0) =~= Seq::<Seq<char>>::empty());
    while i < parts.len()
        invariant
            i <= parts.len(),
            r@ == join(views(parts@).take(i as int), sep@),
        decreases parts.len() - i,
    {
        proof {
            let next = views(parts@).take(i + 1);
            assert(next.drop_last() =~= views(parts@).take(i as int));
            assert(next.last() == parts@[i as int]@);
        }
        if i > 0 {
            append_chars(&mut r, sep);
        }
        append_chars(&mut r, &parts[i]);
        i += 1;
    }
    assert(views(parts@).take(parts.len() as int) =~= views(parts@));
    r
}

/// The character vectors of a list of strings.
pub fn chars_of_all(strings: &Vec<String>) -> (r: Vec<Vec<char>>)
    ensures
        views(r@) == texts(strings@),
{
    let mut r: Vec<Vec<char>> = Vec::new();
    let mut i: usize = 0;
    while i < strings.len()
        invariant
            i <= strings.len(),
            views(r@) == texts(strings@).take(i as int),
        decreases strings.len() - i,
    {
        let ghost before = views(r@);
        let chars = chars_of(strings[i].as_str());
        r.push(chars);
        assert(views(r@) =~= before.push(strings@[i as int]@));
        assert(texts(strings@).take(i + 1) =~= texts(strings@).take(i as int).push(
            strings@[i as int]@,
        ));
        i += 1;
    }
    assert(texts(strings@).take(strings.len() as int) =~= texts(strings@));
    r
}

/// Two sequences that are equal after the same sequence was appended to
/// each were equal before.
pub proof fn lemma_cancel_suffix(a: Seq<char>, b: Seq<char>, tail: Seq<char>)
    requires
        a + tail == b + tail,
    ensures
        a == b,
{
    assert((a + tail).len() == a.len() + tail.len());
    assert((b + tail).len() == b.len() + tail.len());
    assert forall|i: int| 0 <= i < a.len() implies a[i] == b[i] by {
        assert((a + tail)[i] == a[i]);
        assert((b + tail)[i] == b[i]);
    }
    assert(a =~= b);
}

/// Two sequences that are equal after each was appended to the same
/// sequence were equal before.
pub proof fn lemma_cancel_prefix(head: Seq<char>, a: Seq<char>, b: Seq<char>)
    requires
        head + a == head + b,
    ensures
        a == b,
{
    assert((head + a).len() == head.len() + a.len());
    assert((head + b).len() == head.len() + b.len());
    assert forall|i: int| 0 <= i < a.len() implies a[i] == b[i] by {
        assert((head + a)[head.len() + i] == a[i]);
        assert((head + b)[head.len() + i] == b[i]);
    }
    assert(a =~= b);
}

} // verus!
