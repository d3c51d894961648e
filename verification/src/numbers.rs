//! Decimal and hexadecimal notation: reading an unsigned number from a
//! token, and writing numbers and bytes out as text.

use vstd::prelude::*;

verus! {

/// Whether `c` is one of `0` to `9`.
pub open spec fn is_digit(c: char) -> bool {
    '0' <= c <= '9'
}

/// The value of the decimal digit `c`.
pub open spec fn digit_value(c: char) -> nat {
    (c as u32 - '0' as u32) as nat
}

/// Whether `s` is made of decimal digits only.
pub open spec fn all_digits(s: Seq<char>) -> bool {
    forall|i: int| 0 <= i < s.len() ==> is_digit(#[trigger] s[i])
}

/// The number that the decimal digits `s` write.
pub open spec fn decimal_value(s: Seq<char>) -> nat
    decreases s.len(),
{
    if s.len() == 0 {
        0
    } else {
        decimal_value(s.drop_last()) * 10 + digit_value(s.last())
    }
}

/// `s` without one leading plus sign.
pub open spec fn unsigned_part(s: Seq<char>) -> Seq<char> {
    if s.len() > 0 && s[0] == '+' {
        s.skip(1)
    } else {
        s
    }
}

/// The number that `s` writes: an optional plus sign, then one or more
/// decimal digits whose value fits in 32 bits. Anything else is no number.
pub open spec fn parse_u32(s: Seq<char>) -> Option<u32> {
    let digits = unsigned_part(s);
    if digits.len() > 0 && all_digits(digits) && decimal_value(digits) <= u32::MAX {
        Some(decimal_value(digits) as u32)
    } else {
        None
    }
}

/// The character that writes the decimal digit `d`.
pub open spec fn digit_char(d: nat) -> char
    recommends
        d < 10,
{
    ('0' as u32 + d) as char
}

/// The decimal notation of `n`, without leading zeros.
pub open spec fn decimal_digits(n: nat) -> Seq<char>
    decreases n,
{
    if n < 10 {
        seq![digit_char(n)]
    } else {
        decimal_digits(n / 10).push(digit_char(n % 10))
    }
}

/// The character that writes the hexadecimal digit `d` in lower case.
pub open spec fn hex_char(d: nat) -> char
    recommends
        d < 16,
{
    if d < 10 {
        ('0' as u32 + d) as char
    } else {
        ('a' as u32 + (d - 10)) as char
    }
}

/// Two lower-case hexadecimal digits for each byte of `bytes`, in order.
pub open spec fn hex_lower(bytes: Seq<u8>) -> Seq<char>
    decreases bytes.len(),
{
    if bytes.len() == 0 {
        seq![]
    } else {
        hex_lower(bytes.drop_last()) + seq![
            hex_char((bytes.last() / 16) as nat),
            hex_char((bytes.last() % 16) as nat),
        ]
    }
}

/// A longer digit string writes a number that is no smaller than the one its
/// prefix writes.
pub proof fn lemma_decimal_value_grows(s: Seq<char>, n: int)
    requires
        0 <= n <= s.len(),
    ensures
        decimal_value(s.take(n)) <= decimal_value(s),
    decreases s.len() - n,
{
    if n < s.len() {
        lemma_decimal_value_grows(s, n + 1);
        assert(s.take(n + 1).drop_last() =~= s.take(n));
    } else {
        assert(s.take(n) =~= s);
    }
}

/// The decimal notation of a number is made of digits and writes that
/// number.
pub proof fn lemma_decimal_round_trip(n: nat)
    ensures
        decimal_digits(n).len() > 0,
        all_digits(decimal_digits(n)),
        decimal_value(decimal_digits(n)) == n,
        decimal_digits(n)[0] != '+',
    decreases n,
{
    let s = decimal_digits(n);
    if n < 10 {
        assert(s.drop_last() =~= Seq::<char>::empty());
        assert(decimal_value(s.drop_last()) == 0);
    } else {
        lemma_decimal_round_trip(n / 10);
        assert(s.drop_last() =~= decimal_digits(n / 10));
        assert(s.last() == digit_char(n % 10));
        assert(s[0] == decimal_digits(n / 10)[0]);
    }
}

/// The number written by the token `v[from..to]`, if it writes one.
pub fn parse_number(v: &Vec<char>, from: usize, to: usize) -> (r: Option<u32>)
    requires
        from <= to <= v.len(),
    ensures
        r == parse_u32(v@.subrange(from as int, to as int)),
{
    let ghost token = v@.subrange(from as int, to as int);
    let start: usize = if from < to && v[from] == '+' {
        from + 1
    } else {
        from
    };
    let ghost digits = v@.subrange(start as int, to as int);
    assert(digits =~= unsigned_part(token));
    if start == to {
        return None;
    }
    let mut acc: u64 = 0;
    let mut i: usize = start;
    while i < to
        invariant
            from <= start <= i <= to <= v.len(),
            digits == v@.subrange(start as int, to as int),
            digits == unsigned_part(v@.subrange(from as int, to as int)),
            all_digits(digits.take(i - start)),
            acc == decimal_value(digits.take(i - start)),
            acc <= u32::MAX,
        decreases to - i,
    {
        let c = v[i];
        let ghost seen = digits.take(i - start);
        let ghost next = digits.take(i - start + 1);
        assert(next.drop_last() =~= seen);
        assert(next.last() == c);
        if !('0' <= c && c <= '9') {
            assert(!is_digit(digits[i - start]));
            return None;
        }
        let d: u64 = (c as u32 - '0' as u32) as u64;
        let wider: u64 = acc * 10 + d;
        if wider > u32::MAX as u64 {
            proof {
                lemma_decimal_value_grows(digits, i - start + 1);
            }
            return None;
        }
        assert forall|k: int| 0 <= k < next.len() implies is_digit(#[trigger] next[k]) by {
            if k < seen.len() {
                assert(next[k] == seen[k]);
            }
        }
        acc = wider;
        i += 1;
    }
    assert(digits.take(to - start) =~= digits);
    Some(acc as u32)
}

/// The decimal notation of `n`.
pub fn decimal_of(n: u32) -> (r: Vec<char>)
    ensures
        r@ == decimal_digits(n as nat),
    decreases n,
{
    let mut r: Vec<char> = Vec::new();
    if n >= 10 {
        r = decimal_of(n / 10);
    }
    let d: u32 = n % 10;
    let c: char = digit_of(d);
    r.push(c);
    r
}

/// The character that writes the decimal digit `d`.
pub fn digit_of(d: u32) -> (c: char)
    requires
        d < 10,
    ensures
        c == digit_char(d as nat),
{
    let code: u8 = 48u8 + d as u8;
    let c = code as char;
    assert('0' as u32 == 48);
    c
}

/// The character that writes the hexadecimal digit `d` in lower case.
pub fn hex_digit_of(d: u8) -> (c: char)
    requires
        d < 16,
    ensures
        c == hex_char(d as nat),
{
    assert('0' as u32 == 48 && 'a' as u32 == 97);
    if d < 10 {
        (48u8 + d) as char
    } else {
        (97u8 + (d - 10)) as char
    }
}

/// Two lower-case hexadecimal digits for each byte of `bytes`, in order.
pub fn hex_of(bytes: &[u8]) -> (r: Vec<char>)
    ensures
        r@ == hex_lower(bytes@),
{
    let mut r: Vec<char> = Vec::new();
    let mut i: usize = 0;
    while i < bytes.len()
        invariant
            i <= bytes.len(),
            r@ == hex_lower(bytes@.take(i as int)),
        decreases bytes.len() - i,
    {
        let b = bytes[i];
        let ghost before = r@;
        r.push(hex_digit_of(b / 16));
        r.push(hex_digit_of(b % 16));
        proof {
            let next = bytes@.take(i + 1);
            assert(next.drop_last() =~= bytes@.take(i as int));
            assert(next.last() == b);
            assert(r@ =~= before + seq![hex_char((b / 16) as nat), hex_char((b % 16) as nat)]);
        }
        i += 1;
    }
    assert(bytes@.take(bytes.len() as int) =~= bytes@);
    r
}

/// The hexadecimal notation of a sequence of bytes is twice as long as the
/// sequence.
pub proof fn lemma_hex_lower_len(bytes: Seq<u8>)
    ensures
        hex_lower(bytes).len() == 2 * bytes.len(),
    decreases bytes.len(),
{
    if bytes.len() > 0 {
        lemma_hex_lower_len(bytes.drop_last());
    }
}

/// Two numbers with the same decimal notation are the same number.
pub proof fn lemma_decimal_digits_injective(a: nat, b: nat)
    requires
        decimal_digits(a) == decimal_digits(b),
    ensures
        a == b,
{
    lemma_decimal_round_trip(a);
    lemma_decimal_round_trip(b);
}

/// The two hexadecimal digits of a byte tell the byte.
pub proof fn lemma_hex_pair_injective(a: u8, b: u8)
    requires
        hex_char((a / 16) as nat) == hex_char((b / 16) as nat),
        hex_char((a % 16) as nat) == hex_char((b % 16) as nat),
    ensures
        a == b,
{
    lemma_hex_char_injective((a / 16) as nat, (b / 16) as nat);
    lemma_hex_char_injective((a % 16) as nat, (b % 16) as nat);
}

/// Two hexadecimal digits that are written alike are the same digit.
pub proof fn lemma_hex_char_injective(a: nat, b: nat)
    requires
        a < 16,
        b < 16,
        hex_char(a) == hex_char(b),
    ensures
        a == b,
{
    assert('0' as u32 == 48 && 'a' as u32 == 97);
    assert(a < 10 ==> hex_char(a) as u32 == 48 + a);
    assert(a >= 10 ==> hex_char(a) as u32 == 87 + a);
    assert(b < 10 ==> hex_char(b) as u32 == 48 + b);
    assert(b >= 10 ==> hex_char(b) as u32 == 87 + b);
}

/// Two byte sequences with the same hexadecimal notation are the same
/// sequence.
pub proof fn lemma_hex_lower_injective(a: Seq<u8>, b: Seq<u8>)
    requires
        hex_lower(a) == hex_lower(b),
    ensures
        a == b,
    decreases a.len(),
{
    lemma_hex_lower_len(a);
    lemma_hex_lower_len(b);
    if a.len() > 0 {
        let ha = hex_lower(a.drop_last());
        let hb = hex_lower(b.drop_last());
        let pa = seq![hex_char((a.last() / 16) as nat), hex_char((a.last() % 16) as nat)];
        let pb = seq![hex_char((b.last() / 16) as nat), hex_char((b.last() % 16) as nat)];
        lemma_hex_lower_len(a.drop_last());
        lemma_hex_lower_len(b.drop_last());
        assert(hex_lower(a) == ha + pa);
        assert(hex_lower(b) == hb + pb);
        assert((ha + pa)[ha.len() as int] == pa[0]);
        assert((ha + pa)[ha.len() as int + 1] == pa[1]);
        assert((hb + pb)[hb.len() as int] == pb[0]);
        assert((hb + pb)[hb.len() as int + 1] == pb[1]);
        lemma_hex_pair_injective(a.last(), b.last());
        assert(ha =~= hb) by {
            assert forall|i: int| 0 <= i < ha.len() implies ha[i] == hb[i] by {
                assert((ha + pa)[i] == ha[i]);
                assert((hb + pb)[i] == hb[i]);
            }
        }
        lemma_hex_lower_injective(a.drop_last(), b.drop_last());
        assert(a =~= a.drop_last().push(a.last()));
        assert(b =~= b.drop_last().push(b.last()));
    } else {
        assert(a =~= b);
    }
}

} // verus!
