//! Splitting text into pieces and lines, and decimal numbers.
use vstd::prelude::*;

use crate::text::{spec_is_ascii_digit, is_ascii_digit};

verus! {

/// `str::split` by one character: the pieces between separators, including
/// empty ones at either end.
pub open spec fn spec_split(s: Seq<char>, sep: char) -> Seq<Seq<char>>
    decreases s.len(),
{
    if s.len() == 0 {
        seq![Seq::<char>::empty()]
    } else {
        let prev = spec_split(s.drop_last(), sep);
        if s.last() == sep {
            prev.push(Seq::<char>::empty())
        } else {
            prev.update(prev.len() - 1, prev.last().push(s.last()))
        }
    }
}

pub proof fn lemma_split_nonempty(s: Seq<char>, sep: char)
    ensures
        spec_split(s, sep).len() >= 1,
    decreases s.len(),
{
    if s.len() > 0 {
        lemma_split_nonempty(s.drop_last(), sep);
    }
}

/// The non-empty pieces of a sequence of pieces, in order.
pub open spec fn drop_empty(pieces: Seq<Seq<char>>) -> Seq<Seq<char>>
    decreases pieces.len(),
{
    if pieces.len() == 0 {
        Seq::empty()
    } else if pieces.last().len() == 0 {
        drop_empty(pieces.drop_last())
    } else {
        drop_empty(pieces.drop_last()).push(pieces.last())
    }
}

/// Split `s` at every `sep`.
pub fn split_chars(s: &Vec<char>, sep: char) -> (r: Vec<Vec<char>>)
    ensures
        r@.len() == spec_split(s@, sep).len(),
        forall|i: int| 0 <= i < r@.len() ==> (#[trigger] r@[i])@ == spec_split(s@, sep)[i],
{
    let mut out: Vec<Vec<char>> = Vec::new();
    let mut cur: Vec<char> = Vec::new();
    let mut i: usize = 0;
    assert(s@.subrange(0, 0) =~= Seq::<char>::empty());
    while i < s.len()
        invariant
            i <= s.len(),
            out@.len() + 1 == spec_split(s@.subrange(0, i as int), sep).len(),
            forall|k: int|
                0 <= k < out@.len() ==> (#[trigger] out@[k])@ == spec_split(
                    s@.subrange(0, i as int),
                    sep,
                )[k],
            cur@ == spec_split(s@.subrange(0, i as int), sep).last(),
        decreases s.len() - i,
    {
        let ghost pre = s@.subrange(0, i as int);
        assert(s@.subrange(0, i + 1).drop_last() =~= pre);
        proof {
            lemma_split_nonempty(pre, sep);
        }
        if s[i] == sep {
            let done = cur;
            out.push(done);
            cur = Vec::new();
        } else {
            cur.push(s[i]);
        }
        i = i + 1;
    }
    assert(s@.subrange(0, s.len() as int) =~= s@);
    out.push(cur);
    out
}

/// The non-empty pieces of `s` between separators.
pub fn split_nonempty(s: &Vec<char>, sep: char) -> (r: Vec<Vec<char>>)
    ensures
        r@.len() == drop_empty(spec_split(s@, sep)).len(),
        forall|i: int| 0 <= i < r@.len() ==> (#[trigger] r@[i])@ == drop_empty(spec_split(s@, sep))[i],
{
    let pieces = split_chars(s, sep);
    let ghost ps = spec_split(s@, sep);
    let mut out: Vec<Vec<char>> = Vec::new();
    let mut i: usize = 0;
    while i < pieces.len()
        invariant
            i <= pieces.len(),
            pieces@.len() == ps.len(),
            forall|k: int| 0 <= k < pieces@.len() ==> (#[trigger] pieces@[k])@ == ps[k],
            out@.len() == drop_empty(ps.subrange(0, i as int)).len(),
            forall|k: int|
                0 <= k < out@.len() ==> (#[trigger] out@[k])@ == drop_empty(ps.subrange(0, i as int))[k],
        decreases pieces.len() - i,
    {
        assert(ps.subrange(0, i + 1).drop_last() =~= ps.subrange(0, i as int));
        if pieces[i].len() > 0 {
            let p = copy_chars(&pieces[i]);
            out.push(p);
        }
        i = i + 1;
    }
    assert(ps.subrange(0, pieces.len() as int) =~= ps);
    out
}

/// A copy of a character vector.
pub fn copy_chars(v: &Vec<char>) -> (r: Vec<char>)
    ensures
        r@ == v@,
{
    let mut out: Vec<char> = Vec::new();
    let mut i: usize = 0;
    while i < v.len()
        invariant
            i <= v.len(),
            out@ == v@.subrange(0, i as int),
        decreases v.len() - i,
    {
        out.push(v[i]);
        i = i + 1;
        assert(out@ =~= v@.subrange(0, i as int));
    }
    assert(v@.subrange(0, v.len() as int) =~= v@);
    out
}

/// `str::lines`: pieces between `\n`, each without one trailing `\r`, and
/// no final empty piece after a trailing line break.
pub open spec fn spec_lines(s: Seq<char>) -> Seq<Seq<char>> {
    let pieces = spec_split(s, '\n');
    let n = if pieces.last().len() == 0 {
        pieces.len() - 1
    } else {
        pieces.len() as int
    };
    Seq::new(n as nat, |i: int| strip_cr(pieces[i]))
}

/// One trailing carriage return removed.
pub open spec fn strip_cr(p: Seq<char>) -> Seq<char> {
    if p.len() > 0 && p.last() == '\r' {
        p.drop_last()
    } else {
        p
    }
}

/// The lines of `s`.
pub fn lines_of(s: &Vec<char>) -> (r: Vec<Vec<char>>)
    ensures
        r@.len() == spec_lines(s@).len(),
        forall|i: int| 0 <= i < r@.len() ==> (#[trigger] r@[i])@ == spec_lines(s@)[i],
{
    let pieces = split_chars(s, '\n');
    let ghost ps = spec_split(s@, '\n');
    proof {
        lemma_split_nonempty(s@, '\n');
    }
    let n = if pieces[pieces.len() - 1].len() == 0 {
        pieces.len() - 1
    } else {
        pieces.len()
    };
    let mut out: Vec<Vec<char>> = Vec::new();
    let mut i: usize = 0;
    while i < n
        invariant
            i <= n <= pieces.len(),
            ps == spec_split(s@, '\n'),
            pieces@.len() == ps.len(),
            forall|k: int| 0 <= k < pieces@.len() ==> (#[trigger] pieces@[k])@ == ps[k],
            n == spec_lines(s@).len(),
            out@.len() == i,
            forall|k: int| 0 <= k < i ==> (#[trigger] out@[k])@ == spec_lines(s@)[k],
        decreases n - i,
    {
        let p = &pieces[i];
        assert(spec_lines(s@)[i as int] == strip_cr(ps[i as int]));
        let line = if p.len() > 0 && p[p.len() - 1] == '\r' {
            let mut c = copy_chars(p);
            c.pop();
            assert(c@ =~= p@.drop_last());
            c
        } else {
            copy_chars(p)
        };
        out.push(line);
        i = i + 1;
    }
    out
}

/// Decimal digits of `n`.
pub open spec fn spec_decimal(n: nat) -> Seq<char>
    decreases n,
{
    if n < 10 {
        seq![digit_char(n)]
    } else {
        spec_decimal(n / 10).push(digit_char(n % 10))
    }
}

pub open spec fn digit_char(d: nat) -> char {
    (('0' as nat) + d) as char
}

/// Decimal text of a number (`u64::to_string`).
pub fn decimal(n: u64) -> (r: String)
    ensures
        r@ == spec_decimal(n as nat),
    decreases n,
{
    let mut v: Vec<char> = Vec::new();
    if n >= 10 {
        let prefix = decimal(n / 10);
        v = crate::text::chars_of(prefix.as_str());
    }
    let d = (n % 10) as u32;
    let c = digit(d);
    v.push(c);
    proof {
        if n < 10 {
            assert(v@ =~= seq![digit_char(n as nat)]);
        }
    }
    crate::text::string_of(&v)
}

/// Decimal text of a signed number, with a leading `-` when negative.
pub open spec fn spec_signed_decimal(n: int) -> Seq<char> {
    if n < 0 {
        seq!['-'] + spec_decimal((-n) as nat)
    } else {
        spec_decimal(n as nat)
    }
}

/// Decimal text of an `i32` (`i32::to_string`).
pub fn signed_decimal(n: i32) -> (r: String)
    ensures
        r@ == spec_signed_decimal(n as int),
{
    if n < 0 {
        let m: u64 = (0i64 - (n as i64)) as u64;
        let d = decimal(m);
        let mut v: Vec<char> = Vec::new();
        v.push('-');
        crate::text::extend_chars(&mut v, d.as_str());
        crate::text::string_of(&v)
    } else {
        decimal(n as u64)
    }
}

/// The digit character for `d`.
pub fn digit(d: u32) -> (r: char)
    requires
        d < 10,
    ensures
        r == digit_char(d as nat),
{
    let b: u8 = 48u8 + (d as u8);
    b as char
}

/// Value of a digit character.
pub open spec fn digit_value(c: char) -> nat {
    ((c as u32) - ('0' as u32)) as nat
}

/// Value of a run of decimal digits.
pub open spec fn digits_value(s: Seq<char>) -> nat
    decreases s.len(),
{
    if s.len() == 0 {
        0
    } else {
        digits_value(s.drop_last()) * 10 + digit_value(s.last())
    }
}

pub open spec fn all_digits(s: Seq<char>) -> bool {
    forall|i: int| 0 <= i < s.len() ==> spec_is_ascii_digit(#[trigger] s[i])
}

/// `u32::from_str`: an optional `+`, then one or more ASCII digits whose
/// value fits in 32 bits.
pub open spec fn unsigned_digits(s: Seq<char>) -> Seq<char> {
    if s.len() > 0 && s[0] == '+' {
        s.drop_first()
    } else {
        s
    }
}

pub open spec fn spec_parse_u32(s: Seq<char>) -> Option<u32> {
    let d = unsigned_digits(s);
    if d.len() > 0 && all_digits(d) && digits_value(d) <= u32::MAX {
        Some(digits_value(d) as u32)
    } else {
        None
    }
}

pub proof fn lemma_digits_value_monotone(s: Seq<char>, i: int)
    requires
        0 <= i <= s.len(),
        all_digits(s),
    ensures
        digits_value(s.subrange(0, i)) <= digits_value(s),
    decreases s.len() - i,
{
    if i < s.len() {
        lemma_digits_value_monotone(s, i + 1);
        assert(s.subrange(0, i + 1).drop_last() =~= s.subrange(0, i));
        assert(spec_is_ascii_digit(s[i]));
    } else {
        assert(s.subrange(0, i) =~= s);
    }
}

/// Parse a decimal `u32` as `str::parse::<u32>` does.
pub fn parse_u32(s: &Vec<char>) -> (r: Option<u32>)
    ensures
        r == spec_parse_u32(s@),
{
    let start: usize = if s.len() > 0 && s[0] == '+' {
        1
    } else {
        0
    };
    let ghost d = unsigned_digits(s@);
    assert(d =~= s@.subrange(start as int, s@.len() as int));
    if start >= s.len() {
        return None;
    }
    let mut acc: u64 = 0;
    let mut i = start;
    assert(d.subrange(0, 0) =~= Seq::<char>::empty());
    while i < s.len()
        invariant
            start <= i <= s.len(),
            d == unsigned_digits(s@),
            d =~= s@.subrange(start as int, s@.len() as int),
            all_digits(d.subrange(0, i - start)),
            acc == digits_value(d.subrange(0, i - start)),
            acc <= u32::MAX,
        decreases s.len() - i,
    {
        let c = s[i];
        if !is_ascii_digit(c) {
            assert(d[i - start] == c);
            assert(!all_digits(d));
            return None;
        }
        let ghost pre = d.subrange(0, i - start);
        assert(d.subrange(0, i + 1 - start).drop_last() =~= pre);
        assert(d.subrange(0, i + 1 - start).last() == c);
        let v = (c as u32 - '0' as u32) as u64;
        acc = acc * 10 + v;
        i = i + 1;
        assert(all_digits(d.subrange(0, i - start)));
        assert(acc == digits_value(d.subrange(0, i - start)));
        if acc > 0xffff_ffff {
            proof {
                if all_digits(d) {
                    lemma_digits_value_monotone(d, i - start);
                }
            }
            return None;
        }
    }
    assert(d.subrange(0, s.len() - start) =~= d);
    Some(acc as u32)
}

} // verus!
