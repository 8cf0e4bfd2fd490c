//! Character-level text operations shared by the whole library.
//!
//! Strings are modelled by their `Seq<char>` views; every operation here is
//! stated over those views.
use vstd::prelude::*;

verus! {

// ───────────────────────── specifications ─────────────────────────

/// Unicode `White_Space` code points (the property `char::is_whitespace` reports).
pub open spec fn spec_is_whitespace(c: char) -> bool {
    let u = c as u32;
    ||| (0x09 <= u && u <= 0x0D)
    ||| u == 0x20
    ||| u == 0x85
    ||| u == 0xA0
    ||| u == 0x1680
    ||| (0x2000 <= u && u <= 0x200A)
    ||| u == 0x2028
    ||| u == 0x2029
    ||| u == 0x202F
    ||| u == 0x205F
    ||| u == 0x3000
}

/// `s` without its trailing white space.
pub open spec fn spec_trim_end(s: Seq<char>) -> Seq<char>
    decreases s.len(),
{
    if s.len() > 0 && spec_is_whitespace(s.last()) {
        spec_trim_end(s.drop_last())
    } else {
        s
    }
}

/// `s` without its leading white space.
pub open spec fn spec_trim_start(s: Seq<char>) -> Seq<char>
    decreases s.len(),
{
    if s.len() > 0 && spec_is_whitespace(s[0]) {
        spec_trim_start(s.drop_first())
    } else {
        s
    }
}

/// `s` without leading and trailing white space.
pub open spec fn spec_trim(s: Seq<char>) -> Seq<char> {
    spec_trim_start(spec_trim_end(s))
}

pub open spec fn spec_starts_with(s: Seq<char>, p: Seq<char>) -> bool {
    p.len() <= s.len() && s.subrange(0, p.len() as int) == p
}

pub open spec fn spec_ends_with(s: Seq<char>, p: Seq<char>) -> bool {
    p.len() <= s.len() && s.subrange(s.len() - p.len(), s.len() as int) == p
}

/// `p` occurs in `s` starting at position `i`.
pub open spec fn occurs_at(s: Seq<char>, p: Seq<char>, i: int) -> bool {
    0 <= i && i + p.len() <= s.len() && s.subrange(i, i + p.len()) == p
}

/// `p` is a contiguous part of `s`.
pub open spec fn spec_contains(s: Seq<char>, p: Seq<char>) -> bool {
    exists|i: int| #[trigger] occurs_at(s, p, i)
}

pub open spec fn spec_has_char(s: Seq<char>, c: char) -> bool {
    exists|i: int| 0 <= i < s.len() && s[i] == c
}

pub open spec fn spec_is_ascii_char(c: char) -> bool {
    (c as u32) < 0x80
}

pub open spec fn spec_all_ascii(s: Seq<char>) -> bool {
    forall|i: int| 0 <= i < s.len() ==> spec_is_ascii_char(#[trigger] s[i])
}

pub open spec fn spec_ascii_lower_char(c: char) -> char {
    if 'A' <= c && c <= 'Z' {
        ((c as u32) + 32) as char
    } else {
        c
    }
}

/// ASCII letters lowered, every other character kept.
pub open spec fn spec_ascii_lower(s: Seq<char>) -> Seq<char> {
    s.map_values(|c: char| spec_ascii_lower_char(c))
}

pub open spec fn spec_is_ascii_digit(c: char) -> bool {
    '0' <= c && c <= '9'
}

pub open spec fn spec_is_ascii_alphanumeric(c: char) -> bool {
    ||| spec_is_ascii_digit(c)
    ||| ('a' <= c && c <= 'z')
    ||| ('A' <= c && c <= 'Z')
}

pub open spec fn spec_is_ascii_hexdigit(c: char) -> bool {
    ||| spec_is_ascii_digit(c)
    ||| ('a' <= c && c <= 'f')
    ||| ('A' <= c && c <= 'F')
}

/// Every `from` replaced by `to`.
pub open spec fn spec_replace_char(s: Seq<char>, from: char, to: char) -> Seq<char> {
    s.map_values(|c: char| if c == from { to } else { c })
}

/// Number of bytes the UTF-8 encoding of `c` takes.
pub open spec fn spec_utf8_width(c: char) -> nat {
    let u = c as u32;
    if u < 0x80 {
        1
    } else if u < 0x800 {
        2
    } else if u < 0x10000 {
        3
    } else {
        4
    }
}

/// Byte length of the UTF-8 encoding of `s` (what `str::len` reports).
pub open spec fn spec_utf8_len(s: Seq<char>) -> nat
    decreases s.len(),
{
    if s.len() == 0 {
        0
    } else {
        spec_utf8_width(s[0]) + spec_utf8_len(s.drop_first())
    }
}

/// The number of characters whose encoding makes up exactly the first `n`
/// bytes of `s`, if byte `n` is a character boundary.
pub open spec fn spec_chars_in_bytes(s: Seq<char>, n: int) -> Option<nat>
    decreases s.len(),
{
    if n == 0 {
        Some(0nat)
    } else if n < 0 || s.len() == 0 || spec_utf8_width(s[0]) > n {
        None
    } else {
        match spec_chars_in_bytes(s.drop_first(), n - spec_utf8_width(s[0])) {
            Some(k) => Some(k + 1),
            None => None,
        }
    }
}

// ───────────────────────── lemmas ─────────────────────────

/// The byte length of a sequence grows by the width of each appended character.
pub proof fn lemma_utf8_len_push(s: Seq<char>, c: char)
    ensures
        spec_utf8_len(s.push(c)) == spec_utf8_len(s) + spec_utf8_width(c),
    decreases s.len(),
{
    if s.len() == 0 {
        assert(s.push(c).drop_first() =~= Seq::<char>::empty());
        assert(s.push(c)[0] == c);
        assert(spec_utf8_len(Seq::<char>::empty()) == 0);
    } else {
        lemma_utf8_len_push(s.drop_first(), c);
        assert(s.push(c).drop_first() =~= s.drop_first().push(c));
        assert(s.push(c)[0] == s[0]);
    }
}

/// A prefix never encodes to more bytes than the whole.
pub proof fn lemma_utf8_len_prefix_le(s: Seq<char>, i: int)
    requires
        0 <= i <= s.len(),
    ensures
        spec_utf8_len(s.subrange(0, i)) <= spec_utf8_len(s),
    decreases s.len() - i,
{
    if i < s.len() {
        lemma_utf8_len_prefix_le(s, i + 1);
        lemma_utf8_len_push(s.subrange(0, i), s[i]);
        assert(s.subrange(0, i).push(s[i]) =~= s.subrange(0, i + 1));
    } else {
        assert(s.subrange(0, i) =~= s);
    }
}

/// Encoding lengths of prefixes grow strictly with the number of characters.
pub proof fn lemma_utf8_len_prefix_strict(s: Seq<char>, a: int, b: int)
    requires
        0 <= a < b <= s.len(),
    ensures
        spec_utf8_len(s.subrange(0, a)) < spec_utf8_len(s.subrange(0, b)),
    decreases b - a,
{
    lemma_utf8_len_push(s.subrange(0, b - 1), s[b - 1]);
    assert(s.subrange(0, b - 1).push(s[b - 1]) =~= s.subrange(0, b));
    if a < b - 1 {
        lemma_utf8_len_prefix_strict(s, a, b - 1);
    }
}

/// The number of characters whose encoding is exactly the first `n` bytes,
/// when byte `n` is a character boundary.
pub open spec fn byte_boundary(s: Seq<char>, n: int) -> Option<int> {
    if exists|k: int| 0 <= k <= s.len() && spec_utf8_len(#[trigger] s.subrange(0, k)) == n {
        Some(choose|k: int| 0 <= k <= s.len() && spec_utf8_len(#[trigger] s.subrange(0, k)) == n)
    } else {
        None
    }
}

/// Characters making up the first `n` bytes of `v`, if `n` is a boundary.
pub fn byte_boundary_exec(v: &Vec<char>, n: usize) -> (r: Option<usize>)
    requires
        n <= usize::MAX - 4,
    ensures
        match r {
            Some(k) => byte_boundary(v@, n as int) == Some(k as int) && k <= v.len(),
            None => byte_boundary(v@, n as int) is None,
        },
{
    let mut acc: usize = 0;
    let mut i: usize = 0;
    assert(v@.subrange(0, 0) =~= Seq::<char>::empty());
    while i < v.len() && acc < n
        invariant
            i <= v.len(),
            acc == spec_utf8_len(v@.subrange(0, i as int)),
            n <= usize::MAX - 4,
            acc <= n + 4,
            forall|k: int| 0 <= k < i ==> spec_utf8_len(#[trigger] v@.subrange(0, k)) < n,
        decreases v.len() - i,
    {
        proof {
            lemma_utf8_len_push(v@.subrange(0, i as int), v@[i as int]);
            assert(v@.subrange(0, i as int).push(v@[i as int]) =~= v@.subrange(0, i + 1));
        }
        acc = acc + utf8_width(v[i]);
        i = i + 1;
    }
    if acc == n {
        assert(spec_utf8_len(v@.subrange(0, i as int)) == n);
        proof {
            let k = choose|k: int|
                0 <= k <= v@.len() && spec_utf8_len(#[trigger] v@.subrange(0, k)) == n;
            if k < i {
                lemma_utf8_len_prefix_strict(v@, k, i as int);
            } else if k > i {
                lemma_utf8_len_prefix_strict(v@, i as int, k);
            }
        }
        Some(i)
    } else {
        proof {
            assert forall|k: int| 0 <= k <= v@.len() implies spec_utf8_len(
                #[trigger] v@.subrange(0, k),
            ) != n by {
                if k > i {
                    lemma_utf8_len_prefix_strict(v@, i as int, k);
                } else if k == i {
                }
            }
        }
        None
    }
}

/// Whether the UTF-8 encoding of `v` takes at least `n` bytes.
pub fn utf8_len_at_least(v: &Vec<char>, n: usize) -> (r: bool)
    ensures
        r == (spec_utf8_len(v@) >= n),
{
    if n == 0 {
        return true;
    }
    let mut acc: usize = 0;
    let mut i: usize = 0;
    assert(v@.subrange(0, 0) =~= Seq::<char>::empty());
    while i < v.len()
        invariant
            i <= v.len(),
            acc == spec_utf8_len(v@.subrange(0, i as int)),
            acc < n,
        decreases v.len() - i,
    {
        let w = utf8_width(v[i]);
        proof {
            lemma_utf8_len_push(v@.subrange(0, i as int), v@[i as int]);
            assert(v@.subrange(0, i as int).push(v@[i as int]) =~= v@.subrange(0, i + 1));
        }
        if w >= n - acc {
            proof {
                lemma_utf8_len_prefix_le(v@, i + 1);
            }
            return true;
        }
        acc = acc + w;
        i = i + 1;
    }
    assert(v@.subrange(0, v.len() as int) =~= v@);
    false
}

// ───────────────────────── trusted std calls ─────────────────────────

/// `String::push`: appends one character to the end of the string.
#[verifier::external_body]
pub(crate) fn push_char(s: &mut String, c: char)
    ensures
        final(s)@ == old(s)@.push(c),
{
    s.push(c)
}

// ───────────────────────── executable operations ─────────────────────────

/// The characters of a string slice, in order.
pub fn chars_of(s: &str) -> (r: Vec<char>)
    ensures
        r@ == s@,
{
    let mut out: Vec<char> = Vec::new();
    for c in it: s.chars()
        invariant
            out@ == it.seq().take(it.index() as int),
            it.seq() == s@,
    {
        out.push(c);
    }
    out
}

/// A string made of the given characters.
pub fn string_of(v: &Vec<char>) -> (r: String)
    ensures
        r@ == v@,
{
    let mut out = String::new();
    let mut i: usize = 0;
    while i < v.len()
        invariant
            i <= v.len(),
            out@ == v@.subrange(0, i as int),
        decreases v.len() - i,
    {
        push_char(&mut out, v[i]);
        i = i + 1;
        assert(out@ =~= v@.subrange(0, i as int));
    }
    assert(v@.subrange(0, v.len() as int) =~= v@);
    out
}

/// An owned copy of a string slice.
pub fn owned(s: &str) -> (r: String)
    ensures
        r@ == s@,
{
    s.to_owned()
}

/// `a` followed by `b`.
pub fn concat(a: &str, b: &str) -> (r: String)
    ensures
        r@ == a@ + b@,
{
    let mut v = chars_of(a);
    let w = chars_of(b);
    let mut i: usize = 0;
    while i < w.len()
        invariant
            i <= w.len(),
            w@ == b@,
            v@ == a@ + b@.subrange(0, i as int),
        decreases w.len() - i,
    {
        v.push(w[i]);
        i = i + 1;
        assert(v@ =~= a@ + b@.subrange(0, i as int));
    }
    assert(b@.subrange(0, b@.len() as int) =~= b@);
    string_of(&v)
}

/// Appends the characters of `t` to `v`.
pub fn extend_chars(v: &mut Vec<char>, t: &str)
    ensures
        final(v)@ == old(v)@ + t@,
{
    let w = chars_of(t);
    let mut i: usize = 0;
    while i < w.len()
        invariant
            i <= w.len(),
            w@ == t@,
            v@ == old(v)@ + t@.subrange(0, i as int),
        decreases w.len() - i,
    {
        v.push(w[i]);
        i = i + 1;
        assert(v@ =~= old(v)@ + t@.subrange(0, i as int));
    }
    assert(t@.subrange(0, t@.len() as int) =~= t@);
}

/// Appends the characters in `t` to `v`.
pub fn extend_vec(v: &mut Vec<char>, t: &Vec<char>)
    ensures
        final(v)@ == old(v)@ + t@,
{
    let mut i: usize = 0;
    while i < t.len()
        invariant
            i <= t.len(),
            v@ == old(v)@ + t@.subrange(0, i as int),
        decreases t.len() - i,
    {
        v.push(t[i]);
        i = i + 1;
        assert(v@ =~= old(v)@ + t@.subrange(0, i as int));
    }
    assert(t@.subrange(0, t@.len() as int) =~= t@);
}

/// `char::is_whitespace`.
pub fn is_whitespace(c: char) -> (r: bool)
    ensures
        r == spec_is_whitespace(c),
{
    let u = c as u32;
    (0x09 <= u && u <= 0x0D) || u == 0x20 || u == 0x85 || u == 0xA0 || u == 0x1680 || (0x2000
        <= u && u <= 0x200A) || u == 0x2028 || u == 0x2029 || u == 0x202F || u == 0x205F || u
        == 0x3000
}

/// Index of the first character of the trimmed text and one past its last.
pub fn trim_bounds(v: &Vec<char>) -> (r: (usize, usize))
    ensures
        r.0 <= r.1 <= v.len(),
        v@.subrange(r.0 as int, r.1 as int) == spec_trim(v@),
{
    let mut end: usize = v.len();
    assert(v@.subrange(0, v.len() as int) =~= v@);
    while end > 0 && is_whitespace(v[end - 1])
        invariant
            end <= v.len(),
            spec_trim_end(v@.subrange(0, end as int)) == spec_trim_end(v@),
        decreases end,
    {
        assert(v@.subrange(0, end as int).drop_last() =~= v@.subrange(0, end - 1));
        end = end - 1;
    }
    let ghost e = v@.subrange(0, end as int);
    assert(spec_trim_end(e) == e);
    let mut start: usize = 0;
    while start < end && is_whitespace(v[start])
        invariant
            start <= end <= v.len(),
            e == v@.subrange(0, end as int),
            spec_trim_start(v@.subrange(start as int, end as int)) == spec_trim_start(e),
        decreases end - start,
    {
        assert(v@.subrange(start as int, end as int).drop_first() =~= v@.subrange(
            start + 1,
            end as int,
        ));
        start = start + 1;
    }
    (start, end)
}

/// The characters of `v` between `lo` and `hi`.
pub fn slice_chars(v: &Vec<char>, lo: usize, hi: usize) -> (r: Vec<char>)
    requires
        lo <= hi <= v.len(),
    ensures
        r@ == v@.subrange(lo as int, hi as int),
{
    let mut out: Vec<char> = Vec::new();
    let mut i = lo;
    while i < hi
        invariant
            lo <= i <= hi <= v.len(),
            out@ == v@.subrange(lo as int, i as int),
        decreases hi - i,
    {
        out.push(v[i]);
        i = i + 1;
        assert(out@ =~= v@.subrange(lo as int, i as int));
    }
    out
}

/// `v` without leading and trailing white space.
pub fn trim_vec(v: &Vec<char>) -> (r: Vec<char>)
    ensures
        r@ == spec_trim(v@),
{
    let (a, b) = trim_bounds(v);
    slice_chars(v, a, b)
}

/// `str::trim`, as an owned string.
pub fn trim_str(s: &str) -> (r: String)
    ensures
        r@ == spec_trim(s@),
{
    let v = chars_of(s);
    string_of(&trim_vec(&v))
}

/// `v` without trailing white space.
pub fn trim_end_vec(v: &Vec<char>) -> (r: Vec<char>)
    ensures
        r@ == spec_trim_end(v@),
{
    let mut end: usize = v.len();
    assert(v@.subrange(0, v.len() as int) =~= v@);
    while end > 0 && is_whitespace(v[end - 1])
        invariant
            end <= v.len(),
            spec_trim_end(v@.subrange(0, end as int)) == spec_trim_end(v@),
        decreases end,
    {
        assert(v@.subrange(0, end as int).drop_last() =~= v@.subrange(0, end - 1));
        end = end - 1;
    }
    slice_chars(v, 0, end)
}

/// Element-wise equality of two character vectors.
pub fn eq_vec(a: &Vec<char>, b: &Vec<char>) -> (r: bool)
    ensures
        r == (a@ == b@),
{
    if a.len() != b.len() {
        return false;
    }
    let mut i: usize = 0;
    while i < a.len()
        invariant
            a.len() == b.len(),
            i <= a.len(),
            forall|j: int| 0 <= j < i ==> a@[j] == b@[j],
        decreases a.len() - i,
    {
        if a[i] != b[i] {
            return false;
        }
        i = i + 1;
    }
    assert(a@ =~= b@);
    true
}

/// Equality of the text of a character vector and a string slice.
pub fn eq_str(a: &Vec<char>, b: &str) -> (r: bool)
    ensures
        r == (a@ == b@),
{
    let w = chars_of(b);
    eq_vec(a, &w)
}

/// Equality of two string slices.
pub fn str_eq(a: &str, b: &str) -> (r: bool)
    ensures
        r == (a@ == b@),
{
    let v = chars_of(a);
    eq_str(&v, b)
}

/// `p` occurs in `s` at position `i`.
pub fn occurs_at_exec(s: &Vec<char>, p: &Vec<char>, i: usize) -> (r: bool)
    ensures
        r == occurs_at(s@, p@, i as int),
{
    if i > s.len() || p.len() > s.len() - i {
        return false;
    }
    let mut j: usize = 0;
    while j < p.len()
        invariant
            i + p.len() <= s.len(),
            j <= p.len(),
            forall|k: int| 0 <= k < j ==> s@[i + k] == p@[k],
        decreases p.len() - j,
    {
        if s[i + j] != p[j] {
            assert(s@.subrange(i as int, i + p.len())[j as int] != p@[j as int]);
            return false;
        }
        j = j + 1;
    }
    assert(s@.subrange(i as int, i + p.len()) =~= p@);
    true
}

pub fn starts_with_vec(s: &Vec<char>, p: &Vec<char>) -> (r: bool)
    ensures
        r == spec_starts_with(s@, p@),
{
    occurs_at_exec(s, p, 0)
}

pub fn ends_with_vec(s: &Vec<char>, p: &Vec<char>) -> (r: bool)
    ensures
        r == spec_ends_with(s@, p@),
{
    if p.len() > s.len() {
        return false;
    }
    occurs_at_exec(s, p, s.len() - p.len())
}

/// `p` occurs somewhere in `s`.
pub fn contains_vec(s: &Vec<char>, p: &Vec<char>) -> (r: bool)
    ensures
        r == spec_contains(s@, p@),
{
    if p.len() > s.len() {
        assert forall|i: int| !occurs_at(s@, p@, i) by {}
        return false;
    }
    let last = s.len() - p.len();
    let mut i: usize = 0;
    while i < last
        invariant
            last == s.len() - p.len(),
            i <= last,
            forall|k: int| 0 <= k < i ==> !occurs_at(s@, p@, k),
        decreases last - i,
    {
        if occurs_at_exec(s, p, i) {
            assert(occurs_at(s@, p@, i as int));
            return true;
        }
        i = i + 1;
    }
    if occurs_at_exec(s, p, last) {
        assert(occurs_at(s@, p@, last as int));
        return true;
    }
    assert forall|k: int| !occurs_at(s@, p@, k) by {}
    false
}

/// `p` occurs somewhere in `s`.
pub fn contains_str(s: &Vec<char>, p: &str) -> (r: bool)
    ensures
        r == spec_contains(s@, p@),
{
    let w = chars_of(p);
    contains_vec(s, &w)
}

pub fn starts_with_str(s: &Vec<char>, p: &str) -> (r: bool)
    ensures
        r == spec_starts_with(s@, p@),
{
    let w = chars_of(p);
    starts_with_vec(s, &w)
}

/// `c` occurs in `s`.
pub fn has_char(s: &Vec<char>, c: char) -> (r: bool)
    ensures
        r == spec_has_char(s@, c),
{
    let mut i: usize = 0;
    while i < s.len()
        invariant
            i <= s.len(),
            forall|k: int| 0 <= k < i ==> s@[k] != c,
        decreases s.len() - i,
    {
        if s[i] == c {
            return true;
        }
        i = i + 1;
    }
    false
}

/// Every `from` replaced by `to`.
pub fn replace_char(s: &Vec<char>, from: char, to: char) -> (r: Vec<char>)
    ensures
        r@ == spec_replace_char(s@, from, to),
{
    let mut out: Vec<char> = Vec::new();
    let mut i: usize = 0;
    while i < s.len()
        invariant
            i <= s.len(),
            out@ == spec_replace_char(s@.subrange(0, i as int), from, to),
        decreases s.len() - i,
    {
        let c = s[i];
        out.push(if c == from { to } else { c });
        i = i + 1;
        assert(out@ =~= spec_replace_char(s@.subrange(0, i as int), from, to));
    }
    assert(s@.subrange(0, s.len() as int) =~= s@);
    out
}

pub fn ascii_lower_char(c: char) -> (r: char)
    ensures
        r == spec_ascii_lower_char(c),
{
    if 'A' <= c && c <= 'Z' {
        let u = (c as u32) + 32;
        proof {
            assert(0x61 <= u <= 0x7A);
        }
        char_from_ascii(u)
    } else {
        c
    }
}

/// The character with ASCII code `u`.
fn char_from_ascii(u: u32) -> (r: char)
    requires
        u < 0x80,
    ensures
        r == u as char,
{
    let b = u as u8;
    assert(b == u);
    b as char
}

/// ASCII letters lowered, every other character kept (`str::to_ascii_lowercase`).
pub fn ascii_lower(s: &Vec<char>) -> (r: Vec<char>)
    ensures
        r@ == spec_ascii_lower(s@),
{
    let mut out: Vec<char> = Vec::new();
    let mut i: usize = 0;
    while i < s.len()
        invariant
            i <= s.len(),
            out@ == spec_ascii_lower(s@.subrange(0, i as int)),
        decreases s.len() - i,
    {
        out.push(ascii_lower_char(s[i]));
        i = i + 1;
        assert(out@ =~= spec_ascii_lower(s@.subrange(0, i as int)));
    }
    assert(s@.subrange(0, s.len() as int) =~= s@);
    out
}

pub fn is_ascii_digit(c: char) -> (r: bool)
    ensures
        r == spec_is_ascii_digit(c),
{
    '0' <= c && c <= '9'
}

pub fn is_ascii_alphanumeric(c: char) -> (r: bool)
    ensures
        r == spec_is_ascii_alphanumeric(c),
{
    ('0' <= c && c <= '9') || ('a' <= c && c <= 'z') || ('A' <= c && c <= 'Z')
}

pub fn is_ascii_hexdigit(c: char) -> (r: bool)
    ensures
        r == spec_is_ascii_hexdigit(c),
{
    ('0' <= c && c <= '9') || ('a' <= c && c <= 'f') || ('A' <= c && c <= 'F')
}

/// `char::len_utf8`.
pub fn utf8_width(c: char) -> (r: usize)
    ensures
        r == spec_utf8_width(c),
{
    let u = c as u32;
    if u < 0x80 {
        1
    } else if u < 0x800 {
        2
    } else if u < 0x10000 {
        3
    } else {
        4
    }
}

} // verus!

verus! {

// ───────────────────────── Unicode case mapping (std) ─────────────────────────

/// What `str::to_lowercase` returns for a text.
pub uninterp spec fn unicode_lowercase(s: Seq<char>) -> Seq<char>;

/// What `str::to_uppercase` returns for a text.
pub uninterp spec fn unicode_uppercase(s: Seq<char>) -> Seq<char>;

pub open spec fn spec_ascii_upper_char(c: char) -> char {
    if 'a' <= c && c <= 'z' {
        ((c as u32) - 32) as char
    } else {
        c
    }
}

/// `str::to_lowercase`: the Unicode lowercase mapping of the text. Stated:
/// the result is a function of the text, and on ASCII text it lowers exactly
/// the letters A–Z. The mapping of other characters is left unsaid.
#[verifier::external_body]
pub(crate) fn to_lowercase(s: &str) -> (r: String)
    ensures
        r@ == unicode_lowercase(s@),
        spec_all_ascii(s@) ==> r@ == spec_ascii_lower(s@),
{
    s.to_lowercase()
}

/// `str::to_uppercase`: the Unicode uppercase mapping of the text. Stated:
/// the result is a function of the text, and on ASCII text it raises exactly
/// the letters a–z. The mapping of other characters is left unsaid.
#[verifier::external_body]
pub(crate) fn to_uppercase(s: &str) -> (r: String)
    ensures
        r@ == unicode_uppercase(s@),
        spec_all_ascii(s@) ==> r@ == s@.map_values(|c: char| spec_ascii_upper_char(c)),
{
    s.to_uppercase()
}

/// `Path::file_name` of a path given as text, as text. Stated: a final
/// component, when there is one, is a part of the path's text; for a path
/// of the simple form `q/c`, trailing slashes aside (see `simple_file_name`),
/// it is `c`; the root `/` and the empty path have none. Other forms depend
/// on the platform's separators and prefixes and are left unsaid.
#[verifier::external_body]
pub(crate) fn path_file_name(path: &str) -> (r: Option<String>)
    ensures
        r matches Some(n) ==> spec_contains(path@, n@),
        r is None ==> simple_file_name(path@) is None,
        r matches Some(n) ==> (simple_file_name(path@) is Some ==> n@ == simple_file_name(path@)->0),
        r is None || !root_or_empty(path@),
{
    match std::path::Path::new(path).file_name() {
        Some(name) => Some(name.to_string_lossy().into_owned()),
        None => None,
    }
}

} // verus!

verus! {

/// What `char::to_lowercase` yields for a character.
pub uninterp spec fn char_lowercase(c: char) -> Seq<char>;

/// `char::to_lowercase`, collected: the Unicode lowercase mapping of one
/// character (one or more characters). Stated: the result is a function of
/// the character, and an ASCII character maps to its ASCII lowercase alone.
#[verifier::external_body]
pub(crate) fn lowercase_char(c: char) -> (r: Vec<char>)
    ensures
        r@ == char_lowercase(c),
        spec_is_ascii_char(c) ==> r@ == seq![spec_ascii_lower_char(c)],
{
    c.to_lowercase().collect()
}

/// `path` is `q/c`, split at its last slash `i`: `c` a final component
/// with no separator or drive colon and other than `.`, and `q` a simple
/// leading part (not empty, no backslash or colon, not starting with `//`,
/// not ending with `/` or `.`). Such a path reads the same on every
/// platform, and its parent is `q`.
pub open spec fn simple_last_split(path: Seq<char>, i: int) -> bool {
    let q = path.subrange(0, i);
    let c = path.subrange(i + 1, path.len() as int);
    &&& 0 < i < path.len() - 1
    &&& path[i] == '/'
    &&& forall|k: int| 0 <= k < c.len() ==> c[k] != '/' && c[k] != '\\' && c[k] != ':'
    &&& c != seq!['.']
    &&& forall|k: int| 0 <= k < q.len() ==> q[k] != '\\' && q[k] != ':'
    &&& !(q.len() >= 2 && q[0] == '/' && q[1] == '/')
    &&& q.last() != '/' && q.last() != '.'
}

/// Index of the last `c` in `s`, or -1.
pub open spec fn last_index_of(s: Seq<char>, c: char) -> int
    decreases s.len(),
{
    if s.len() == 0 {
        -1
    } else if s.last() == c {
        s.len() - 1
    } else {
        last_index_of(s.drop_last(), c)
    }
}

/// The path without its trailing slashes.
pub open spec fn trim_trailing_slashes(p: Seq<char>) -> Seq<char>
    decreases p.len(),
{
    if p.len() > 0 && p.last() == '/' {
        trim_trailing_slashes(p.drop_last())
    } else {
        p
    }
}

/// The root `/` or the empty path.
pub open spec fn root_or_empty(p: Seq<char>) -> bool {
    p == Seq::<char>::empty() || p == seq!['/']
}

/// The final component of a path of the simple form `q/c` followed by any
/// number of slashes, `c` other than `..`.
pub open spec fn simple_file_name(path: Seq<char>) -> Option<Seq<char>> {
    let t = trim_trailing_slashes(path);
    let i = last_index_of(t, '/');
    let c = t.subrange(i + 1, t.len() as int);
    if simple_last_split(t, i) && c != seq!['.', '.'] {
        Some(c)
    } else {
        None
    }
}

/// The parent of a path of the simple form `q/c`, split at its last slash.
pub open spec fn simple_parent(path: Seq<char>) -> Option<Seq<char>> {
    let i = last_index_of(path, '/');
    if simple_last_split(path, i) {
        Some(path.subrange(0, i))
    } else {
        None
    }
}

/// `Path::parent` of a path given as text, as text: the path without its
/// final component. Stated: the parent, when there is one, is a leading part
/// of the path's text; and for a path of the simple form `q/c` (see
/// `simple_last_split`) it is `q`. Other forms depend on the platform's
/// separators and prefixes and are left unsaid.
#[verifier::external_body]
pub(crate) fn path_parent(path: &str) -> (r: Option<String>)
    ensures
        r matches Some(p) ==> spec_starts_with(path@, p@),
        r is None ==> simple_parent(path@) is None,
        r matches Some(p) ==> (simple_parent(path@) is Some ==> p@ == simple_parent(path@)->0),
{
    match std::path::Path::new(path).parent() {
        Some(p) => Some(p.to_string_lossy().into_owned()),
        None => None,
    }
}

} // verus!
