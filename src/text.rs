//! Character-level text operations: search, replacement, trimming, line
//! normalisation and decimal rendering, each specified over `Seq<char>`.

use vstd::prelude::*;

verus! {

/// Whether `p` occurs in `s` starting at position `i`.
pub open spec fn occurs_at(s: Seq<char>, p: Seq<char>, i: int) -> bool {
    0 <= i && i + p.len() <= s.len() && s.subrange(i, i + p.len()) == p
}

/// The first position at or after `k` where `p` occurs in `s`.
pub open spec fn find_from(s: Seq<char>, p: Seq<char>, k: int) -> Option<int>
    decreases s.len() + 1 - k,
{
    if k < 0 || k + p.len() > s.len() {
        None
    } else if s.subrange(k, k + p.len()) == p {
        Some(k)
    } else {
        find_from(s, p, k + 1)
    }
}

/// The first position where `p` occurs in `s`, if any.
pub open spec fn first_index(s: Seq<char>, p: Seq<char>) -> Option<int> {
    find_from(s, p, 0)
}

/// Whether `p` occurs anywhere in `s`.
pub open spec fn has_substring(s: Seq<char>, p: Seq<char>) -> bool {
    first_index(s, p) is Some
}

/// The position of the first occurrence of `p` in `s`, or the length of `s`.
pub open spec fn index_or_len(s: Seq<char>, p: Seq<char>) -> int {
    match first_index(s, p) {
        Some(i) => i,
        None => s.len() as int,
    }
}

/// An optional machine index read as a mathematical one.
pub open spec fn as_int(o: Option<usize>) -> Option<int> {
    match o {
        Some(i) => Some(i as int),
        None => None,
    }
}

proof fn lemma_find_from_bounds(s: Seq<char>, p: Seq<char>, k: int)
    requires
        0 <= k,
    ensures
        match find_from(s, p, k) {
            Some(i) => k <= i && occurs_at(s, p, i) && forall|j: int|
                k <= j < i ==> !occurs_at(s, p, j),
            None => forall|j: int| k <= j ==> !occurs_at(s, p, j),
        },
    decreases s.len() + 1 - k,
{
    if k + p.len() > s.len() {
    } else if s.subrange(k, k + p.len()) == p {
    } else {
        lemma_find_from_bounds(s, p, k + 1);
    }
}

/// The first index is an occurrence, and no occurrence comes before it.
pub proof fn lemma_first_index(s: Seq<char>, p: Seq<char>)
    ensures
        match first_index(s, p) {
            Some(i) => occurs_at(s, p, i) && forall|j: int| 0 <= j < i ==> !occurs_at(s, p, j),
            None => forall|j: int| !occurs_at(s, p, j),
        },
{
    lemma_find_from_bounds(s, p, 0);
}

/// Relies on `str::chars` collected into a `Vec`: the characters of the
/// string, in order.
#[verifier::external_body]
pub(crate) fn chars_of(s: &str) -> (r: Vec<char>)
    ensures
        r@ == s@,
{
    s.chars().collect()
}

/// Relies on `String: FromIterator<&char>`: the string made of the given
/// characters, in order.
#[verifier::external_body]
pub(crate) fn string_of(v: &Vec<char>) -> (r: String)
    ensures
        r@ == v@,
{
    v.iter().collect()
}

/// Whether `p` occurs in `s` at position `k`.
fn matches_at(s: &Vec<char>, p: &Vec<char>, k: usize) -> (r: bool)
    requires
        k + p@.len() <= s@.len(),
    ensures
        r == (s@.subrange(k as int, k + p@.len()) == p@),
{
    let mut j: usize = 0;
    while j < p.len()
        invariant
            j <= p@.len(),
            k + p@.len() <= s@.len(),
            p@.len() == p.len(),
            s@.len() == s.len(),
            forall|t: int| 0 <= t < j ==> s@[k + t] == p@[t],
        decreases p@.len() - j,
    {
        if s[k + j] != p[j] {
            assert(s@.subrange(k as int, k + p@.len())[j as int] != p@[j as int]);
            return false;
        }
        j = j + 1;
    }
    assert(s@.subrange(k as int, k + p@.len()) =~= p@);
    true
}

/// The position of the first occurrence of `p` in `s`.
pub fn find(s: &Vec<char>, p: &Vec<char>) -> (r: Option<usize>)
    ensures
        as_int(r) == first_index(s@, p@),
{
    if p.len() > s.len() {
        return None;
    }
    let last: usize = s.len() - p.len();
    let mut k: usize = 0;
    loop
        invariant
            last == s@.len() - p@.len(),
            k <= last,
            find_from(s@, p@, k as int) == first_index(s@, p@),
        decreases last - k,
    {
        if matches_at(s, p, k) {
            return Some(k);
        }
        if k == last {
            assert(find_from(s@, p@, k + 1) is None);
            return None;
        }
        k = k + 1;
    }
}

/// The position of the first occurrence of `p` in `s`, or the length of `s`.
pub fn find_or_len(s: &Vec<char>, p: &Vec<char>) -> (r: usize)
    ensures
        r as int == index_or_len(s@, p@),
        r <= s@.len(),
{
    proof {
        lemma_first_index(s@, p@);
    }
    match find(s, p) {
        Some(i) => i,
        None => s.len(),
    }
}

/// Whether `p` occurs anywhere in `s`.
pub fn contains(s: &Vec<char>, p: &Vec<char>) -> (r: bool)
    ensures
        r == has_substring(s@, p@),
{
    find(s, p).is_some()
}

/// Whether two character sequences are equal.
pub fn same_text(a: &Vec<char>, b: &Vec<char>) -> (r: bool)
    ensures
        r == (a@ == b@),
{
    if a.len() != b.len() {
        return false;
    }
    let r = matches_at(a, b, 0);
    assert(a@.subrange(0, b@.len() as int) =~= a@);
    r
}

/// Appends the characters of `src` to `out`.
pub fn push_all(out: &mut Vec<char>, src: &Vec<char>)
    ensures
        final(out)@ == old(out)@ + src@,
{
    let mut j: usize = 0;
    while j < src.len()
        invariant
            j <= src@.len(),
            out@ == old(out)@ + src@.subrange(0, j as int),
        decreases src@.len() - j,
    {
        out.push(src[j]);
        j = j + 1;
        assert(src@.subrange(0, j as int) =~= src@.subrange(0, j - 1).push(src@[j - 1]));
    }
    assert(src@.subrange(0, j as int) =~= src@);
}

/// The text of `s` with each leftmost, non-overlapping occurrence of `p`
/// replaced by `r`; an empty `p` matches before every character and at the end.
pub open spec fn replaced(s: Seq<char>, p: Seq<char>, r: Seq<char>) -> Seq<char>
    decreases s.len(),
{
    if p.len() == 0 {
        if s.len() == 0 {
            r
        } else {
            r + seq![s[0]] + replaced(s.drop_first(), p, r)
        }
    } else if s.len() == 0 {
        seq![]
    } else if p.len() <= s.len() && s.subrange(0, p.len() as int) == p {
        r + replaced(s.subrange(p.len() as int, s.len() as int), p, r)
    } else {
        seq![s[0]] + replaced(s.drop_first(), p, r)
    }
}

/// Replaces every leftmost, non-overlapping occurrence of `p` in `s` by `r`.
pub fn replace_all(s: &Vec<char>, p: &Vec<char>, r: &Vec<char>) -> (out: Vec<char>)
    ensures
        out@ == replaced(s@, p@, r@),
{
    let n = s.len();
    let mut out: Vec<char> = Vec::new();
    let mut k: usize = 0;
    assert(s@.subrange(0, n as int) =~= s@);
    assert(out@ =~= Seq::<char>::empty());
    while k < n
        invariant
            n == s@.len(),
            k <= n,
            out@ + replaced(s@.subrange(k as int, n as int), p@, r@) == replaced(s@, p@, r@),
        decreases n - k,
    {
        let ghost rest = s@.subrange(k as int, n as int);
        if p.len() == 0 {
            push_all(&mut out, r);
            out.push(s[k]);
            assert(rest.drop_first() =~= s@.subrange(k + 1, n as int));
            k = k + 1;
        } else if p.len() <= n - k && matches_at(s, p, k) {
            assert(rest.subrange(0, p@.len() as int) =~= s@.subrange(k as int, k + p@.len()));
            assert(rest.subrange(p@.len() as int, rest.len() as int) =~= s@.subrange(
                k + p@.len(),
                n as int,
            ));
            push_all(&mut out, r);
            k = k + p.len();
        } else {
            assert(p@.len() <= rest.len() ==> rest.subrange(0, p@.len() as int)
                =~= s@.subrange(k as int, k + p@.len()));
            assert(rest.drop_first() =~= s@.subrange(k + 1, n as int));
            out.push(s[k]);
            k = k + 1;
        }
        assert(out@ + replaced(s@.subrange(k as int, n as int), p@, r@) =~= replaced(s@, p@, r@));
    }
    if p.len() == 0 {
        push_all(&mut out, r);
    }
    assert(out@ =~= replaced(s@, p@, r@));
    out
}

/// The characters of `s` from `start` up to `end`, both clamped to its
/// length; empty when `end` is not after `start`.
pub open spec fn clamped_slice(s: Seq<char>, start: int, end: int) -> Seq<char> {
    if end <= start {
        seq![]
    } else {
        let a = if start < s.len() { start } else { s.len() as int };
        let b = if end < s.len() { end } else { s.len() as int };
        s.subrange(a, b)
    }
}

/// The characters of `s` from `start` up to `end`, counted in characters and
/// clamped to the length of `s`.
pub fn substring(s: &Vec<char>, start: usize, end: usize) -> (out: Vec<char>)
    ensures
        out@ == clamped_slice(s@, start as int, end as int),
{
    let mut out: Vec<char> = Vec::new();
    if end <= start {
        return out;
    }
    let a = if start < s.len() { start } else { s.len() };
    let b = if end < s.len() { end } else { s.len() };
    let mut k: usize = a;
    while k < b
        invariant
            a <= k <= b,
            b <= s@.len(),
            out@ == s@.subrange(a as int, k as int),
        decreases b - k,
    {
        out.push(s[k]);
        k = k + 1;
        assert(out@ =~= s@.subrange(a as int, k as int));
    }
    out
}

/// Whether `c` is a white-space character in the sense of Unicode's
/// `White_Space` property.
pub open spec fn is_space(c: char) -> bool {
    let n = c as u32;
    (0x09 <= n <= 0x0d) || n == 0x20 || n == 0x85 || n == 0xa0 || n == 0x1680 || (0x2000 <= n
        <= 0x200a) || n == 0x2028 || n == 0x2029 || n == 0x202f || n == 0x205f || n == 0x3000
}

/// Whether `c` is a white-space character.
pub fn space(c: char) -> (r: bool)
    ensures
        r == is_space(c),
{
    let n = c as u32;
    (0x09 <= n && n <= 0x0d) || n == 0x20 || n == 0x85 || n == 0xa0 || n == 0x1680 || (0x2000
        <= n && n <= 0x200a) || n == 0x2028 || n == 0x2029 || n == 0x202f || n == 0x205f || n
        == 0x3000
}

/// `s` without its leading white space.
pub open spec fn trim_start(s: Seq<char>) -> Seq<char>
    decreases s.len(),
{
    if s.len() > 0 && is_space(s[0]) {
        trim_start(s.drop_first())
    } else {
        s
    }
}

/// `s` without its trailing white space.
pub open spec fn trim_end(s: Seq<char>) -> Seq<char>
    decreases s.len(),
{
    if s.len() > 0 && is_space(s.last()) {
        trim_end(s.drop_last())
    } else {
        s
    }
}

/// `s` without leading and trailing white space.
pub open spec fn trimmed(s: Seq<char>) -> Seq<char> {
    trim_end(trim_start(s))
}

/// Removes leading and trailing white space.
pub fn trim(s: &Vec<char>) -> (out: Vec<char>)
    ensures
        out@ == trimmed(s@),
{
    let n = s.len();
    let mut a: usize = 0;
    assert(s@.subrange(0, n as int) =~= s@);
    while a < n && space(s[a])
        invariant
            n == s@.len(),
            a <= n,
            trim_start(s@.subrange(a as int, n as int)) == trim_start(s@),
        decreases n - a,
    {
        assert(s@.subrange(a as int, n as int).drop_first() =~= s@.subrange(a + 1, n as int));
        a = a + 1;
    }
    assert(trim_start(s@) == s@.subrange(a as int, n as int));
    let mut b: usize = n;
    while b > a && space(s[b - 1])
        invariant
            n == s@.len(),
            a <= b <= n,
            trim_end(s@.subrange(a as int, b as int)) == trimmed(s@),
        decreases b,
    {
        assert(s@.subrange(a as int, b as int).drop_last() =~= s@.subrange(a as int, b - 1));
        b = b - 1;
    }
    substring(s, a, b)
}

/// The pieces of `s` between line breaks, in order, as splitting at every
/// `'\n'` yields them (an empty text is one empty piece).
pub open spec fn lines_of(s: Seq<char>) -> Seq<Seq<char>>
    decreases s.len(),
{
    if s.len() == 0 {
        seq![seq![]]
    } else {
        let p = lines_of(s.drop_last());
        if s.last() == '\n' {
            p.push(seq![])
        } else {
            p.update(p.len() - 1, p.last().push(s.last()))
        }
    }
}

/// The trimmed lines of `ls` that are not empty after trimming, in order.
pub open spec fn kept_paragraphs(ls: Seq<Seq<char>>) -> Seq<Seq<char>>
    decreases ls.len(),
{
    if ls.len() == 0 {
        seq![]
    } else {
        let rest = kept_paragraphs(ls.drop_last());
        if trimmed(ls.last()).len() == 0 {
            rest
        } else {
            rest.push(trimmed(ls.last()))
        }
    }
}

/// The pieces of `ps` with `sep` between each two neighbours.
pub open spec fn joined(ps: Seq<Seq<char>>, sep: Seq<char>) -> Seq<char>
    decreases ps.len(),
{
    if ps.len() == 0 {
        seq![]
    } else if ps.len() == 1 {
        ps[0]
    } else {
        joined(ps.drop_last(), sep) + sep + ps.last()
    }
}

/// A blank line, the separator between paragraphs.
pub open spec fn blank_line() -> Seq<char> {
    seq!['\n', '\n']
}

/// The non-blank lines of `s`, trimmed and separated by blank lines.
pub open spec fn normalized(s: Seq<char>) -> Seq<char> {
    joined(kept_paragraphs(lines_of(s)), blank_line())
}

proof fn lemma_lines_nonempty(s: Seq<char>)
    ensures
        lines_of(s).len() >= 1,
    decreases s.len(),
{
    if s.len() > 0 {
        lemma_lines_nonempty(s.drop_last());
    }
}

/// Adds `line`, trimmed, as one more paragraph after those of `ps` already
/// in `out`, unless it is blank; returns whether `out` holds any paragraph.
fn add_paragraph(
    out: &mut Vec<char>,
    any: bool,
    line: &Vec<char>,
    Ghost(ps): Ghost<Seq<Seq<char>>>,
) -> (r: bool)
    requires
        old(out)@ == joined(kept_paragraphs(ps), blank_line()),
        any == (kept_paragraphs(ps).len() > 0),
    ensures
        final(out)@ == joined(kept_paragraphs(ps.push(line@)), blank_line()),
        r == (kept_paragraphs(ps.push(line@)).len() > 0),
{
    assert(ps.push(line@).drop_last() =~= ps);
    let t = trim(line);
    if t.len() == 0 {
        return any;
    }
    if any {
        let sep = vec!['\n', '\n'];
        assert(sep@ =~= blank_line());
        push_all(out, &sep);
    }
    push_all(out, &t);
    let ghost k = kept_paragraphs(ps).push(t@);
    assert(k.drop_last() =~= kept_paragraphs(ps));
    if !any {
        assert(out@ =~= joined(k, blank_line()));
    }
    true
}

/// Splits `s` into lines, trims each, drops the blank ones and joins the rest
/// with blank lines.
pub fn normalize(s: &Vec<char>) -> (out: Vec<char>)
    ensures
        out@ == normalized(s@),
{
    let n = s.len();
    let mut out: Vec<char> = Vec::new();
    let mut any = false;
    let mut cur: Vec<char> = Vec::new();
    let mut k: usize = 0;
    assert(s@.subrange(0, 0) =~= Seq::<char>::empty());
    assert(lines_of(s@.subrange(0, 0)).drop_last() =~= Seq::<Seq<char>>::empty());
    assert(out@ =~= Seq::<char>::empty());
    while k < n
        invariant
            n == s@.len(),
            k <= n,
            lines_of(s@.subrange(0, k as int)).len() >= 1,
            cur@ == lines_of(s@.subrange(0, k as int)).last(),
            any == (kept_paragraphs(lines_of(s@.subrange(0, k as int)).drop_last()).len() > 0),
            out@ == joined(
                kept_paragraphs(lines_of(s@.subrange(0, k as int)).drop_last()),
                blank_line(),
            ),
        decreases n - k,
    {
        let ghost before = lines_of(s@.subrange(0, k as int));
        assert(s@.subrange(0, k + 1).drop_last() =~= s@.subrange(0, k as int));
        assert(s@.subrange(0, k + 1).last() == s@[k as int]);
        let c = s[k];
        if c == '\n' {
            assert(before.drop_last().push(cur@) =~= before);
            any = add_paragraph(&mut out, any, &cur, Ghost(before.drop_last()));
            cur = Vec::new();
            assert(lines_of(s@.subrange(0, k + 1)).drop_last() =~= before);
        } else {
            cur.push(c);
            assert(lines_of(s@.subrange(0, k + 1)).drop_last() =~= before.drop_last());
        }
        k = k + 1;
        proof {
            lemma_lines_nonempty(s@.subrange(0, k as int));
        }
    }
    assert(s@.subrange(0, n as int) =~= s@);
    let ghost all = lines_of(s@);
    assert(all.drop_last().push(cur@) =~= all);
    add_paragraph(&mut out, any, &cur, Ghost(all.drop_last()));
    out
}

/// The character of a decimal digit.
pub open spec fn digit_char(d: nat) -> char {
    if d == 0 {
        '0'
    } else if d == 1 {
        '1'
    } else if d == 2 {
        '2'
    } else if d == 3 {
        '3'
    } else if d == 4 {
        '4'
    } else if d == 5 {
        '5'
    } else if d == 6 {
        '6'
    } else if d == 7 {
        '7'
    } else if d == 8 {
        '8'
    } else {
        '9'
    }
}

/// The decimal notation of `n`, without leading zeros.
pub open spec fn decimal(n: nat) -> Seq<char>
    decreases n,
{
    if n < 10 {
        seq![digit_char(n)]
    } else {
        decimal(n / 10).push(digit_char(n % 10))
    }
}

fn digit(d: u32) -> (c: char)
    requires
        d < 10,
    ensures
        c == digit_char(d as nat),
{
    if d == 0 {
        '0'
    } else if d == 1 {
        '1'
    } else if d == 2 {
        '2'
    } else if d == 3 {
        '3'
    } else if d == 4 {
        '4'
    } else if d == 5 {
        '5'
    } else if d == 6 {
        '6'
    } else if d == 7 {
        '7'
    } else if d == 8 {
        '8'
    } else {
        '9'
    }
}

/// The decimal notation of `n`.
pub fn decimal_of(n: u32) -> (r: Vec<char>)
    ensures
        r@ == decimal(n as nat),
    decreases n,
{
    if n < 10 {
        let r = vec![digit(n)];
        assert(r@ =~= decimal(n as nat));
        r
    } else {
        let mut r = decimal_of(n / 10);
        r.push(digit(n % 10));
        r
    }
}

} // verus!
