//! Text as sequences of characters: the string operations that the rest of
//! the library is written in.

use vstd::prelude::*;

verus! {

/// `String::push`: appends one character to the end of the string.
#[verifier::external_body]
pub(crate) fn push_char(s: &mut String, c: char)
    ensures
        final(s)@ == old(s)@.push(c),
{
    s.push(c)
}

/// The characters of `s`, in order.
pub fn chars_of(s: &str) -> (r: Vec<char>)
    ensures
        r@ == s@,
{
    let mut r: Vec<char> = Vec::new();
    for c in it: s.chars()
        invariant
            r@ == it.seq().take(it.index() as int),
            it.seq() == s@,
    {
        r.push(c);
    }
    r
}

/// The string made of the characters `cs[from..to]`.
pub fn string_of_range(cs: &Vec<char>, from: usize, to: usize) -> (r: String)
    requires
        from <= to <= cs@.len(),
    ensures
        r@ == cs@.subrange(from as int, to as int),
{
    let mut r = String::new();
    let mut i: usize = from;
    while i < to
        invariant
            from <= i <= to <= cs@.len(),
            r@ == cs@.subrange(from as int, i as int),
        decreases to - i,
    {
        push_char(&mut r, cs[i]);
        i = i + 1;
    }
    r
}

/// Whether two strings hold the same characters.
pub fn same_text(a: &str, b: &str) -> (r: bool)
    ensures
        r == (a@ == b@),
{
    a.to_owned() == b.to_owned()
}

/// `a` followed by `b`.
pub fn cat2(a: &str, b: &str) -> (r: String)
    ensures
        r@ == a@ + b@,
{
    let mut r = a.to_owned();
    r.append(b);
    r
}


/// `a`, `b` and `c`, one after the other.
pub fn cat3(a: &str, b: &str, c: &str) -> (r: String)
    ensures
        r@ == a@ + b@ + c@,
{
    let mut r = cat2(a, b);
    r.append(c);
    r
}

/// Four strings, one after the other.
pub fn cat4(a: &str, b: &str, c: &str, d: &str) -> (r: String)
    ensures
        r@ == a@ + b@ + c@ + d@,
{
    let mut r = cat3(a, b, c);
    r.append(d);
    r
}

/// Five strings, one after the other.
pub fn cat5(a: &str, b: &str, c: &str, d: &str, e: &str) -> (r: String)
    ensures
        r@ == a@ + b@ + c@ + d@ + e@,
{
    let mut r = cat4(a, b, c, d);
    r.append(e);
    r
}

/// Six strings, one after the other.
pub fn cat6(a: &str, b: &str, c: &str, d: &str, e: &str, f: &str) -> (r: String)
    ensures
        r@ == a@ + b@ + c@ + d@ + e@ + f@,
{
    let mut r = cat5(a, b, c, d, e);
    r.append(f);
    r
}

/// Seven strings, one after the other.
pub fn cat7(a: &str, b: &str, c: &str, d: &str, e: &str, f: &str, g: &str) -> (r: String)
    ensures
        r@ == a@ + b@ + c@ + d@ + e@ + f@ + g@,
{
    let mut r = cat6(a, b, c, d, e, f);
    r.append(g);
    r
}

// ── Sequences of strings ────────────────────────────────────────────────

/// The characters of each string of a sequence.
pub open spec fn texts(v: Seq<String>) -> Seq<Seq<char>> {
    v.map_values(|s: String| s@)
}

/// What a pushed string adds to the texts of a sequence.
pub proof fn lemma_texts_push(v: Seq<String>, s: String)
    ensures
        texts(v.push(s)) == texts(v).push(s@),
{
    assert(texts(v.push(s)) =~= texts(v).push(s@));
}

/// Appends `s` to `v`.
pub fn push_text(v: &mut Vec<String>, s: String)
    ensures
        texts(final(v)@) == texts(old(v)@).push(s@),
{
    proof {
        lemma_texts_push(v@, s);
    }
    v.push(s);
}

/// A copy of every string of `v`.
pub fn clone_texts(v: &Vec<String>) -> (r: Vec<String>)
    ensures
        texts(r@) == texts(v@),
{
    let mut r: Vec<String> = Vec::new();
    let mut i: usize = 0;
    while i < v.len()
        invariant
            i <= v@.len(),
            texts(r@) == texts(v@).take(i as int),
        decreases v@.len() - i,
    {
        push_text(&mut r, v[i].clone());
        assert(texts(v@).take(i + 1) =~= texts(v@).take(i as int).push(texts(v@)[i as int]));
        i = i + 1;
    }
    assert(texts(v@).take(i as int) =~= texts(v@));
    r
}

/// The parts one after the other, with `sep` between neighbours.
pub open spec fn joined(parts: Seq<Seq<char>>, sep: Seq<char>) -> Seq<char>
    decreases parts.len(),
{
    if parts.len() == 0 {
        Seq::empty()
    } else if parts.len() == 1 {
        parts[0]
    } else {
        joined(parts.drop_last(), sep) + sep + parts.last()
    }
}

/// Joins `parts` with `sep` between neighbours.
pub fn join(parts: &Vec<String>, sep: &str) -> (r: String)
    ensures
        r@ == joined(texts(parts@), sep@),
{
    let mut r = String::new();
    let mut i: usize = 0;
    while i < parts.len()
        invariant
            i <= parts@.len(),
            r@ == joined(texts(parts@).take(i as int), sep@),
        decreases parts@.len() - i,
    {
        if i > 0 {
            r.append(sep);
        }
        r.append(parts[i].as_str());
        let ghost t = texts(parts@).take(i + 1);
        assert(t.drop_last() =~= texts(parts@).take(i as int));
        assert(Seq::<char>::empty() + t.last() =~= t.last());
        i = i + 1;
    }
    assert(texts(parts@).take(i as int) =~= texts(parts@));
    r
}

// ── Optional text ───────────────────────────────────────────────────────

/// The characters of an optional string.
pub open spec fn opt_text(o: Option<String>) -> Option<Seq<char>> {
    match o {
        Some(s) => Some(s@),
        None => None,
    }
}

/// A copy of an optional string.
pub fn clone_opt(o: &Option<String>) -> (r: Option<String>)
    ensures
        opt_text(r) == opt_text(*o),
{
    match o {
        Some(s) => Some(s.clone()),
        None => None,
    }
}

// ── Searching ───────────────────────────────────────────────────────────

/// Whether `p` stands in `s` at position `i`.
pub open spec fn occurs_at(s: Seq<char>, p: Seq<char>, i: int) -> bool {
    0 <= i && i + p.len() <= s.len() && s.subrange(i, i + p.len()) == p
}

/// Whether `p` stands anywhere in `s`.
pub open spec fn contains_text(s: Seq<char>, p: Seq<char>) -> bool {
    exists|i: int| occurs_at(s, p, i)
}

/// Whether `s` begins with `p`.
pub open spec fn begins_with(s: Seq<char>, p: Seq<char>) -> bool {
    occurs_at(s, p, 0)
}

/// Whether `s` ends with `p`.
pub open spec fn finishes_with(s: Seq<char>, p: Seq<char>) -> bool {
    occurs_at(s, p, s.len() - p.len())
}

/// Whether `p` stands in `s` at position `i`.
pub fn matches_at(s: &Vec<char>, p: &Vec<char>, i: usize) -> (r: bool)
    ensures
        r == occurs_at(s@, p@, i as int),
{
    if i > s.len() || p.len() > s.len() - i {
        return false;
    }
    let mut j: usize = 0;
    while j < p.len()
        invariant
            j <= p@.len(),
            i + p@.len() <= s@.len() <= usize::MAX,
            forall|k: int| 0 <= k < j ==> s@[i + k] == p@[k],
        decreases p@.len() - j,
    {
        if s[i + j] != p[j] {
            assert(s@.subrange(i as int, i + p@.len())[j as int] != p@[j as int]);
            return false;
        }
        j = j + 1;
    }
    assert(s@.subrange(i as int, i + p@.len()) =~= p@);
    true
}

/// The first position at which `p` stands in `s`, or `None`.
pub fn find_chars(s: &Vec<char>, p: &Vec<char>, from: usize) -> (r: Option<usize>)
    ensures
        match r {
            Some(i) => from <= i && occurs_at(s@, p@, i as int) && (forall|k: int|
                from <= k < i ==> !occurs_at(s@, p@, k)),
            None => forall|k: int| from <= k ==> !occurs_at(s@, p@, k),
        },
{
    let mut i: usize = from;
    while i <= s.len()
        invariant
            from <= i,
            i <= s@.len() + 1 || i == from,
            forall|k: int| from <= k < i ==> !occurs_at(s@, p@, k),
        decreases s@.len() + 1 - i,
    {
        if matches_at(s, p, i) {
            return Some(i);
        }
        if i == s.len() {
            return None;
        }
        i = i + 1;
    }
    None
}

/// Whether `p` stands anywhere in `s`.
pub fn has_text(s: &str, p: &str) -> (r: bool)
    ensures
        r == contains_text(s@, p@),
{
    let cs = chars_of(s);
    let ps = chars_of(p);
    match find_chars(&cs, &ps, 0) {
        Some(_) => true,
        None => false,
    }
}

/// Whether `c` is one of the characters of `s`.
pub fn has_char(s: &str, c: char) -> (r: bool)
    ensures
        r == s@.contains(c),
{
    let cs = chars_of(s);
    let mut i: usize = 0;
    while i < cs.len()
        invariant
            i <= cs@.len(),
            cs@ == s@,
            forall|k: int| 0 <= k < i ==> cs@[k] != c,
        decreases cs@.len() - i,
    {
        if cs[i] == c {
            return true;
        }
        i = i + 1;
    }
    false
}

/// Whether `s` begins with `p`.
pub fn starts_with(s: &str, p: &str) -> (r: bool)
    ensures
        r == begins_with(s@, p@),
{
    let cs = chars_of(s);
    let ps = chars_of(p);
    matches_at(&cs, &ps, 0)
}

/// Whether `s` ends with `p`.
pub fn ends_with(s: &str, p: &str) -> (r: bool)
    ensures
        r == finishes_with(s@, p@),
{
    let cs = chars_of(s);
    let ps = chars_of(p);
    if ps.len() > cs.len() {
        return false;
    }
    matches_at(&cs, &ps, cs.len() - ps.len())
}

/// Whether the first character of `s` is `c`.
pub open spec fn first_is(s: Seq<char>, c: char) -> bool {
    s.len() > 0 && s[0] == c
}

/// Whether the first character of `s` is `c`.
pub fn starts_with_char(s: &str, c: char) -> (r: bool)
    ensures
        r == first_is(s@, c),
{
    let cs = chars_of(s);
    cs.len() > 0 && cs[0] == c
}

/// Whether the last character of `s` is `c`.
pub open spec fn last_is(s: Seq<char>, c: char) -> bool {
    s.len() > 0 && s.last() == c
}

/// Whether the last character of `s` is `c`.
pub fn ends_with_char(s: &str, c: char) -> (r: bool)
    ensures
        r == last_is(s@, c),
{
    let cs = chars_of(s);
    cs.len() > 0 && cs[cs.len() - 1] == c
}

/// `s` with every occurrence of `p`, taken from the left without overlap,
/// replaced by `r`.
pub open spec fn replaced(s: Seq<char>, p: Seq<char>, r: Seq<char>) -> Seq<char>
    decreases s.len(),
{
    if p.len() == 0 || s.len() < p.len() {
        s
    } else if occurs_at(s, p, 0) {
        r + replaced(s.skip(p.len() as int), p, r)
    } else {
        seq![s[0]] + replaced(s.skip(1), p, r)
    }
}

/// Replaces every occurrence of the non-empty `p` in `s` by `r`.
pub fn replace(s: &str, p: &str, r: &str) -> (out: String)
    requires
        p@.len() > 0,
    ensures
        out@ == replaced(s@, p@, r@),
{
    let cs = chars_of(s);
    let ps = chars_of(p);
    let mut out = String::new();
    let mut i: usize = 0;
    assert(cs@.skip(0) =~= s@);
    assert(Seq::<char>::empty() + replaced(s@, p@, r@) =~= replaced(s@, p@, r@));
    while i < cs.len()
        invariant
            i <= cs@.len(),
            cs@ == s@,
            ps@ == p@,
            p@.len() > 0,
            out@ + replaced(cs@.skip(i as int), p@, r@) == replaced(s@, p@, r@),
        decreases cs@.len() - i,
    {
        let ghost rest = cs@.skip(i as int);
        let ghost before = out@;
        if matches_at(&cs, &ps, i) {
            assert(rest.subrange(0, p@.len() as int) =~= cs@.subrange(i as int, i + p@.len()));
            assert(rest.skip(p@.len() as int) =~= cs@.skip(i + p@.len()));
            out.append(r);
            i = i + ps.len();
            assert(out@ + replaced(cs@.skip(i as int), p@, r@) =~= before + replaced(rest, p@, r@));
        } else {
            proof {
                if rest.len() >= p@.len() {
                    assert(rest.subrange(0, p@.len() as int) =~= cs@.subrange(i as int, i + p@.len()));
                    assert(!occurs_at(rest, p@, 0));
                } else {
                    lemma_replaced_short(rest, p@, r@);
                    lemma_replaced_short(rest.skip(1), p@, r@);
                    assert(seq![rest[0]] + rest.skip(1) =~= rest);
                }
                assert(rest.skip(1) =~= cs@.skip(i + 1));
            }
            push_char(&mut out, cs[i]);
            i = i + 1;
            assert(out@ + replaced(cs@.skip(i as int), p@, r@) =~= before + replaced(rest, p@, r@));
        }
    }
    assert(cs@.skip(i as int) =~= Seq::<char>::empty());
    assert(out@ + Seq::<char>::empty() =~= out@);
    out
}

proof fn lemma_replaced_short(s: Seq<char>, p: Seq<char>, r: Seq<char>)
    requires
        s.len() < p.len(),
    ensures
        replaced(s, p, r) == s,
{
}

// ── White space ─────────────────────────────────────────────────────────

/// The Unicode property `White_Space`.
pub open spec fn is_space(c: char) -> bool {
    ||| '\u{9}' <= c <= '\u{d}'
    ||| c == ' '
    ||| c == '\u{85}'
    ||| c == '\u{a0}'
    ||| c == '\u{1680}'
    ||| '\u{2000}' <= c <= '\u{200a}'
    ||| c == '\u{2028}'
    ||| c == '\u{2029}'
    ||| c == '\u{202f}'
    ||| c == '\u{205f}'
    ||| c == '\u{3000}'
}

/// Whether `c` has the Unicode property `White_Space`.
pub fn is_whitespace(c: char) -> (r: bool)
    ensures
        r == is_space(c),
{
    ('\u{9}' <= c && c <= '\u{d}') || c == ' ' || c == '\u{85}' || c == '\u{a0}' || c == '\u{1680}' || (
    '\u{2000}' <= c && c <= '\u{200a}') || c == '\u{2028}' || c == '\u{2029}' || c == '\u{202f}' || c
        == '\u{205f}' || c == '\u{3000}'
}

/// `s` without the white space at its start.
pub open spec fn trimmed_start(s: Seq<char>) -> Seq<char>
    decreases s.len(),
{
    if s.len() > 0 && is_space(s[0]) {
        trimmed_start(s.skip(1))
    } else {
        s
    }
}

/// `s` without the white space at its end.
pub open spec fn trimmed_end(s: Seq<char>) -> Seq<char>
    decreases s.len(),
{
    if s.len() > 0 && is_space(s.last()) {
        trimmed_end(s.drop_last())
    } else {
        s
    }
}

/// `s` without the white space at either end.
pub open spec fn trimmed(s: Seq<char>) -> Seq<char> {
    trimmed_end(trimmed_start(s))
}

fn skip_spaces(cs: &Vec<char>) -> (i: usize)
    ensures
        i <= cs@.len(),
        cs@.skip(i as int) == trimmed_start(cs@),
{
    let mut i: usize = 0;
    assert(cs@.skip(0) =~= cs@);
    while i < cs.len() && is_whitespace(cs[i])
        invariant
            i <= cs@.len(),
            trimmed_start(cs@.skip(i as int)) == trimmed_start(cs@),
        decreases cs@.len() - i,
    {
        assert(cs@.skip(i as int).skip(1) =~= cs@.skip(i + 1));
        i = i + 1;
    }
    i
}

fn back_over_spaces(cs: &Vec<char>, from: usize) -> (j: usize)
    requires
        from <= cs@.len(),
    ensures
        from <= j <= cs@.len(),
        cs@.subrange(from as int, j as int) == trimmed_end(cs@.skip(from as int)),
{
    let mut j: usize = cs.len();
    assert(cs@.subrange(from as int, j as int) =~= cs@.skip(from as int));
    while j > from && is_whitespace(cs[j - 1])
        invariant
            from <= j <= cs@.len(),
            trimmed_end(cs@.subrange(from as int, j as int)) == trimmed_end(cs@.skip(from as int)),
        decreases j,
    {
        assert(cs@.subrange(from as int, j as int).drop_last() =~= cs@.subrange(from as int, j - 1));
        j = j - 1;
    }
    j
}

/// `s` without the white space at either end.
pub fn trim(s: &str) -> (r: String)
    ensures
        r@ == trimmed(s@),
{
    let cs = chars_of(s);
    let i: usize = skip_spaces(&cs);
    let j: usize = back_over_spaces(&cs, i);
    string_of_range(&cs, i, j)
}

/// `s` without the white space at its end.
pub fn trim_end(s: &str) -> (r: String)
    ensures
        r@ == trimmed_end(s@),
{
    let cs = chars_of(s);
    let j: usize = back_over_spaces(&cs, 0);
    assert(cs@.skip(0) =~= cs@);
    string_of_range(&cs, 0, j)
}

/// The position of the first white space of `s`, or its length.
pub open spec fn first_space(s: Seq<char>) -> int
    decreases s.len(),
{
    if s.len() == 0 || is_space(s[0]) {
        0
    } else {
        1 + first_space(s.skip(1))
    }
}

/// The position of the first white space of `cs`, or its length.
pub fn find_space(cs: &Vec<char>) -> (r: usize)
    ensures
        r == first_space(cs@),
        r <= cs@.len(),
{
    let mut i: usize = 0;
    assert(cs@.skip(0) =~= cs@);
    while i < cs.len() && !is_whitespace(cs[i])
        invariant
            i <= cs@.len(),
            i + first_space(cs@.skip(i as int)) == first_space(cs@),
        decreases cs@.len() - i,
    {
        assert(cs@.skip(i as int).skip(1) =~= cs@.skip(i + 1));
        i = i + 1;
    }
    i
}

// ── Lines ───────────────────────────────────────────────────────────────

/// The position of the first `c` in `s`, or its length.
pub open spec fn first_char(s: Seq<char>, c: char) -> int
    decreases s.len(),
{
    if s.len() == 0 || s[0] == c {
        0
    } else {
        1 + first_char(s.skip(1), c)
    }
}

pub proof fn lemma_first_char(s: Seq<char>, c: char)
    ensures
        0 <= first_char(s, c) <= s.len(),
        first_char(s, c) < s.len() ==> s[first_char(s, c)] == c,
        forall|i: int| 0 <= i < first_char(s, c) ==> s[i] != c,
    decreases s.len(),
{
    if s.len() > 0 && s[0] != c {
        lemma_first_char(s.skip(1), c);
        assert forall|i: int| 0 <= i < first_char(s, c) implies s[i] != c by {
            if i > 0 {
                assert(s[i] == s.skip(1)[i - 1]);
            }
        }
    }
}

/// The position of the first `c` in `cs` at or after `from`, or the length.
pub fn find_char(cs: &Vec<char>, c: char, from: usize) -> (r: usize)
    requires
        from <= cs@.len(),
    ensures
        from <= r <= cs@.len(),
        r == from + first_char(cs@.skip(from as int), c),
{
    let mut i: usize = from;
    while i < cs.len() && cs[i] != c
        invariant
            from <= i <= cs@.len(),
            i + first_char(cs@.skip(i as int), c) == from + first_char(cs@.skip(from as int), c),
        decreases cs@.len() - i,
    {
        assert(cs@.skip(i as int).skip(1) =~= cs@.skip(i + 1));
        i = i + 1;
    }
    i
}

/// `s` without a carriage return at its end.
pub open spec fn without_cr(s: Seq<char>) -> Seq<char> {
    if last_is(s, '\r') {
        s.drop_last()
    } else {
        s
    }
}

/// The lines of `s`: each ends at a line feed, which may follow a carriage
/// return; neither belongs to the line. A line feed at the very end starts
/// no further line.
pub open spec fn lines_of(s: Seq<char>) -> Seq<Seq<char>>
    decreases s.len(),
{
    if s.len() == 0 {
        Seq::empty()
    } else {
        let n = first_char(s, '\n');
        if 0 <= n < s.len() {
            seq![without_cr(s.take(n))] + lines_of(s.skip(n + 1))
        } else {
            seq![s]
        }
    }
}

/// The lines of `s`.
pub fn lines(s: &str) -> (r: Vec<String>)
    ensures
        texts(r@) == lines_of(s@),
{
    let cs = chars_of(s);
    let mut r: Vec<String> = Vec::new();
    let mut i: usize = 0;
    assert(cs@.skip(0) =~= s@);
    assert(texts(r@) + lines_of(s@) =~= lines_of(s@));
    while i < cs.len()
        invariant
            i <= cs@.len(),
            cs@ == s@,
            texts(r@) + lines_of(cs@.skip(i as int)) == lines_of(s@),
        decreases cs@.len() - i,
    {
        let n: usize = find_char(&cs, '\n', i);
        let ghost rest = cs@.skip(i as int);
        let ghost before = texts(r@);
        let ghost k = n - i;
        if n < cs.len() {
            proof {
                lemma_first_char(rest, '\n');
                assert(rest.take(k) =~= cs@.subrange(i as int, n as int));
                assert(rest.skip(k + 1) =~= cs@.skip(n + 1));
            }
            let end: usize = if n > i && cs[n - 1] == '\r' {
                n - 1
            } else {
                n
            };
            proof {
                assert(without_cr(rest.take(k)) =~= cs@.subrange(i as int, end as int));
            }
            push_text(&mut r, string_of_range(&cs, i, end));
            i = n + 1;
            assert(texts(r@) + lines_of(cs@.skip(i as int)) =~= before + lines_of(rest));
        } else {
            assert(cs@.subrange(i as int, n as int) =~= rest);
            push_text(&mut r, string_of_range(&cs, i, n));
            i = n;
            assert(cs@.skip(i as int) =~= Seq::<char>::empty());
            assert(texts(r@) + lines_of(cs@.skip(i as int)) =~= before + lines_of(rest));
        }
    }
    assert(cs@.skip(i as int) =~= Seq::<char>::empty());
    assert(texts(r@) + Seq::<Seq<char>>::empty() =~= texts(r@));
    r
}

// ── Numbers and columns ─────────────────────────────────────────────────

/// The decimal digit of a number below ten.
pub open spec fn digit(n: nat) -> char {
    ('0' as u32 + n) as char
}

/// `n` in decimal.
pub open spec fn decimal(n: nat) -> Seq<char>
    decreases n,
{
    if n < 10 {
        seq![digit(n)]
    } else {
        decimal(n / 10).push(digit(n % 10))
    }
}

fn digit_char(n: u64) -> (c: char)
    requires
        n < 10,
    ensures
        c == digit(n as nat),
{
    if n == 0 {
        '0'
    } else if n == 1 {
        '1'
    } else if n == 2 {
        '2'
    } else if n == 3 {
        '3'
    } else if n == 4 {
        '4'
    } else if n == 5 {
        '5'
    } else if n == 6 {
        '6'
    } else if n == 7 {
        '7'
    } else if n == 8 {
        '8'
    } else {
        '9'
    }
}

/// `n` in decimal.
pub fn decimal_of(n: u64) -> (r: String)
    ensures
        r@ == decimal(n as nat),
    decreases n,
{
    if n < 10 {
        let mut r = String::new();
        push_char(&mut r, digit_char(n));
        assert(r@ =~= seq![digit(n as nat)]);
        r
    } else {
        let mut r = decimal_of(n / 10);
        push_char(&mut r, digit_char(n % 10));
        r
    }
}

/// `n` in decimal, with a sign where it is negative.
pub open spec fn signed_decimal(n: int) -> Seq<char> {
    if n < 0 {
        seq!['-'] + decimal((-n) as nat)
    } else {
        decimal(n as nat)
    }
}

/// `n` in decimal, with a sign where it is negative.
pub fn signed_decimal_of(n: i32) -> (r: String)
    ensures
        r@ == signed_decimal(n as int),
{
    if n < 0 {
        let mut r = String::new();
        push_char(&mut r, '-');
        let m: i64 = -(n as i64);
        r.append(decimal_of(m as u64).as_str());
        assert(r@ =~= seq!['-'] + decimal((-n) as nat));
        r
    } else {
        decimal_of(n as u64)
    }
}

/// `n` where it is a `usize`, else the largest one.
pub open spec fn capped(n: nat) -> nat {
    if n <= usize::MAX {
        n
    } else {
        usize::MAX as nat
    }
}

/// The sum of `a` and `b`, or the largest `usize`.
pub fn capped_add(a: usize, b: usize) -> (r: usize)
    ensures
        r == capped((a + b) as nat),
{
    if a <= usize::MAX - b {
        a + b
    } else {
        usize::MAX
    }
}

/// `n` copies of `c`.
pub open spec fn repeated(c: char, n: nat) -> Seq<char> {
    Seq::new(n, |i: int| c)
}

/// `n` copies of `c`.
pub fn repeat(c: char, n: usize) -> (r: String)
    ensures
        r@ == repeated(c, n as nat),
{
    let mut r = String::new();
    let mut i: usize = 0;
    assert(r@ =~= repeated(c, 0));
    while i < n
        invariant
            i <= n,
            r@ == repeated(c, i as nat),
        decreases n - i,
    {
        push_char(&mut r, c);
        i = i + 1;
        assert(r@ =~= repeated(c, i as nat));
    }
    r
}

/// The number of fill characters that bring a text of `len` to `width`.
pub open spec fn missing(len: nat, width: nat) -> nat {
    if len < width {
        (width - len) as nat
    } else {
        0
    }
}

/// `s`, filled with `c` on the right up to `width` characters.
pub open spec fn padded_right(s: Seq<char>, width: nat, c: char) -> Seq<char> {
    s + repeated(c, missing(s.len(), width))
}

/// `s`, filled with `c` on the left up to `width` characters.
pub open spec fn padded_left(s: Seq<char>, width: nat, c: char) -> Seq<char> {
    repeated(c, missing(s.len(), width)) + s
}

fn missing_of(s: &str, width: usize) -> (r: usize)
    ensures
        r == missing(s@.len(), width as nat),
{
    let n: usize = s.unicode_len();
    if n < width {
        width - n
    } else {
        0
    }
}

/// `s`, filled with spaces on the right up to `width` characters.
pub fn pad_right(s: &str, width: usize) -> (r: String)
    ensures
        r@ == padded_right(s@, width as nat, ' '),
{
    cat2(s, repeat(' ', missing_of(s, width)).as_str())
}

/// `s`, filled with `c` on the left up to `width` characters.
pub fn pad_left(s: &str, width: usize, c: char) -> (r: String)
    ensures
        r@ == padded_left(s@, width as nat, c),
{
    cat2(repeat(c, missing_of(s, width)).as_str(), s)
}

// ── Letter case ─────────────────────────────────────────────────────────

/// What `str::to_lowercase` makes of a text.
pub uninterp spec fn lowercase(s: Seq<char>) -> Seq<char>;

/// `str::to_lowercase`: the Unicode lowercase of `s`.
#[verifier::external_body]
pub(crate) fn to_lowercase(s: &str) -> (r: String)
    ensures
        r@ == lowercase(s@),
{
    s.to_lowercase()
}

/// The lowercase of an ASCII letter, and any other character as it is.
pub open spec fn ascii_lower(c: char) -> char {
    if 'A' <= c <= 'Z' {
        (c as u32 + 32) as char
    } else {
        c
    }
}

/// The lowercase of an ASCII letter, and any other character as it is.
pub fn to_ascii_lower(c: char) -> (r: char)
    ensures
        r == ascii_lower(c),
{
    if 'A' <= c && c <= 'Z' {
        let b: u8 = (c as u8) + 32;
        b as char
    } else {
        c
    }
}

// ── Byte offsets ────────────────────────────────────────────────────────

/// The number of bytes of `c` in UTF-8.
pub open spec fn utf8_len(c: char) -> nat {
    if c as u32 <= 0x7f {
        1
    } else if c as u32 <= 0x7ff {
        2
    } else if c as u32 <= 0xffff {
        3
    } else {
        4
    }
}

/// The number of bytes of `s` in UTF-8.
pub open spec fn byte_len(s: Seq<char>) -> nat
    decreases s.len(),
{
    if s.len() == 0 {
        0
    } else {
        byte_len(s.drop_last()) + utf8_len(s.last())
    }
}

/// The byte offset of the character at position `k`.
pub open spec fn offset_of(s: Seq<char>, k: int) -> nat {
    byte_len(s.take(k))
}

/// Whether `b` is the offset at which a character of `s` starts, or the end.
pub open spec fn is_boundary(s: Seq<char>, b: int) -> bool {
    exists|k: int| 0 <= k <= s.len() && #[trigger] offset_of(s, k) == b
}

/// The position of the character that starts at byte offset `b`.
pub open spec fn char_index(s: Seq<char>, b: int) -> int {
    choose|k: int| 0 <= k <= s.len() && #[trigger] offset_of(s, k) == b
}

pub proof fn lemma_byte_len_add(a: Seq<char>, b: Seq<char>)
    ensures
        byte_len(a + b) == byte_len(a) + byte_len(b),
    decreases b.len(),
{
    if b.len() == 0 {
        assert(a + b =~= a);
    } else {
        assert((a + b).drop_last() =~= a + b.drop_last());
        lemma_byte_len_add(a, b.drop_last());
    }
}

/// Offsets grow with the position.
pub proof fn lemma_offset_mono(s: Seq<char>, i: int, j: int)
    requires
        0 <= i <= j <= s.len(),
    ensures
        offset_of(s, i) <= offset_of(s, j),
        i < j ==> offset_of(s, i) < offset_of(s, j),
        j - i <= offset_of(s, j) - offset_of(s, i) <= 4 * (j - i),
    decreases j - i,
{
    if i < j {
        lemma_offset_mono(s, i, j - 1);
        assert(s.take(j).drop_last() =~= s.take(j - 1));
    }
}

/// The byte length is the offset of the end.
pub proof fn lemma_offset_end(s: Seq<char>)
    ensures
        offset_of(s, s.len() as int) == byte_len(s),
        offset_of(s, 0) == 0,
{
    assert(s.take(s.len() as int) =~= s);
    assert(s.take(0) =~= Seq::<char>::empty());
}

/// One character further is that character's bytes further.
pub proof fn lemma_offset_step(s: Seq<char>, k: int)
    requires
        0 <= k < s.len(),
    ensures
        offset_of(s, k + 1) == offset_of(s, k) + utf8_len(s[k]),
{
    assert(s.take(k + 1).drop_last() =~= s.take(k));
}

/// A boundary has one position.
pub proof fn lemma_char_index(s: Seq<char>, k: int)
    requires
        0 <= k <= s.len(),
    ensures
        is_boundary(s, offset_of(s, k) as int),
        char_index(s, offset_of(s, k) as int) == k,
{
    let b = offset_of(s, k) as int;
    let i = char_index(s, b);
    assert(0 <= i <= s.len() && offset_of(s, i) == b);
    if i < k {
        lemma_offset_mono(s, i, k);
    } else if k < i {
        lemma_offset_mono(s, k, i);
    }
}

proof fn lemma_scalar_len(c: char)
    ensures
        vstd::utf8::encode_scalar(c as u32).len() == utf8_len(c),
{
}

/// `byte_len` is the length of the UTF-8 encoding.
pub proof fn lemma_byte_len_is_utf8(s: Seq<char>)
    ensures
        byte_len(s) == vstd::utf8::encode_utf8(s).len(),
    decreases s.len(),
{
    if s.len() > 0 {
        lemma_byte_len_is_utf8(s.skip(1));
        assert(s.drop_first() =~= s.skip(1));
        assert(seq![s[0]] + s.skip(1) =~= s);
        lemma_byte_len_add(seq![s[0]], s.skip(1));
        assert(byte_len(seq![s[0]]) == utf8_len(s[0])) by {
            reveal_with_fuel(byte_len, 2);
            assert(seq![s[0]].drop_last() =~= Seq::<char>::empty());
        }
        lemma_scalar_len(s[0]);
    }
}

/// The number of bytes of `c` in UTF-8.
pub fn utf8_len_of(c: char) -> (r: usize)
    ensures
        r == utf8_len(c),
{
    let n: u32 = c as u32;
    if n <= 0x7f {
        1
    } else if n <= 0x7ff {
        2
    } else if n <= 0xffff {
        3
    } else {
        4
    }
}

/// The number of bytes of `s` in UTF-8.
pub fn byte_len_of(s: &str) -> (r: usize)
    ensures
        r == byte_len(s@),
{
    proof {
        lemma_byte_len_is_utf8(s@);
    }
    s.as_bytes().len()
}

/// The byte offset of the character of `cs` at position `k`.
pub fn offset_at(cs: &Vec<char>, k: usize) -> (r: usize)
    requires
        k <= cs@.len(),
        byte_len(cs@) <= usize::MAX,
    ensures
        r == offset_of(cs@, k as int),
{
    let mut i: usize = 0;
    let mut r: usize = 0;
    proof {
        lemma_offset_end(cs@);
    }
    while i < k
        invariant
            i <= k <= cs@.len(),
            r == offset_of(cs@, i as int),
            byte_len(cs@) <= usize::MAX,
        decreases k - i,
    {
        proof {
            lemma_offset_step(cs@, i as int);
            lemma_offset_mono(cs@, i + 1, cs@.len() as int);
            lemma_offset_end(cs@);
        }
        r = r + utf8_len_of(cs[i]);
        i = i + 1;
    }
    r
}

/// The position of the character of `cs` that starts at byte offset `b`.
pub fn index_at(cs: &Vec<char>, b: usize) -> (k: usize)
    requires
        is_boundary(cs@, b as int),
        byte_len(cs@) <= usize::MAX,
    ensures
        k <= cs@.len(),
        offset_of(cs@, k as int) == b,
        k == char_index(cs@, b as int),
{
    let n: usize = cs.len();
    let mut i: usize = 0;
    let mut r: usize = 0;
    let ghost w = char_index(cs@, b as int);
    proof {
        lemma_offset_end(cs@);
        assert(0 <= w <= cs@.len() && offset_of(cs@, w) == b);
    }
    while r < b
        invariant
            i <= w <= cs@.len() == n,
            r == offset_of(cs@, i as int),
            offset_of(cs@, w) == b,
            byte_len(cs@) <= usize::MAX,
        decreases b - r,
    {
        proof {
            lemma_offset_mono(cs@, i as int, w);
            lemma_offset_step(cs@, i as int);
            lemma_offset_mono(cs@, i + 1, cs@.len() as int);
            lemma_offset_end(cs@);
        }
        r = r + utf8_len_of(cs[i]);
        i = i + 1;
        proof {
            lemma_offset_mono(cs@, i as int, w);
        }
    }
    proof {
        if i < w {
            lemma_offset_mono(cs@, i as int, w);
        }
        lemma_char_index(cs@, i as int);
    }
    i
}

/// The longest whole-character prefix of `s` of at most `max` bytes.
pub open spec fn floor_index(s: Seq<char>, max: nat) -> int
    decreases s.len(),
{
    if byte_len(s) <= max || s.len() == 0 {
        s.len() as int
    } else {
        floor_index(s.drop_last(), max)
    }
}

/// The number of leading characters of `cs` that fit in `max` bytes.
pub fn floor_chars(cs: &Vec<char>, max: usize) -> (k: usize)
    requires
        byte_len(cs@) <= usize::MAX,
    ensures
        k == floor_index(cs@, max as nat),
        k <= cs@.len(),
{
    let mut k: usize = cs.len();
    assert(cs@.take(k as int) =~= cs@);
    let mut b: usize = offset_at(cs, k);
    while b > max && k > 0
        invariant
            k <= cs@.len(),
            b == byte_len(cs@.take(k as int)),
            floor_index(cs@.take(k as int), max as nat) == floor_index(cs@, max as nat),
        decreases k,
    {
        assert(cs@.take(k as int).drop_last() =~= cs@.take(k - 1));
        b = b - utf8_len_of(cs[k - 1]);
        k = k - 1;
    }
    k
}

// ── White space ─────────────────────────────────────────────────────────

/// Whether a text is made of white space.
pub open spec fn is_blank(s: Seq<char>) -> bool {
    forall|i: int| 0 <= i < s.len() ==> is_space(#[trigger] s[i])
}

/// White space in front of a text is trimmed.
pub proof fn lemma_lead_is_trimmed(lead: Seq<char>, s: Seq<char>)
    requires
        is_blank(lead),
        s.len() > 0,
        !is_space(s[0]),
    ensures
        trimmed_start(lead + s) == s,
    decreases lead.len(),
{
    if lead.len() == 0 {
        assert(lead + s =~= s);
    } else {
        assert((lead + s).skip(1) =~= lead.skip(1) + s);
        assert((lead + s)[0] == lead[0]);
        assert forall|i: int| 0 <= i < lead.skip(1).len() implies is_space(
            #[trigger] lead.skip(1)[i],
        ) by {
            assert(lead.skip(1)[i] == lead[i + 1]);
        }
        lemma_lead_is_trimmed(lead.skip(1), s);
    }
}

/// Trimming the end of a text keeps a part that ends in no white space.
pub proof fn lemma_end_keeps(w: Seq<char>, rest: Seq<char>) -> (r: Seq<char>)
    requires
        w.len() > 0,
        !is_space(w.last()),
    ensures
        trimmed_end(w + rest) == w + r,
        r.len() <= rest.len(),
        r == rest.take(r.len() as int),
    decreases rest.len(),
{
    let s = w + rest;
    if rest.len() == 0 {
        assert(s =~= w);
        assert(w + rest =~= w);
        rest
    } else if is_space(s.last()) {
        assert(s.drop_last() =~= w + rest.drop_last());
        let r = lemma_end_keeps(w, rest.drop_last());
        assert(rest.drop_last().take(r.len() as int) =~= rest.take(r.len() as int));
        r
    } else {
        assert(rest.take(rest.len() as int) =~= rest);
        rest
    }
}

/// The first white space is the one before which there is none.
pub proof fn lemma_first_space_is(s: Seq<char>, n: int)
    requires
        0 <= n <= s.len(),
        forall|i: int| 0 <= i < n ==> !is_space(#[trigger] s[i]),
        n == s.len() || is_space(s[n]),
    ensures
        first_space(s) == n,
    decreases n,
{
    if n > 0 {
        assert(!is_space(s[0]));
        assert forall|i: int| 0 <= i < n - 1 implies !is_space(#[trigger] s.skip(1)[i]) by {
            assert(s.skip(1)[i] == s[i + 1]);
        }
        lemma_first_space_is(s.skip(1), n - 1);
    }
}

proof fn lemma_end_is_trimmed(w: Seq<char>, trail: Seq<char>)
    requires
        is_blank(trail),
        w.len() > 0 ==> !is_space(w.last()),
    ensures
        trimmed_end(w + trail) == w,
    decreases trail.len(),
{
    if trail.len() == 0 {
        assert(w + trail =~= w);
    } else {
        let front = trail.drop_last();
        assert((w + trail).drop_last() =~= w + front);
        assert(is_space(trail[trail.len() - 1]));
        assert forall|i: int| 0 <= i < front.len() implies is_space(#[trigger] front[i]) by {
            assert(front[i] == trail[i]);
        }
        lemma_end_is_trimmed(w, front);
    }
}

/// Whether a text neither begins nor ends with white space.
pub open spec fn is_bare(w: Seq<char>) -> bool {
    w.len() > 0 ==> !is_space(w[0]) && !is_space(w.last())
}

/// Trimming takes away the white space at both ends, and nothing else.
pub proof fn law_trimming(lead: Seq<char>, w: Seq<char>, trail: Seq<char>)
    requires
        is_blank(lead),
        is_blank(trail),
        is_bare(w),
    ensures
        trimmed(lead + w + trail) == w,
    decreases lead.len(),
{
    if w.len() > 0 {
        assert(lead + w + trail =~= lead + (w + trail));
        assert((w + trail)[0] == w[0]);
        lemma_lead_is_trimmed(lead, w + trail);
        lemma_end_is_trimmed(w, trail);
    } else {
        let s = lead + trail;
        assert(lead + w + trail =~= s);
        assert forall|i: int| 0 <= i < s.len() implies is_space(#[trigger] s[i]) by {
            if i < lead.len() {
                assert(s[i] == lead[i]);
            } else {
                assert(s[i] == trail[i - lead.len()]);
            }
        }
        lemma_blank_is_trimmed(s);
        assert(w =~= Seq::<char>::empty());
    }
}

proof fn lemma_blank_is_trimmed(s: Seq<char>)
    requires
        is_blank(s),
    ensures
        trimmed(s) == Seq::<char>::empty(),
    decreases s.len(),
{
    if s.len() > 0 {
        assert(is_space(s[0]));
        assert forall|i: int| 0 <= i < s.skip(1).len() implies is_space(#[trigger] s.skip(1)[i]) by {
            assert(s.skip(1)[i] == s[i + 1]);
        }
        lemma_blank_is_trimmed(s.skip(1));
    } else {
        assert(s =~= Seq::<char>::empty());
    }
}

/// A text that ends in no white space has none at its end to remove.
pub proof fn lemma_end_of_bare(s: Seq<char>)
    requires
        s.len() > 0 ==> !is_space(s.last()),
    ensures
        trimmed_end(s) == s,
{
}

/// Where nothing is left of a text without the white space around it, it is
/// made of white space.
pub proof fn lemma_trimmed_is_inside(s: Seq<char>)
    requires
        !is_blank(s),
    ensures
        trimmed(s).len() > 0,
{
    lemma_start_keeps(s);
    lemma_end_of_some(trimmed_start(s));
}

proof fn lemma_start_keeps(s: Seq<char>)
    requires
        !is_blank(s),
    ensures
        !is_blank(trimmed_start(s)),
    decreases s.len(),
{
    if s.len() > 0 && is_space(s[0]) {
        let t = s.skip(1);
        let i = choose|i: int| 0 <= i < s.len() && !is_space(#[trigger] s[i]);
        assert(t[i - 1] == s[i]);
        lemma_start_keeps(t);
    }
}

proof fn lemma_end_of_some(s: Seq<char>)
    requires
        !is_blank(s),
    ensures
        trimmed_end(s).len() > 0,
    decreases s.len(),
{
    if s.len() > 0 && is_space(s.last()) {
        let t = s.drop_last();
        let i = choose|i: int| 0 <= i < s.len() && !is_space(#[trigger] s[i]);
        assert(t[i] == s[i]);
        lemma_end_of_some(t);
    }
}

} // verus!
