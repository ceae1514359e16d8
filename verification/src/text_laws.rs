//! What the operations on text do, stated on the pieces of a text.

use vstd::prelude::*;
use crate::text::{
    ascii_lower, byte_len, decimal, first_char, floor_index, is_space, joined, lemma_byte_len_add,
    lemma_first_char, lines_of, occurs_at, padded_left, padded_right, replaced, signed_decimal,
};

verus! {

// ── Joining and replacing ───────────────────────────────────────────────

/// Joining puts the separator between neighbours and nowhere else: one part
/// stays as it is, and two lists are joined like two parts.
pub proof fn law_joining(xs: Seq<Seq<char>>, ys: Seq<Seq<char>>, part: Seq<char>, sep: Seq<char>)
    ensures
        joined(Seq::empty(), sep).len() == 0,
        joined(seq![part], sep) == part,
        xs.len() > 0 && ys.len() > 0 ==> joined(xs + ys, sep) == joined(xs, sep) + sep + joined(
            ys,
            sep,
        ),
    decreases ys.len(),
{
    if xs.len() > 0 && ys.len() > 0 {
        let all = xs + ys;
        assert(all.last() == ys.last());
        if ys.len() == 1 {
            assert(all.drop_last() =~= xs);
            assert(joined(ys, sep) == ys[0]);
        } else {
            assert(all.drop_last() =~= xs + ys.drop_last());
            law_joining(xs, ys.drop_last(), part, sep);
            assert(joined(all, sep) =~= joined(xs, sep) + sep + joined(ys, sep));
        }
    }
}

/// Replacing goes from the left: up to the first occurrence the text stays,
/// the occurrence is exchanged, and behind it the same is done again. A text
/// without an occurrence stays as it is.
pub proof fn law_replacing(a: Seq<char>, p: Seq<char>, b: Seq<char>, r: Seq<char>)
    requires
        p.len() > 0,
    ensures
        (forall|i: int| 0 <= i < a.len() ==> !occurs_at(a + p + b, p, i)) ==> replaced(
            a + p + b,
            p,
            r,
        ) == a + r + replaced(b, p, r),
        (forall|i: int| !occurs_at(b, p, i)) ==> replaced(b, p, r) == b,
{
    if forall|i: int| 0 <= i < a.len() ==> !occurs_at(a + p + b, p, i) {
        lemma_replaced_first(a, p, b, r);
    }
    if forall|i: int| !occurs_at(b, p, i) {
        lemma_replaced_none(b, p, r);
    }
}

proof fn lemma_replaced_first(a: Seq<char>, p: Seq<char>, b: Seq<char>, r: Seq<char>)
    requires
        p.len() > 0,
        forall|i: int| 0 <= i < a.len() ==> !occurs_at(a + p + b, p, i),
    ensures
        replaced(a + p + b, p, r) == a + r + replaced(b, p, r),
    decreases a.len(),
{
    let s = a + p + b;
    if a.len() == 0 {
        assert(s.subrange(0, p.len() as int) =~= p);
        assert(s.skip(p.len() as int) =~= b);
        assert(a + r =~= r);
    } else {
        let t = a.skip(1);
        assert(!occurs_at(s, p, 0));
        assert(s.skip(1) =~= t + p + b);
        assert forall|i: int| 0 <= i < t.len() implies !occurs_at(t + p + b, p, i) by {
            assert(!occurs_at(s, p, i + 1));
            assert((t + p + b).subrange(i, i + p.len()) =~= s.subrange(i + 1, i + 1 + p.len()));
        }
        lemma_replaced_first(t, p, b, r);
        assert(seq![a[0]] + (t + r + replaced(b, p, r)) =~= a + r + replaced(b, p, r));
    }
}

proof fn lemma_replaced_none(s: Seq<char>, p: Seq<char>, r: Seq<char>)
    requires
        p.len() > 0,
        forall|i: int| !occurs_at(s, p, i),
    ensures
        replaced(s, p, r) == s,
    decreases s.len(),
{
    if s.len() >= p.len() {
        let t = s.skip(1);
        assert(!occurs_at(s, p, 0));
        assert forall|i: int| !occurs_at(t, p, i) by {
            assert(!occurs_at(s, p, i + 1));
            if 0 <= i && i + p.len() <= t.len() {
                assert(t.subrange(i, i + p.len()) =~= s.subrange(i + 1, i + 1 + p.len()));
            }
        }
        lemma_replaced_none(t, p, r);
        assert(seq![s[0]] + t =~= s);
    }
}

// ── Lines ───────────────────────────────────────────────────────────────

/// A line ends at a line feed, which is none of its characters, nor is a
/// carriage return before it; what stands behind the last line feed is a line
/// where it is not empty.
pub proof fn law_lines(l: Seq<char>, rest: Seq<char>)
    requires
        !l.contains('\n'),
    ensures
        lines_of(Seq::empty()).len() == 0,
        l.len() > 0 ==> lines_of(l) == seq![l],
        l.len() == 0 || l.last() != '\r' ==> lines_of(l + seq!['\n'] + rest) == seq![l] + lines_of(
            rest,
        ),
        lines_of(l + seq!['\r', '\n'] + rest) == seq![l] + lines_of(rest),
{
    lemma_first_char(l, '\n');
    if l.len() > 0 && first_char(l, '\n') < l.len() {
        assert(l.contains(l[first_char(l, '\n')]));
    }
    let s = l + seq!['\n'] + rest;
    assert(s =~= l + (seq!['\n'] + rest));
    lemma_first_at(s, l.len() as int, l, seq!['\n'] + rest);
    assert(s.take(l.len() as int) =~= l);
    assert(s.skip(l.len() as int + 1) =~= rest);
    let k = l.push('\r');
    let t = l + seq!['\r', '\n'] + rest;
    assert(t =~= k + (seq!['\n'] + rest));
    assert(!k.contains('\n')) by {
        assert forall|i: int| 0 <= i < k.len() implies k[i] != '\n' by {
            if i < l.len() {
                assert(l.contains(l[i]));
            }
        }
    }
    lemma_first_at(t, k.len() as int, k, seq!['\n'] + rest);
    assert(t.take(k.len() as int) =~= k);
    assert(k.drop_last() =~= l);
    assert(t.skip(k.len() as int + 1) =~= rest);
}

proof fn lemma_first_at(s: Seq<char>, n: int, a: Seq<char>, b: Seq<char>)
    requires
        s == a + b,
        n == a.len(),
        b.len() > 0,
        b[0] == '\n',
        !a.contains('\n'),
    ensures
        first_char(s, '\n') == n,
{
    lemma_first_char(s, '\n');
    let k = first_char(s, '\n');
    assert(s[n] == b[0]);
    if k < n {
        assert(s[k] == a[k]);
        assert(a.contains(a[k]));
    }
}

// ── Numbers ─────────────────────────────────────────────────────────────

/// The number that a row of digits stands for.
pub open spec fn value_of(s: Seq<char>) -> int
    decreases s.len(),
{
    if s.len() == 0 {
        0
    } else {
        value_of(s.drop_last()) * 10 + (s.last() as int - '0' as int)
    }
}

/// A number is written in digits that read back as it, the first of them no
/// zero where there are more.
pub proof fn law_decimals_read_back(n: nat)
    ensures
        value_of(decimal(n)) == n,
        decimal(n).len() > 0,
        forall|i: int| 0 <= i < decimal(n).len() ==> '0' <= #[trigger] decimal(n)[i] <= '9',
        decimal(n).len() > 1 ==> decimal(n)[0] != '0',
    decreases n,
{
    let d = decimal(n);
    if n < 10 {
        assert(d.drop_last() =~= Seq::<char>::empty());
        assert(value_of(d.drop_last()) == 0);
        assert(d.last() as int == '0' as int + n);
    } else {
        let front = decimal(n / 10);
        law_decimals_read_back(n / 10);
        assert(d.drop_last() =~= front);
        assert(d[0] == front[0]);
        assert(d.last() as int == '0' as int + n % 10);
        assert(value_of(d) == value_of(front) * 10 + n % 10);
        if front.len() == 1 && front[0] == '0' {
            assert(front.drop_last() =~= Seq::<char>::empty());
            assert(value_of(front.drop_last()) == 0);
            assert(value_of(front) == 0);
        }
        assert forall|i: int| 0 <= i < d.len() implies '0' <= #[trigger] d[i] <= '9' by {
            if i < front.len() {
                assert(d[i] == front[i]);
            }
        }
    }
}

/// Two numbers that are written alike are the same.
pub proof fn law_decimals_are_distinct(m: nat, n: nat)
    requires
        decimal(m) == decimal(n),
    ensures
        m == n,
{
    law_decimals_read_back(m);
    law_decimals_read_back(n);
}

/// A negative number has a minus sign before its digits, another none.
pub proof fn law_signs(n: int)
    ensures
        n < 0 ==> signed_decimal(n) == seq!['-'] + decimal((-n) as nat),
        n >= 0 ==> signed_decimal(n) == decimal(n as nat),
{
    reveal_strlit("-");
    assert("-"@ =~= seq!['-']);
}

// ── Padding and cutting ─────────────────────────────────────────────────

/// Padding makes a text as wide as asked, with the text at one end and the
/// filling at the other; a text that is wide enough stays as it is.
pub proof fn law_padding(s: Seq<char>, width: nat, c: char)
    ensures
        ({
            let l = padded_left(s, width, c);
            let r = padded_right(s, width, c);
            let n = if s.len() < width {
                width
            } else {
                s.len()
            };
            &&& l.len() == n && r.len() == n
            &&& l.skip(n - s.len()) == s && r.take(s.len() as int) == s
            &&& forall|i: int| 0 <= i < n - s.len() ==> #[trigger] l[i] == c
            &&& forall|i: int| s.len() <= i < n ==> #[trigger] r[i] == c
        }),
{
    let l = padded_left(s, width, c);
    assert(l.skip(l.len() - s.len()) =~= s);
    assert(padded_right(s, width, c).take(s.len() as int) =~= s);
}

/// Cutting to a number of bytes keeps the longest prefix of whole characters
/// that fits.
pub proof fn law_cutting(s: Seq<char>, max: nat)
    ensures
        ({
            let k = floor_index(s, max);
            &&& 0 <= k <= s.len()
            &&& byte_len(s.take(k)) <= max
            &&& k < s.len() ==> byte_len(s.take(k + 1)) > max
            &&& byte_len(s) <= max ==> k == s.len()
        }),
    decreases s.len(),
{
    let k = floor_index(s, max);
    if byte_len(s) <= max || s.len() == 0 {
        assert(s.take(s.len() as int) =~= s);
    } else {
        let t = s.drop_last();
        law_cutting(t, max);
        assert(s.take(k) =~= t.take(k));
        if k < t.len() {
            assert(s.take(k + 1) =~= t.take(k + 1));
        } else {
            assert(s.take(k + 1) =~= s);
        }
    }
}

/// A text is as long in bytes as its characters together: one byte for an
/// ASCII character, and two, three or four for the others, by their code.
pub proof fn law_bytes(s: Seq<char>, t: Seq<char>, c: char)
    ensures
        byte_len(Seq::empty()) == 0,
        byte_len(s + t) == byte_len(s) + byte_len(t),
        c < '\u{80}' ==> byte_len(seq![c]) == 1,
        '\u{80}' <= c < '\u{800}' ==> byte_len(seq![c]) == 2,
        '\u{800}' <= c < '\u{10000}' ==> byte_len(seq![c]) == 3,
        '\u{10000}' <= c ==> byte_len(seq![c]) == 4,
{
    lemma_byte_len_add(s, t);
    assert(seq![c].drop_last() =~= Seq::<char>::empty());
}

/// The capital letters of ASCII become small, and no other character changes.
pub proof fn law_small_letters(c: char)
    ensures
        'A' <= c <= 'Z' ==> ascii_lower(c) as int == c as int + 32,
        !('A' <= c <= 'Z') ==> ascii_lower(c) == c,
{
}

/// Where no occurrence begins in the front of a text, replacing goes on behind
/// it.
pub proof fn lemma_front_stays(u: Seq<char>, v: Seq<char>, p: Seq<char>, r: Seq<char>)
    requires
        p.len() > 0,
        forall|i: int| 0 <= i < u.len() ==> !occurs_at(u + v, p, i),
    ensures
        replaced(u + v, p, r) == u + replaced(v, p, r),
    decreases u.len(),
{
    let s = u + v;
    if u.len() == 0 {
        assert(s =~= v);
        assert(u + replaced(v, p, r) =~= replaced(v, p, r));
    } else {
        let t = u.skip(1);
        assert(!occurs_at(s, p, 0));
        assert(s.skip(1) =~= t + v);
        assert forall|i: int| 0 <= i < t.len() implies !occurs_at(t + v, p, i) by {
            assert(!occurs_at(s, p, i + 1));
            if i + p.len() <= (t + v).len() {
                assert((t + v).subrange(i, i + p.len()) =~= s.subrange(i + 1, i + 1 + p.len()));
            }
        }
        lemma_front_stays(t, v, p, r);
        if s.len() < p.len() {
            assert(replaced(v, p, r) == v);
        }
        assert(seq![u[0]] + (t + replaced(v, p, r)) =~= u + replaced(v, p, r));
    }
}

/// Where the front of a text has no first character of `p`, no occurrence of
/// `p` begins in it.
pub proof fn lemma_none_in_front(u: Seq<char>, v: Seq<char>, p: Seq<char>)
    requires
        p.len() > 0,
        !u.contains(p[0]),
    ensures
        forall|i: int| 0 <= i < u.len() ==> !occurs_at(u + v, p, i),
{
    assert forall|i: int| 0 <= i < u.len() implies !occurs_at(u + v, p, i) by {
        if occurs_at(u + v, p, i) {
            assert((u + v).subrange(i, i + p.len())[0] == (u + v)[i]);
            assert(u.contains(u[i]));
        }
    }
}

/// White space of ASCII are the blank, the tab, the line ends and the two feeds
/// between them; no letter, digit or sign is.
pub proof fn law_white_space(c: char)
    ensures
        c < '\u{80}' ==> (is_space(c) <==> c == ' ' || c == '\t' || c == '\n' || c == '\u{b}' || c
            == '\u{c}' || c == '\r'),
        c == '\u{85}' || c == '\u{a0}' || c == '\u{1680}' || c == '\u{2028}' || c == '\u{2029}' || c
            == '\u{202f}' || c == '\u{205f}' || c == '\u{3000}' ==> is_space(c),
        '\u{2000}' <= c <= '\u{200a}' ==> is_space(c),
        '\u{80}' <= c && is_space(c) ==> c == '\u{85}' || c == '\u{a0}' || c == '\u{1680}' || (
        '\u{2000}' <= c <= '\u{200a}') || c == '\u{2028}' || c == '\u{2029}' || c == '\u{202f}' || c
            == '\u{205f}' || c == '\u{3000}',
{
}

/// A front of a text that fits in a number of bytes is kept when the text is
/// cut to it.
pub proof fn lemma_fitting_front_is_kept(s: Seq<char>, k: int, max: nat)
    requires
        0 <= k <= s.len(),
        byte_len(s.take(k)) <= max,
    ensures
        k <= floor_index(s, max),
{
    law_cutting(s, max);
    let n = floor_index(s, max);
    if n < k {
        let a = s.take(n + 1);
        let b = s.subrange(n + 1, k);
        assert(s.take(k) =~= a + b);
        lemma_byte_len_add(a, b);
    }
}

} // verus!
