//! Display width: how many terminal columns a text takes, and where it is
//! cut to fit.

use vstd::prelude::*;
use crate::text;

verus! {

/// The number of terminal columns of a text.
pub uninterp spec fn display_width(s: Seq<char>) -> nat;

/// `unicode_width::UnicodeWidthStr::width`: the columns of `s`. No character
/// adds more than three columns, and every printable ASCII character takes
/// exactly one; an empty text has no columns.
#[verifier::external_body]
pub(crate) fn str_width(s: &str) -> (r: usize)
    ensures
        r == display_width(s@),
        r <= 3 * s@.len(),
        (forall|i: int| 0 <= i < s@.len() ==> ' ' <= #[trigger] s@[i] <= '~') ==> r == s@.len(),
{
    unicode_width::UnicodeWidthStr::width(s)
}

/// The width that a character has by itself, if it is no control character.
pub uninterp spec fn char_width(c: char) -> Option<usize>;

/// `unicode_width::UnicodeWidthChar::width`: the columns of `c` by itself,
/// three at most; `None` for a control character.
#[verifier::external_body]
pub(crate) fn char_width_of(c: char) -> (r: Option<usize>)
    ensures
        r == char_width(c),
        r matches Some(w) ==> w <= 3,
{
    unicode_width::UnicodeWidthChar::width(c)
}

/// The columns of a text that is the one character `c`.
pub open spec fn cols_of(c: char) -> nat {
    display_width(seq![c])
}

/// The columns of a text that is the one character `c`.
pub fn char_cols(c: char) -> (r: usize)
    ensures
        r == cols_of(c),
        r <= 3,
{
    let mut s = String::new();
    text::push_char(&mut s, c);
    assert(s@ =~= seq![c]);
    str_width(s.as_str())
}

/// The columns of the characters of `s`, each taken by itself.
pub open spec fn cols(s: Seq<char>) -> nat
    decreases s.len(),
{
    if s.len() == 0 {
        0
    } else {
        cols_of(s[0]) + cols(s.skip(1))
    }
}

/// How many leading characters of `s` take `max` columns, each counted by
/// itself.
pub open spec fn counted(s: Seq<char>, max: nat) -> nat
    decreases s.len(),
{
    if s.len() == 0 || cols_of(s[0]) > max {
        0
    } else {
        1 + counted(s.skip(1), (max - cols_of(s[0])) as nat)
    }
}

/// The characters that are counted take no more columns; with the next one
/// they would.
proof fn lemma_counted(s: Seq<char>, max: nat)
    ensures
        counted(s, max) <= s.len(),
        cols(s.take(counted(s, max) as int)) <= max,
        counted(s, max) < s.len() ==> cols(s.take(counted(s, max) as int + 1)) > max,
    decreases s.len(),
{
    if s.len() == 0 || cols_of(s[0]) > max {
        assert(s.take(0) =~= Seq::<char>::empty());
        if s.len() > 0 {
            assert(s.take(1)[0] == s[0]);
        }
    } else {
        let rest = (max - cols_of(s[0])) as nat;
        lemma_counted(s.skip(1), rest);
        let k = counted(s, max) as int;
        assert(s.take(k).skip(1) =~= s.skip(1).take(k - 1));
        assert(s.take(k)[0] == s[0]);
        if k < s.len() {
            assert(s.take(k + 1).skip(1) =~= s.skip(1).take(k));
            assert(s.take(k + 1)[0] == s[0]);
        }
    }
}

/// How many characters of `cs[from..to]` take `max` columns, each counted by
/// itself.
fn count_chars(cs: &Vec<char>, from: usize, to: usize, max: usize) -> (k: usize)
    requires
        from <= to <= cs@.len(),
    ensures
        k == counted(cs@.subrange(from as int, to as int), max as nat),
        from + k <= to,
{
    let mut i: usize = from;
    let mut left: usize = max;
    let ghost all = cs@.subrange(from as int, to as int);
    while i < to
        invariant
            from <= i <= to <= cs@.len(),
            all == cs@.subrange(from as int, to as int),
            (i - from) + counted(cs@.subrange(i as int, to as int), left as nat) == counted(
                all,
                max as nat,
            ),
        decreases to - i,
    {
        let w: usize = char_cols(cs[i]);
        let ghost rest = cs@.subrange(i as int, to as int);
        assert(rest.skip(1) =~= cs@.subrange(i + 1, to as int));
        if w > left {
            return i - from;
        }
        left = left - w;
        i = i + 1;
    }
    i - from
}

/// How many leading characters of `s`, `k` at least, fit in `max` columns
/// together with `tail` behind them: as many as can be taken one by one.
pub open spec fn fit_from(s: Seq<char>, tail: Seq<char>, k: int, max: nat) -> int
    decreases s.len() - k,
{
    if k < s.len() && display_width(s.take(k + 1) + tail) <= max {
        fit_from(s, tail, k + 1, max)
    } else {
        k
    }
}

/// How many leading characters of `s` fit in `max` columns: each counted by
/// itself, and also together, where they are wider than they count.
pub open spec fn fit_count(s: Seq<char>, max: nat) -> int {
    fit_from(s.take(counted(s, max) as int), Seq::empty(), 0, max)
}

proof fn lemma_fit_from(s: Seq<char>, tail: Seq<char>, k: int, max: nat)
    requires
        0 <= k <= s.len(),
    ensures
        k <= fit_from(s, tail, k, max) <= s.len(),
        fit_from(s, tail, k, max) > k ==> display_width(
            s.take(fit_from(s, tail, k, max)) + tail,
        ) <= max,
        fit_from(s, tail, k, max) < s.len() ==> display_width(
            s.take(fit_from(s, tail, k, max) + 1) + tail,
        ) > max,
    decreases s.len() - k,
{
    if k < s.len() && display_width(s.take(k + 1) + tail) <= max {
        lemma_fit_from(s, tail, k + 1, max);
    }
}

/// The characters that fit, fit; with the next one they would not, or not
/// each counted by itself.
pub proof fn lemma_fit_count(s: Seq<char>, max: nat)
    ensures
        0 <= fit_count(s, max) <= s.len(),
        fit_count(s, max) > 0 ==> display_width(s.take(fit_count(s, max))) <= max,
        fit_count(s, max) < s.len() ==> display_width(s.take(fit_count(s, max) + 1)) > max || cols(
            s.take(fit_count(s, max) + 1),
        ) > max,
{
    lemma_counted(s, max);
    let n = counted(s, max) as int;
    let t = s.take(n);
    let k = fit_count(s, max);
    lemma_fit_from(t, Seq::empty(), 0, max);
    assert(t.take(k) + Seq::<char>::empty() =~= s.take(k));
    if k < n {
        assert(t.take(k + 1) + Seq::<char>::empty() =~= s.take(k + 1));
    }
}

/// How many characters of `cs[from..to]` fit in `max` columns together with
/// `tail` behind them.
pub fn fit_chars(cs: &Vec<char>, from: usize, to: usize, tail: &str, max: usize) -> (k: usize)
    requires
        from <= to <= cs@.len(),
    ensures
        k == fit_from(cs@.subrange(from as int, to as int), tail@, 0, max as nat),
        from + k <= to,
{
    let mut i: usize = from;
    let mut part = String::new();
    let ghost all = cs@.subrange(from as int, to as int);
    assert(part@ =~= all.take(0));
    while i < to
        invariant
            from <= i <= to <= cs@.len(),
            all == cs@.subrange(from as int, to as int),
            part@ == all.take(i - from),
            fit_from(all, tail@, i - from, max as nat) == fit_from(all, tail@, 0, max as nat),
        decreases to - i,
    {
        text::push_char(&mut part, cs[i]);
        assert(part@ =~= all.take(i - from + 1));
        let whole = text::cat2(part.as_str(), tail);
        if str_width(whole.as_str()) > max {
            return i - from;
        }
        i = i + 1;
    }
    i - from
}

/// How many characters go on a line of `max` columns: those that fit, and
/// never less than one of a non-empty text.
pub open spec fn split_count(s: Seq<char>, max: nat) -> int {
    let k = fit_count(s, max);
    if k == 0 && s.len() > 0 {
        1
    } else {
        k
    }
}

/// How many characters of `cs[from..to]` go on a line of `max` columns.
pub fn split_chars(cs: &Vec<char>, from: usize, to: usize, max: usize) -> (k: usize)
    requires
        from <= to <= cs@.len(),
    ensures
        k == split_count(cs@.subrange(from as int, to as int), max as nat),
        from + k <= to,
        from < to ==> k > 0,
{
    let n: usize = count_chars(cs, from, to, max);
    let k: usize = fit_chars(cs, from, from + n, "", max);
    assert(cs@.subrange(from as int, to as int).take(n as int) =~= cs@.subrange(
        from as int,
        from + n,
    ));
    proof {
        reveal_strlit("");
        assert(""@ =~= Seq::<char>::empty());
    }
    if k == 0 && from < to {
        1
    } else {
        k
    }
}

/// Splits `text` in front of the first character that does not fit in
/// `max_width` columns; the first character always goes to the first part.
pub fn split_at_display_width(text: &str, max_width: usize) -> (r: (String, String))
    ensures
        r.0@ == text@.take(split_count(text@, max_width as nat)),
        r.1@ == text@.skip(split_count(text@, max_width as nat)),
{
    let cs = text::chars_of(text);
    let k: usize = split_chars(&cs, 0, cs.len(), max_width);
    assert(cs@.subrange(0, cs@.len() as int) =~= text@);
    assert(cs@.subrange(0, k as int) =~= text@.take(k as int));
    assert(cs@.subrange(k as int, cs@.len() as int) =~= text@.skip(k as int));
    (text::string_of_range(&cs, 0, k), text::string_of_range(&cs, k, cs.len()))
}

/// A split loses nothing, and its first part fits or is a single character.
pub proof fn law_split_at_display_width(s: Seq<char>, max: nat)
    ensures
        ({
            let k = split_count(s, max);
            &&& s.take(k) + s.skip(k) == s
            &&& s.len() > 0 ==> display_width(s.take(k)) <= max || s.take(k).len() == 1
            &&& s.len() > 0 ==> s.take(k).len() > 0
        }),
{
    lemma_fit_count(s, max);
    let k = split_count(s, max);
    assert(s.take(k) + s.skip(k) =~= s);
}

/// `n - 1`, or zero.
pub open spec fn less_one(n: nat) -> nat {
    if n > 0 {
        (n - 1) as nat
    } else {
        0
    }
}

/// The first `n` characters of `s`, as far as they fit in `max` columns
/// together with an ellipsis behind them, and the ellipsis. It has a column
/// in any case.
pub open spec fn cut_at(s: Seq<char>, n: nat, max: nat) -> Seq<char> {
    let room = if max > 0 {
        max
    } else {
        1
    };
    s.take(fit_from(s.take(n as int), "…"@, 0, room)) + "…"@
}

/// Cuts a text behind its first `n` characters, or before, where they do not
/// fit together with the ellipsis.
pub fn cut_text(cs: &Vec<char>, n: usize, max: usize) -> (r: String)
    requires
        n <= cs@.len(),
    ensures
        r@ == cut_at(cs@, n as nat, max as nat),
{
    let room: usize = if max > 0 {
        max
    } else {
        1
    };
    let k: usize = fit_chars(cs, 0, n, "…", room);
    assert(cs@.subrange(0, n as int) =~= cs@.take(n as int));
    assert(cs@.subrange(0, k as int) =~= cs@.take(k as int));
    text::cat2(text::string_of_range(cs, 0, k).as_str(), "…")
}

/// `s` where it fits in `max` columns; otherwise as many leading characters
/// as leave a column for the ellipsis that follows them.
pub open spec fn truncated(s: Seq<char>, max: nat) -> Seq<char> {
    if display_width(s) <= max {
        s
    } else {
        cut_at(s, counted(s, less_one(max)), max)
    }
}

/// Truncates `text` to `max_width` columns, with an ellipsis where it is cut.
pub fn truncate_to_width(text: &str, max_width: usize) -> (r: String)
    ensures
        r@ == truncated(text@, max_width as nat),
{
    if str_width(text) <= max_width {
        return text.to_owned();
    }
    let cs = text::chars_of(text);
    let limit: usize = if max_width > 0 {
        max_width - 1
    } else {
        0
    };
    let n: usize = count_chars(&cs, 0, cs.len(), limit);
    assert(cs@.subrange(0, cs@.len() as int) =~= text@);
    cut_text(&cs, n, max_width)
}

/// A text that is cut fits, unless there is no room for more than the
/// ellipsis.
pub proof fn lemma_cut_fits(s: Seq<char>, n: nat, max: nat)
    requires
        n <= s.len(),
    ensures
        max > 0 ==> display_width(cut_at(s, n, max)) <= max || cut_at(s, n, max) == "…"@,
{
    let t = s.take(n as int);
    if max > 0 {
        lemma_fit_from(t, "…"@, 0, max);
        let k = fit_from(t, "…"@, 0, max);
        assert(t.take(k) =~= s.take(k));
        if k == 0 {
            assert(s.take(0) + "…"@ =~= "…"@);
        }
    }
}

/// A truncated text fits, unless there is no room for more than the ellipsis.
pub proof fn law_truncated_fits(s: Seq<char>, max: nat)
    requires
        max > 0,
    ensures
        display_width(truncated(s, max)) <= max || truncated(s, max) == "…"@,
{
    lemma_counted(s, less_one(max));
    lemma_cut_fits(s, counted(s, less_one(max)), max);
}

/// `text` on one line, truncated to what is left of `width` columns beside
/// the indent of a preview, twenty at least.
pub open spec fn preview(output: Seq<char>, width: int) -> Seq<char> {
    truncated(
        text::replaced(output, "\n"@, " "@),
        if width - 14 > 20 {
            (width - 14) as nat
        } else {
            20
        },
    )
}

/// Truncates tool output for display on one line.
pub fn truncate_output(output: &str, width: u16) -> (r: String)
    ensures
        r@ == preview(output@, width as int),
{
    let w: usize = width as usize;
    let max: usize = if w > 34 {
        w - 14
    } else {
        20
    };
    proof {
        reveal_strlit("\n");
    }
    let one_line = text::replace(output, "\n", " ");
    truncate_to_width(one_line.as_str(), max)
}

} // verus!
