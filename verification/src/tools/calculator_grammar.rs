//! The language of the calculator: which texts are expressions.

use vstd::prelude::*;
use crate::tools::calculator::{
    self, calculation, expr, expr_rest, left, moved, primary, skipped, tail_error, term,
    term_rest, token_at, unary, OpView, TokenView,
};

verus! {

// ── Tokens ──────────────────────────────────────────────────────────────

/// The tokens of a text from `p` on, up to its end or to a character that
/// begins none.
pub open spec fn tokens_from(cs: Seq<char>, p: int) -> Seq<TokenView>
    decreases left(cs, p),
{
    match token_at(cs, p) {
        Some((t, end)) => if p < end && p < cs.len() {
            seq![t] + tokens_from(cs, end)
        } else {
            Seq::empty()
        },
        None => Seq::empty(),
    }
}

/// Where the tokens of a text end, with the white space behind them.
pub open spec fn tokens_end(cs: Seq<char>, p: int) -> int
    decreases left(cs, p),
{
    match token_at(cs, p) {
        Some((t, end)) => if p < end && p < cs.len() {
            tokens_end(cs, end)
        } else {
            p
        },
        None => skipped(cs, p),
    }
}

/// Where the token at `p` ends.
pub open spec fn behind(cs: Seq<char>, p: int) -> int {
    match token_at(cs, p) {
        Some((t, end)) => end,
        None => p,
    }
}

// ── The grammar ─────────────────────────────────────────────────────────

/// `'+' | '-'`.
pub open spec fn is_sign(t: TokenView) -> bool {
    t is Plus || t is Minus
}

/// `'*' | '/'`.
pub open spec fn is_factor_sign(t: TokenView) -> bool {
    t is Star || t is Slash
}

/// Whether the tokens are derived from `expr → term (('+' | '-') term)*`: a
/// term, or an expression with one more sign and term behind it.
pub open spec fn is_expr(ts: Seq<TokenView>) -> bool
    decreases ts.len(), 3int,
{
    is_term(ts) || exists|i: int|
        0 < i < ts.len() && is_sign(#[trigger] ts[i]) && is_expr(ts.take(i)) && is_term(
            ts.skip(i + 1),
        )
}

/// Whether the tokens are derived from `term → unary (('*' | '/') unary)*`.
pub open spec fn is_term(ts: Seq<TokenView>) -> bool
    decreases ts.len(), 2int,
{
    is_unary(ts) || exists|i: int|
        0 < i < ts.len() && is_factor_sign(#[trigger] ts[i]) && is_term(ts.take(i)) && is_unary(
            ts.skip(i + 1),
        )
}

/// Whether the tokens are derived from `unary → ('+' | '-') unary | primary`.
pub open spec fn is_unary(ts: Seq<TokenView>) -> bool
    decreases ts.len(), 1int,
{
    is_primary(ts) || (ts.len() > 0 && is_sign(ts[0]) && is_unary(ts.skip(1)))
}

/// Whether the tokens are derived from `primary → NUMBER | '(' expr ')'`; a
/// lone point is no number.
pub open spec fn is_primary(ts: Seq<TokenView>) -> bool
    decreases ts.len(), 0int,
{
    ||| ts.len() == 1 && (ts[0] matches TokenView::Number(s) && s != "."@)
    ||| ts.len() > 2 && ts[0] is LParen && ts.last() is RParen && is_expr(
        ts.subrange(1, ts.len() - 1),
    )
}

// ── Steps ───────────────────────────────────────────────────────────────

/// The token at `p` is the first of those from `p` on.
pub proof fn lemma_step(cs: Seq<char>, p: int)
    requires
        0 <= p <= cs.len(),
    ensures
        tokens_from(cs, p).len() > 0 <==> token_at(cs, p) is Some,
        token_at(cs, p) matches Some((t, end)) ==> p < end <= cs.len() && p < cs.len()
            && tokens_from(cs, p) == seq![t] + tokens_from(cs, end) && tokens_from(cs, p)[0] == t
            && tokens_from(cs, p).skip(1) == tokens_from(cs, end) && tokens_end(cs, p)
            == tokens_end(cs, end),
{
    calculator::lemma_token_end(cs, p);
    if token_at(cs, p) is Some {
        let end = behind(cs, p);
        assert(tokens_from(cs, p).skip(1) =~= tokens_from(cs, end));
    }
}

/// Whether the tokens from `p` on are `ts` and then those from `q` on.
spec fn reads(cs: Seq<char>, p: int, ts: Seq<TokenView>, q: int) -> bool {
    &&& 0 <= p <= q <= cs.len()
    &&& tokens_from(cs, p) == ts + tokens_from(cs, q)
    &&& tokens_end(cs, p) == tokens_end(cs, q)
}

/// What is read in two parts is read as a whole.
proof fn lemma_reads_on(
    cs: Seq<char>,
    p: int,
    a: Seq<TokenView>,
    q: int,
    b: Seq<TokenView>,
    s: int,
)
    requires
        reads(cs, p, a, q),
        reads(cs, q, b, s),
    ensures
        reads(cs, p, a + b, s),
{
    assert(a + (b + tokens_from(cs, s)) =~= (a + b) + tokens_from(cs, s));
}

// ── What is read is derived ─────────────────────────────────────────────

proof fn lemma_sum(a: Seq<TokenView>, t: TokenView, b: Seq<TokenView>)
    requires
        is_expr(a),
        a.len() > 0,
        is_sign(t),
        is_term(b),
    ensures
        is_expr(a + (seq![t] + b)),
{
    let ts = a + (seq![t] + b);
    let i = a.len() as int;
    assert(ts[i] == t);
    assert(ts.take(i) =~= a);
    assert(ts.skip(i + 1) =~= b);
}

proof fn lemma_product(a: Seq<TokenView>, t: TokenView, b: Seq<TokenView>)
    requires
        is_term(a),
        a.len() > 0,
        is_factor_sign(t),
        is_unary(b),
    ensures
        is_term(a + (seq![t] + b)),
{
    let ts = a + (seq![t] + b);
    let i = a.len() as int;
    assert(ts[i] == t);
    assert(ts.take(i) =~= a);
    assert(ts.skip(i + 1) =~= b);
}

proof fn lemma_expr_derived(cs: Seq<char>, p: int) -> (ts: Seq<TokenView>)
    requires
        0 <= p <= cs.len(),
    ensures
        expr(cs, p).end matches Ok(q) ==> reads(cs, p, ts, q) && p < q && ts.len() > 0 && is_expr(
            ts,
        ),
    decreases left(cs, p), 5int,
{
    let a = lemma_term_derived(cs, p);
    let r = term(cs, p);
    if r.end is Ok {
        lemma_expr_rest_derived(cs, r.ops, p, r.end->Ok_0, p, a)
    } else {
        a
    }
}

proof fn lemma_expr_rest_derived(
    cs: Seq<char>,
    ops: Seq<OpView>,
    p: int,
    q: int,
    start: int,
    a: Seq<TokenView>,
) -> (ts: Seq<TokenView>)
    requires
        0 <= start <= p < q <= cs.len(),
        reads(cs, start, a, q),
        a.len() > 0,
        is_expr(a),
    ensures
        expr_rest(cs, ops, p, q).end matches Ok(s) ==> reads(cs, start, ts, s) && start < s
            && ts.len() > 0 && is_expr(ts),
    decreases left(cs, p), 4int,
{
    lemma_step(cs, q);
    match token_at(cs, q) {
        Some((t, end)) => if is_sign(t) {
            let b = lemma_term_derived(cs, end);
            let r = calculator::after(ops, term(cs, end));
            if r.end is Ok {
                let s = r.end->Ok_0;
                assert(moved(q, s) == s);
                assert(reads(cs, q, seq![t], end));
                lemma_reads_on(cs, q, seq![t], end, b, s);
                lemma_reads_on(cs, start, a, q, seq![t] + b, s);
                lemma_sum(a, t, b);
                let whole = a + (seq![t] + b);
                if t is Plus {
                    lemma_expr_rest_derived(cs, r.ops.push(OpView::Plus), q, s, start, whole)
                } else {
                    lemma_expr_rest_derived(cs, r.ops.push(OpView::Minus), q, s, start, whole)
                }
            } else {
                a
            }
        } else {
            a
        },
        None => a,
    }
}

proof fn lemma_term_derived(cs: Seq<char>, p: int) -> (ts: Seq<TokenView>)
    requires
        0 <= p <= cs.len(),
    ensures
        term(cs, p).end matches Ok(q) ==> reads(cs, p, ts, q) && p < q && ts.len() > 0 && is_term(
            ts,
        ),
    decreases left(cs, p), 3int,
{
    let a = lemma_unary_derived(cs, p);
    let r = unary(cs, p);
    if r.end is Ok {
        lemma_term_rest_derived(cs, r.ops, p, r.end->Ok_0, p, a)
    } else {
        a
    }
}

proof fn lemma_term_rest_derived(
    cs: Seq<char>,
    ops: Seq<OpView>,
    p: int,
    q: int,
    start: int,
    a: Seq<TokenView>,
) -> (ts: Seq<TokenView>)
    requires
        0 <= start <= p < q <= cs.len(),
        reads(cs, start, a, q),
        a.len() > 0,
        is_term(a),
    ensures
        term_rest(cs, ops, p, q).end matches Ok(s) ==> reads(cs, start, ts, s) && start < s
            && ts.len() > 0 && is_term(ts),
    decreases left(cs, p), 2int,
{
    lemma_step(cs, q);
    match token_at(cs, q) {
        Some((t, end)) => if is_factor_sign(t) {
            let b = lemma_unary_derived(cs, end);
            let r = calculator::after(ops, unary(cs, end));
            if r.end is Ok {
                let s = r.end->Ok_0;
                assert(moved(q, s) == s);
                assert(reads(cs, q, seq![t], end));
                lemma_reads_on(cs, q, seq![t], end, b, s);
                lemma_reads_on(cs, start, a, q, seq![t] + b, s);
                lemma_product(a, t, b);
                let whole = a + (seq![t] + b);
                if t is Star {
                    lemma_term_rest_derived(cs, r.ops.push(OpView::Times), q, s, start, whole)
                } else {
                    lemma_term_rest_derived(cs, r.ops.push(OpView::Over), q, s, start, whole)
                }
            } else {
                a
            }
        } else {
            a
        },
        None => a,
    }
}

proof fn lemma_unary_derived(cs: Seq<char>, p: int) -> (ts: Seq<TokenView>)
    requires
        0 <= p <= cs.len(),
    ensures
        unary(cs, p).end matches Ok(q) ==> reads(cs, p, ts, q) && p < q && ts.len() > 0 && is_unary(
            ts,
        ),
    decreases left(cs, p), 1int,
{
    lemma_step(cs, p);
    match token_at(cs, p) {
        Some((t, end)) => if is_sign(t) {
            let b = lemma_unary_derived(cs, end);
            let ts = seq![t] + b;
            assert(ts.skip(1) =~= b);
            if unary(cs, end).end is Ok {
                assert(reads(cs, p, seq![t], end));
                lemma_reads_on(cs, p, seq![t], end, b, unary(cs, end).end->Ok_0);
            }
            ts
        } else {
            lemma_primary_derived(cs, p)
        },
        None => lemma_primary_derived(cs, p),
    }
}

proof fn lemma_primary_derived(cs: Seq<char>, p: int) -> (ts: Seq<TokenView>)
    requires
        0 <= p <= cs.len(),
    ensures
        primary(cs, p).end matches Ok(q) ==> reads(cs, p, ts, q) && p < q && ts.len() > 0
            && is_primary(ts),
    decreases left(cs, p), 0int,
{
    lemma_step(cs, p);
    match token_at(cs, p) {
        Some((TokenView::LParen, end)) => {
            let open = seq![TokenView::LParen];
            let close = seq![TokenView::RParen];
            let inner = lemma_expr_derived(cs, end);
            let ts = open + (inner + close);
            if expr(cs, end).end is Ok {
                let q = expr(cs, end).end->Ok_0;
                lemma_step(cs, q);
                if token_at(cs, q) matches Some((TokenView::RParen, _)) {
                    let s = behind(cs, q);
                    assert(reads(cs, q, close, s));
                    assert(reads(cs, p, open, end));
                    lemma_reads_on(cs, end, inner, q, close, s);
                    lemma_reads_on(cs, p, open, end, inner + close, s);
                    assert(ts.subrange(1, ts.len() - 1) =~= inner);
                    assert(ts.last() == TokenView::RParen);
                }
            }
            ts
        },
        Some((t, end)) => {
            assert(reads(cs, p, seq![t], end));
            seq![t]
        },
        None => Seq::empty(),
    }
}

// ── What is derived is read ─────────────────────────────────────────────

/// Where a derived part of the text ends, and what the parser has done there.
pub struct Stand {
    pub p: int,
    pub q: int,
    pub ops: Seq<OpView>,
}

proof fn lemma_expr_read(cs: Seq<char>, p: int, ts: Seq<TokenView>, rest: Seq<TokenView>) -> (s:
    Stand)
    requires
        0 <= p <= cs.len(),
        tokens_from(cs, p) == ts + rest,
        is_expr(ts),
        rest.len() > 0 ==> !is_factor_sign(rest[0]),
    ensures
        expr(cs, p) == expr_rest(cs, s.ops, s.p, s.q),
        p <= s.p < s.q <= cs.len(),
        tokens_from(cs, s.q) == rest,
        tokens_end(cs, s.q) == tokens_end(cs, p),
    decreases ts.len(), 3int,
{
    if is_term(ts) {
        let t = lemma_term_read(cs, p, ts, rest);
        lemma_step(cs, t.q);
        Stand { p, q: t.q, ops: t.ops }
    } else {
        let i = choose|i: int|
            0 < i < ts.len() && is_sign(#[trigger] ts[i]) && is_expr(ts.take(i)) && is_term(
                ts.skip(i + 1),
            );
        let more = seq![ts[i]] + (ts.skip(i + 1) + rest);
        assert(ts.take(i) + more =~= ts + rest);
        let a = lemma_expr_read(cs, p, ts.take(i), more);
        lemma_step(cs, a.q);
        let end = behind(cs, a.q);
        assert(more.skip(1) =~= ts.skip(i + 1) + rest);
        let b = lemma_term_read(cs, end, ts.skip(i + 1), rest);
        lemma_step(cs, b.q);
        let op = if ts[i] is Plus {
            OpView::Plus
        } else {
            OpView::Minus
        };
        assert(moved(a.q, b.q) == b.q);
        Stand { p: a.q, q: b.q, ops: (a.ops + term(cs, end).ops).push(op) }
    }
}

proof fn lemma_term_read(cs: Seq<char>, p: int, ts: Seq<TokenView>, rest: Seq<TokenView>) -> (s:
    Stand)
    requires
        0 <= p <= cs.len(),
        tokens_from(cs, p) == ts + rest,
        is_term(ts),
    ensures
        term(cs, p) == term_rest(cs, s.ops, s.p, s.q),
        p <= s.p < s.q <= cs.len(),
        tokens_from(cs, s.q) == rest,
        tokens_end(cs, s.q) == tokens_end(cs, p),
    decreases ts.len(), 2int,
{
    if is_unary(ts) {
        let q = lemma_unary_read(cs, p, ts, rest);
        Stand { p, q, ops: unary(cs, p).ops }
    } else {
        let i = choose|i: int|
            0 < i < ts.len() && is_factor_sign(#[trigger] ts[i]) && is_term(ts.take(i))
                && is_unary(ts.skip(i + 1));
        let more = seq![ts[i]] + (ts.skip(i + 1) + rest);
        assert(ts.take(i) + more =~= ts + rest);
        let a = lemma_term_read(cs, p, ts.take(i), more);
        lemma_step(cs, a.q);
        let end = behind(cs, a.q);
        assert(more.skip(1) =~= ts.skip(i + 1) + rest);
        let q = lemma_unary_read(cs, end, ts.skip(i + 1), rest);
        let op = if ts[i] is Star {
            OpView::Times
        } else {
            OpView::Over
        };
        assert(moved(a.q, q) == q);
        Stand { p: a.q, q, ops: (a.ops + unary(cs, end).ops).push(op) }
    }
}

proof fn lemma_unary_read(cs: Seq<char>, p: int, ts: Seq<TokenView>, rest: Seq<TokenView>) -> (q:
    int)
    requires
        0 <= p <= cs.len(),
        tokens_from(cs, p) == ts + rest,
        is_unary(ts),
    ensures
        unary(cs, p).end == Ok::<int, calculator::ParseErrorView>(q),
        p < q <= cs.len(),
        tokens_from(cs, q) == rest,
        tokens_end(cs, q) == tokens_end(cs, p),
    decreases ts.len(), 1int,
{
    lemma_step(cs, p);
    if is_primary(ts) {
        lemma_primary_read(cs, p, ts, rest)
    } else {
        assert((ts + rest)[0] == ts[0]);
        let end = behind(cs, p);
        assert((ts + rest).skip(1) =~= ts.skip(1) + rest);
        lemma_unary_read(cs, end, ts.skip(1), rest)
    }
}

proof fn lemma_primary_read(cs: Seq<char>, p: int, ts: Seq<TokenView>, rest: Seq<TokenView>) -> (q:
    int)
    requires
        0 <= p <= cs.len(),
        tokens_from(cs, p) == ts + rest,
        is_primary(ts),
    ensures
        primary(cs, p).end == Ok::<int, calculator::ParseErrorView>(q),
        p < q <= cs.len(),
        tokens_from(cs, q) == rest,
        tokens_end(cs, q) == tokens_end(cs, p),
    decreases ts.len(), 0int,
{
    lemma_step(cs, p);
    assert((ts + rest)[0] == ts[0]);
    let end = behind(cs, p);
    if ts.len() == 1 {
        assert((ts + rest).skip(1) =~= rest);
        end
    } else {
        let inner = ts.subrange(1, ts.len() - 1);
        let more = seq![ts.last()] + rest;
        assert((ts + rest).skip(1) =~= inner + more);
        let s = lemma_expr_read(cs, end, inner, more);
        lemma_step(cs, s.q);
        assert(more.skip(1) =~= rest);
        behind(cs, s.q)
    }
}

// ── Laws ────────────────────────────────────────────────────────────────

/// Nothing is wrong with an expression exactly where its text is made of
/// tokens and white space, and the tokens are derived from the grammar.
pub proof fn law_accepts_the_grammar(cs: Seq<char>)
    ensures
        calculation(cs).1 is None <==> tokens_end(cs, 0) >= cs.len() && is_expr(
            tokens_from(cs, 0),
        ),
{
    let all = tokens_from(cs, 0);
    if calculation(cs).1 is None {
        let ts = lemma_expr_derived(cs, 0);
        let q = expr(cs, 0).end->Ok_0;
        lemma_step(cs, q);
        assert(ts + tokens_from(cs, q) =~= ts);
    }
    if tokens_end(cs, 0) >= cs.len() && is_expr(all) {
        assert(all + Seq::<TokenView>::empty() =~= all);
        let s = lemma_expr_read(cs, 0, all, Seq::empty());
        lemma_step(cs, s.q);
        assert(tail_error(cs, s.q) is None);
    }
}

} // verus!
