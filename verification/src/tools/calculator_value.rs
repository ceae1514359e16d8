//! What an expression is worth: the operations of the calculator give the
//! value of the expression's tree, whatever the numbers are.

use vstd::prelude::*;
use crate::text;
use crate::tools::calculator::{
    self, calculation, expr, expr_rest, moved, number_end, primary, skipped, tail_error, term,
    term_rest, token_at, unary, OpView, TokenView,
};
use crate::tools::calculator_grammar::{behind, lemma_step, tokens_end, tokens_from, Stand};

verus! {

// ── Trees ───────────────────────────────────────────────────────────────

/// How an expression is built.
pub enum Tree {
    Number(Seq<char>),
    Group(Box<Tree>),
    Kept(Box<Tree>),
    Negated(Box<Tree>),
    Product(Box<Tree>, Box<Tree>),
    Quotient(Box<Tree>, Box<Tree>),
    Sum(Box<Tree>, Box<Tree>),
    Difference(Box<Tree>, Box<Tree>),
}

/// `primary → NUMBER | '(' expr ')'`. A number has digits and at most one
/// point among them, and is no lone point.
pub open spec fn is_primary(t: Tree) -> bool
    decreases t, 0int,
{
    match t {
        Tree::Number(s) => is_numeral(s),
        Tree::Group(e) => is_expr(*e),
        _ => false,
    }
}

/// `unary → ('+' | '-') unary | primary`.
pub open spec fn is_unary(t: Tree) -> bool
    decreases t, 1int,
{
    match t {
        Tree::Kept(e) => is_unary(*e),
        Tree::Negated(e) => is_unary(*e),
        _ => is_primary(t),
    }
}

/// `term → unary (('*' | '/') unary)*`, from left to right.
pub open spec fn is_term(t: Tree) -> bool
    decreases t, 2int,
{
    match t {
        Tree::Product(l, r) => is_term(*l) && is_unary(*r),
        Tree::Quotient(l, r) => is_term(*l) && is_unary(*r),
        _ => is_unary(t),
    }
}

/// `expr → term (('+' | '-') term)*`, from left to right.
pub open spec fn is_expr(t: Tree) -> bool
    decreases t, 3int,
{
    match t {
        Tree::Sum(l, r) => is_expr(*l) && is_term(*r),
        Tree::Difference(l, r) => is_expr(*l) && is_term(*r),
        _ => is_term(t),
    }
}

/// Whether a text is a number: digits with at most one point, and at least
/// one digit.
pub open spec fn is_numeral(s: Seq<char>) -> bool {
    &&& s.len() > 0
    &&& s != seq!['.']
    &&& forall|i: int| 0 <= i < s.len() ==> '0' <= #[trigger] s[i] <= '9' || s[i] == '.'
    &&& forall|i: int, j: int|
        0 <= i < j < s.len() ==> !(#[trigger] s[i] == '.' && #[trigger] s[j] == '.')
}

/// The tokens of a tree, from left to right.
pub open spec fn tokens(t: Tree) -> Seq<TokenView>
    decreases t,
{
    match t {
        Tree::Number(s) => seq![TokenView::Number(s)],
        Tree::Group(e) => seq![TokenView::LParen] + tokens(*e) + seq![TokenView::RParen],
        Tree::Kept(e) => seq![TokenView::Plus] + tokens(*e),
        Tree::Negated(e) => seq![TokenView::Minus] + tokens(*e),
        Tree::Product(l, r) => tokens(*l) + seq![TokenView::Star] + tokens(*r),
        Tree::Quotient(l, r) => tokens(*l) + seq![TokenView::Slash] + tokens(*r),
        Tree::Sum(l, r) => tokens(*l) + seq![TokenView::Plus] + tokens(*r),
        Tree::Difference(l, r) => tokens(*l) + seq![TokenView::Minus] + tokens(*r),
    }
}

/// A tree as a text, with `gap` behind every token.
pub open spec fn written(t: Tree, gap: Seq<char>) -> Seq<char>
    decreases t,
{
    match t {
        Tree::Number(s) => s + gap,
        Tree::Group(e) => seq!['('] + gap + written(*e, gap) + seq![')'] + gap,
        Tree::Kept(e) => seq!['+'] + gap + written(*e, gap),
        Tree::Negated(e) => seq!['-'] + gap + written(*e, gap),
        Tree::Product(l, r) => written(*l, gap) + seq!['*'] + gap + written(*r, gap),
        Tree::Quotient(l, r) => written(*l, gap) + seq!['/'] + gap + written(*r, gap),
        Tree::Sum(l, r) => written(*l, gap) + seq!['+'] + gap + written(*r, gap),
        Tree::Difference(l, r) => written(*l, gap) + seq!['-'] + gap + written(*r, gap),
    }
}

// ── Values ──────────────────────────────────────────────────────────────

/// Numbers of some kind, and how to calculate with them.
#[verifier::reject_recursive_types(V)]
pub struct Arithmetic<V> {
    pub number: spec_fn(Seq<char>) -> V,
    pub negated: spec_fn(V) -> V,
    pub product: spec_fn(V, V) -> V,
    pub quotient: spec_fn(V, V) -> V,
    pub sum: spec_fn(V, V) -> V,
    pub difference: spec_fn(V, V) -> V,
}

/// The value of a tree.
pub open spec fn value<V>(t: Tree, n: Arithmetic<V>) -> V
    decreases t,
{
    match t {
        Tree::Number(s) => (n.number)(s),
        Tree::Group(e) => value(*e, n),
        Tree::Kept(e) => value(*e, n),
        Tree::Negated(e) => (n.negated)(value(*e, n)),
        Tree::Product(l, r) => (n.product)(value(*l, n), value(*r, n)),
        Tree::Quotient(l, r) => (n.quotient)(value(*l, n), value(*r, n)),
        Tree::Sum(l, r) => (n.sum)(value(*l, n), value(*r, n)),
        Tree::Difference(l, r) => (n.difference)(value(*l, n), value(*r, n)),
    }
}

/// The stack once the two numbers on top are replaced by one.
pub open spec fn folded<V>(s: Seq<V>, f: spec_fn(V, V) -> V) -> Option<Seq<V>> {
    if s.len() < 2 {
        None
    } else {
        Some(s.take(s.len() - 2).push(f(s[s.len() - 2], s[s.len() - 1])))
    }
}

/// The stack after an operation; `None` where it lacks numbers.
pub open spec fn stepped<V>(op: OpView, s: Seq<V>, n: Arithmetic<V>) -> Option<Seq<V>> {
    match op {
        OpView::Push { number, .. } => Some(s.push((n.number)(number))),
        OpView::Neg => if s.len() < 1 {
            None
        } else {
            Some(s.drop_last().push((n.negated)(s.last())))
        },
        OpView::Plus => folded(s, n.sum),
        OpView::Minus => folded(s, n.difference),
        OpView::Times => folded(s, n.product),
        OpView::Over => folded(s, n.quotient),
    }
}

/// The stack after operations.
pub open spec fn run<V>(ops: Seq<OpView>, s: Seq<V>, n: Arithmetic<V>) -> Option<Seq<V>>
    decreases ops.len(),
{
    if ops.len() == 0 {
        Some(s)
    } else {
        match run(ops.drop_last(), s, n) {
            Some(t) => stepped(ops.last(), t, n),
            None => None,
        }
    }
}

proof fn lemma_run_on<V>(a: Seq<OpView>, b: Seq<OpView>, s: Seq<V>, n: Arithmetic<V>)
    ensures
        run(a + b, s, n) == (match run(a, s, n) {
            Some(t) => run(b, t, n),
            None => None,
        }),
    decreases b.len(),
{
    if b.len() == 0 {
        assert(a + b =~= a);
    } else {
        assert((a + b).drop_last() =~= a + b.drop_last());
        lemma_run_on(a, b.drop_last(), s, n);
    }
}

/// Whether operations put one number on the stack, and leave the rest.
pub open spec fn yields<V>(ops: Seq<OpView>, v: V, n: Arithmetic<V>) -> bool {
    forall|s: Seq<V>| #[trigger] run(ops, s, n) == Some(s.push(v))
}

proof fn lemma_yields_two<V>(
    a: Seq<OpView>,
    x: V,
    b: Seq<OpView>,
    y: V,
    op: OpView,
    f: spec_fn(V, V) -> V,
    n: Arithmetic<V>,
)
    requires
        yields(a, x, n),
        yields(b, y, n),
        forall|s: Seq<V>| #[trigger] stepped(op, s, n) == folded(s, f),
    ensures
        yields((a + b).push(op), f(x, y), n),
{
    assert forall|s: Seq<V>| #[trigger] run((a + b).push(op), s, n) == Some(s.push(f(x, y))) by {
        lemma_run_on(a, b, s, n);
        let ops = (a + b).push(op);
        assert(ops.drop_last() =~= a + b);
        assert(run(a, s, n) == Some(s.push(x)));
        let t = s.push(x).push(y);
        assert(run(b, s.push(x), n) == Some(t));
        assert(t.take(t.len() - 2) =~= s);
        assert(stepped(op, t, n) == folded(t, f));
    }
}

// ── The parser follows the tree ─────────────────────────────────────────

proof fn lemma_expr_value<V>(
    cs: Seq<char>,
    p: int,
    t: Tree,
    rest: Seq<TokenView>,
    n: Arithmetic<V>,
) -> (s: Stand)
    requires
        0 <= p <= cs.len(),
        tokens_from(cs, p) == tokens(t) + rest,
        is_expr(t),
        rest.len() > 0 ==> !(rest[0] is Star) && !(rest[0] is Slash),
    ensures
        expr(cs, p) == expr_rest(cs, s.ops, s.p, s.q),
        p <= s.p < s.q <= cs.len(),
        tokens_from(cs, s.q) == rest,
        tokens_end(cs, s.q) == tokens_end(cs, p),
        yields(s.ops, value(t, n), n),
    decreases t, 3int,
{
    match t {
        Tree::Sum(l, r) => {
            lemma_expr_pair(cs, p, t, *l, TokenView::Plus, *r, rest, OpView::Plus, n.sum, n)
        },
        Tree::Difference(l, r) => {
            lemma_expr_pair(
                cs,
                p,
                t,
                *l,
                TokenView::Minus,
                *r,
                rest,
                OpView::Minus,
                n.difference,
                n,
            )
        },
        _ => {
            let a = lemma_term_value(cs, p, t, rest, n);
            lemma_step(cs, a.q);
            Stand { p, q: a.q, ops: a.ops }
        },
    }
}

proof fn lemma_expr_pair<V>(
    cs: Seq<char>,
    p: int,
    t: Tree,
    l: Tree,
    sign: TokenView,
    r: Tree,
    rest: Seq<TokenView>,
    op: OpView,
    f: spec_fn(V, V) -> V,
    n: Arithmetic<V>,
) -> (s: Stand)
    requires
        0 <= p <= cs.len(),
        tokens_from(cs, p) == tokens(l) + seq![sign] + tokens(r) + rest,
        is_expr(l),
        is_term(r),
        decreases_to!(t => l),
        decreases_to!(t => r),
        sign is Plus && op is Plus || sign is Minus && op is Minus,
        forall|s: Seq<V>| #[trigger] stepped(op, s, n) == folded(s, f),
        rest.len() > 0 ==> !(rest[0] is Star) && !(rest[0] is Slash),
    ensures
        expr(cs, p) == expr_rest(cs, s.ops, s.p, s.q),
        p <= s.p < s.q <= cs.len(),
        tokens_from(cs, s.q) == rest,
        tokens_end(cs, s.q) == tokens_end(cs, p),
        yields(s.ops, f(value(l, n), value(r, n)), n),
    decreases t, 2int,
{
    let more = seq![sign] + (tokens(r) + rest);
    assert(tokens(l) + seq![sign] + tokens(r) + rest =~= tokens(l) + more);
    let a = lemma_expr_value(cs, p, l, more, n);
    lemma_step(cs, a.q);
    let end = behind(cs, a.q);
    assert(more.skip(1) =~= tokens(r) + rest);
    let b = lemma_term_value(cs, end, r, rest, n);
    lemma_step(cs, b.q);
    assert(moved(a.q, b.q) == b.q);
    lemma_yields_two(a.ops, value(l, n), b.ops, value(r, n), op, f, n);
    assert(term(cs, end).ops == b.ops);
    Stand { p: a.q, q: b.q, ops: (a.ops + b.ops).push(op) }
}

proof fn lemma_term_value<V>(
    cs: Seq<char>,
    p: int,
    t: Tree,
    rest: Seq<TokenView>,
    n: Arithmetic<V>,
) -> (s: Stand)
    requires
        0 <= p <= cs.len(),
        tokens_from(cs, p) == tokens(t) + rest,
        is_term(t),
    ensures
        term(cs, p) == term_rest(cs, s.ops, s.p, s.q),
        p <= s.p < s.q <= cs.len(),
        tokens_from(cs, s.q) == rest,
        tokens_end(cs, s.q) == tokens_end(cs, p),
        yields(s.ops, value(t, n), n),
    decreases t, 2int,
{
    match t {
        Tree::Product(l, r) => {
            lemma_term_pair(cs, p, t, *l, TokenView::Star, *r, rest, OpView::Times, n.product, n)
        },
        Tree::Quotient(l, r) => {
            lemma_term_pair(cs, p, t, *l, TokenView::Slash, *r, rest, OpView::Over, n.quotient, n)
        },
        _ => {
            let q = lemma_unary_value(cs, p, t, rest, n);
            Stand { p, q, ops: unary(cs, p).ops }
        },
    }
}

proof fn lemma_term_pair<V>(
    cs: Seq<char>,
    p: int,
    t: Tree,
    l: Tree,
    sign: TokenView,
    r: Tree,
    rest: Seq<TokenView>,
    op: OpView,
    f: spec_fn(V, V) -> V,
    n: Arithmetic<V>,
) -> (s: Stand)
    requires
        0 <= p <= cs.len(),
        tokens_from(cs, p) == tokens(l) + seq![sign] + tokens(r) + rest,
        is_term(l),
        is_unary(r),
        decreases_to!(t => l),
        decreases_to!(t => r),
        sign is Star && op is Times || sign is Slash && op is Over,
        forall|s: Seq<V>| #[trigger] stepped(op, s, n) == folded(s, f),
    ensures
        term(cs, p) == term_rest(cs, s.ops, s.p, s.q),
        p <= s.p < s.q <= cs.len(),
        tokens_from(cs, s.q) == rest,
        tokens_end(cs, s.q) == tokens_end(cs, p),
        yields(s.ops, f(value(l, n), value(r, n)), n),
    decreases t, 1int,
{
    let more = seq![sign] + (tokens(r) + rest);
    assert(tokens(l) + seq![sign] + tokens(r) + rest =~= tokens(l) + more);
    let a = lemma_term_value(cs, p, l, more, n);
    lemma_step(cs, a.q);
    let end = behind(cs, a.q);
    assert(more.skip(1) =~= tokens(r) + rest);
    let q = lemma_unary_value(cs, end, r, rest, n);
    assert(moved(a.q, q) == q);
    lemma_yields_two(a.ops, value(l, n), unary(cs, end).ops, value(r, n), op, f, n);
    Stand { p: a.q, q, ops: (a.ops + unary(cs, end).ops).push(op) }
}

proof fn lemma_unary_value<V>(
    cs: Seq<char>,
    p: int,
    t: Tree,
    rest: Seq<TokenView>,
    n: Arithmetic<V>,
) -> (q: int)
    requires
        0 <= p <= cs.len(),
        tokens_from(cs, p) == tokens(t) + rest,
        is_unary(t),
    ensures
        unary(cs, p).end == Ok::<int, calculator::ParseErrorView>(q),
        p < q <= cs.len(),
        tokens_from(cs, q) == rest,
        tokens_end(cs, q) == tokens_end(cs, p),
        yields(unary(cs, p).ops, value(t, n), n),
    decreases t, 1int,
{
    lemma_step(cs, p);
    let all = tokens(t) + rest;
    match t {
        Tree::Kept(e) => {
            assert(all[0] == TokenView::Plus);
            assert(all.skip(1) =~= tokens(*e) + rest);
            lemma_unary_value(cs, behind(cs, p), *e, rest, n)
        },
        Tree::Negated(e) => {
            assert(all[0] == TokenView::Minus);
            assert(all.skip(1) =~= tokens(*e) + rest);
            let end = behind(cs, p);
            let q = lemma_unary_value(cs, end, *e, rest, n);
            let ops = unary(cs, end).ops;
            let v = value(*e, n);
            assert forall|s: Seq<V>| #[trigger]
                run(ops.push(OpView::Neg), s, n) == Some(s.push((n.negated)(v))) by {
                assert(ops.push(OpView::Neg).drop_last() =~= ops);
                assert(run(ops, s, n) == Some(s.push(v)));
                assert(s.push(v).drop_last() =~= s);
            }
            q
        },
        _ => lemma_primary_value(cs, p, t, rest, n),
    }
}

proof fn lemma_primary_value<V>(
    cs: Seq<char>,
    p: int,
    t: Tree,
    rest: Seq<TokenView>,
    n: Arithmetic<V>,
) -> (q: int)
    requires
        0 <= p <= cs.len(),
        tokens_from(cs, p) == tokens(t) + rest,
        is_primary(t),
    ensures
        primary(cs, p).end == Ok::<int, calculator::ParseErrorView>(q),
        unary(cs, p) == primary(cs, p),
        p < q <= cs.len(),
        tokens_from(cs, q) == rest,
        tokens_end(cs, q) == tokens_end(cs, p),
        yields(primary(cs, p).ops, value(t, n), n),
    decreases t, 0int,
{
    lemma_step(cs, p);
    let all = tokens(t) + rest;
    let end = behind(cs, p);
    match t {
        Tree::Number(s) => {
            assert(all[0] == TokenView::Number(s));
            assert(all.skip(1) =~= rest);
            reveal_strlit(".");
            assert("."@ =~= seq!['.']);
            let op = OpView::Push { number: s, position: end };
            assert forall|st: Seq<V>| #[trigger]
                run(seq![op], st, n) == Some(st.push((n.number)(s))) by {
                assert(seq![op].drop_last() =~= Seq::<OpView>::empty());
                assert(run(Seq::<OpView>::empty(), st, n) == Some(st));
            }
            end
        },
        Tree::Group(e) => {
            let more = seq![TokenView::RParen] + rest;
            assert(all[0] == TokenView::LParen);
            assert(all.skip(1) =~= tokens(*e) + more);
            let s = lemma_expr_value(cs, end, *e, more, n);
            lemma_step(cs, s.q);
            assert(more.skip(1) =~= rest);
            behind(cs, s.q)
        },
        _ => p,
    }
}

/// A text whose tokens are those of a tree is accepted, and running its
/// operations leaves the value of the tree on the stack and nothing else:
/// the value of `a / b` is that of `a` divided by that of `b`, whatever they
/// are, and so for the other signs.
pub proof fn law_operations_give_the_value<V>(cs: Seq<char>, t: Tree, n: Arithmetic<V>)
    requires
        is_expr(t),
        tokens_from(cs, 0) == tokens(t),
        tokens_end(cs, 0) >= cs.len(),
    ensures
        calculation(cs).1 is None,
        run(calculation(cs).0, Seq::empty(), n) == Some(seq![value(t, n)]),
{
    assert(tokens(t) + Seq::<TokenView>::empty() =~= tokens(t));
    let s = lemma_expr_value(cs, 0, t, Seq::empty(), n);
    lemma_step(cs, s.q);
    assert(tail_error(cs, s.q) is None);
    assert(run(s.ops, Seq::<V>::empty(), n) == Some(Seq::<V>::empty().push(value(t, n))));
    assert(Seq::<V>::empty().push(value(t, n)) =~= seq![value(t, n)]);
}

// ── Written trees ───────────────────────────────────────────────────────

/// Whether a text is made of spaces, tabs and line ends.
pub open spec fn is_blank(s: Seq<char>) -> bool {
    forall|i: int|
        0 <= i < s.len() ==> #[trigger] s[i] == ' ' || s[i] == '\t' || s[i] == '\n' || s[i] == '\r'
}

/// Whether `w` stands in a text at `p`.
spec fn stands(cs: Seq<char>, p: int, w: Seq<char>) -> bool {
    0 <= p && p + w.len() <= cs.len() && cs.subrange(p, p + w.len()) == w
}

/// Whether a number that ends at `p` goes no further.
spec fn ends_number(cs: Seq<char>, p: int) -> bool {
    p >= cs.len() || !('0' <= cs[p] <= '9' || cs[p] == '.')
}

proof fn lemma_stands_part(cs: Seq<char>, p: int, a: Seq<char>, b: Seq<char>)
    requires
        stands(cs, p, a + b),
    ensures
        stands(cs, p, a),
        stands(cs, p + a.len(), b),
        a.len() > 0 ==> cs[p] == a[0],
        b.len() > 0 ==> cs[p + a.len()] == b[0],
{
    let w = cs.subrange(p, p + (a + b).len());
    assert(cs.subrange(p, p + a.len()) =~= w.take(a.len() as int));
    assert(w.take(a.len() as int) =~= a);
    assert(cs.subrange(p + a.len(), p + a.len() + b.len()) =~= w.skip(a.len() as int));
    assert(w.skip(a.len() as int) =~= b);
    if a.len() > 0 {
        assert(cs.subrange(p, p + a.len())[0] == cs[p]);
    }
    if b.len() > 0 {
        assert(cs.subrange(p + a.len(), p + a.len() + b.len())[0] == cs[p + a.len()]);
    }
}

proof fn lemma_gap(cs: Seq<char>, p: int, gap: Seq<char>)
    requires
        stands(cs, p, gap),
        is_blank(gap),
    ensures
        skipped(cs, p) == skipped(cs, p + gap.len()),
        tokens_from(cs, p) == tokens_from(cs, p + gap.len()),
        tokens_end(cs, p) == tokens_end(cs, p + gap.len()),
    decreases gap.len(),
{
    if gap.len() > 0 {
        let rest = gap.skip(1);
        assert(gap =~= seq![gap[0]] + rest);
        lemma_stands_part(cs, p, seq![gap[0]], rest);
        assert forall|i: int| 0 <= i < rest.len() implies #[trigger] rest[i] == ' ' || rest[i]
            == '\t' || rest[i] == '\n' || rest[i] == '\r' by {
            assert(rest[i] == gap[i + 1]);
        }
        lemma_gap(cs, p + 1, rest);
        assert(text::is_space(cs[p]));
        assert(token_at(cs, p) == token_at(cs, p + 1));
        lemma_step(cs, p);
        lemma_step(cs, p + 1);
        assert(tokens_from(cs, p) =~= tokens_from(cs, p + 1));
    }
}

proof fn lemma_numeral_end(cs: Seq<char>, p: int, end: int, dot_seen: bool)
    requires
        0 <= p <= end <= cs.len(),
        forall|i: int| p <= i < end ==> '0' <= #[trigger] cs[i] <= '9' || cs[i] == '.',
        forall|i: int, j: int|
            p <= i < j < end ==> !(#[trigger] cs[i] == '.' && #[trigger] cs[j] == '.'),
        dot_seen ==> forall|i: int| p <= i < end ==> #[trigger] cs[i] != '.',
        ends_number(cs, end),
    ensures
        number_end(cs, p, dot_seen) == end,
    decreases end - p,
{
    if p < end {
        assert('0' <= cs[p] <= '9' || cs[p] == '.');
        lemma_numeral_end(cs, p + 1, end, dot_seen || cs[p] == '.');
    }
}

/// A sign is read, and the gap behind it is skipped.
proof fn lemma_sign_read(cs: Seq<char>, p: int, c: char, gap: Seq<char>, t: TokenView)
    requires
        stands(cs, p, seq![c] + gap),
        is_blank(gap),
        c == '+' && t is Plus || c == '-' && t is Minus || c == '*' && t is Star || c == '/'
            && t is Slash || c == '(' && t is LParen || c == ')' && t is RParen,
    ensures
        tokens_from(cs, p) == seq![t] + tokens_from(cs, p + 1 + gap.len()),
        tokens_end(cs, p) == tokens_end(cs, p + 1 + gap.len()),
        ends_number(cs, p),
{
    lemma_stands_part(cs, p, seq![c], gap);
    assert(skipped(cs, p) == p);
    assert(token_at(cs, p) == Some((t, p + 1)));
    lemma_step(cs, p);
    lemma_gap(cs, p + 1, gap);
}

proof fn lemma_levels(t: Tree)
    ensures
        is_unary(t) ==> is_term(t),
        is_term(t) ==> is_expr(t),
{
    match t {
        Tree::Product(..) => assert(!is_primary(t)),
        Tree::Quotient(..) => assert(!is_primary(t)),
        Tree::Sum(..) => {
            assert(!is_primary(t));
            assert(!is_unary(t));
        },
        Tree::Difference(..) => {
            assert(!is_primary(t));
            assert(!is_unary(t));
        },
        _ => {},
    }
}

proof fn lemma_parts(t: Tree)
    requires
        is_expr(t),
    ensures
        match t {
            Tree::Number(s) => is_numeral(s),
            Tree::Group(x) => is_expr(*x),
            Tree::Kept(x) => is_expr(*x),
            Tree::Negated(x) => is_expr(*x),
            Tree::Product(l, r) => is_expr(*l) && is_expr(*r),
            Tree::Quotient(l, r) => is_expr(*l) && is_expr(*r),
            Tree::Sum(l, r) => is_expr(*l) && is_expr(*r),
            Tree::Difference(l, r) => is_expr(*l) && is_expr(*r),
        },
{
    match t {
        Tree::Number(s) => {
            assert(is_term(t));
            assert(is_unary(t));
            assert(is_primary(t));
        },
        Tree::Group(x) => {
            assert(is_term(t));
            assert(is_unary(t));
            assert(is_primary(t));
        },
        Tree::Kept(x) => {
            assert(is_term(t));
            assert(is_unary(t));
            lemma_levels(*x);
        },
        Tree::Negated(x) => {
            assert(is_term(t));
            assert(is_unary(t));
            lemma_levels(*x);
        },
        Tree::Product(l, r) => {
            assert(is_term(t));
            lemma_levels(*l);
            lemma_levels(*r);
        },
        Tree::Quotient(l, r) => {
            assert(is_term(t));
            lemma_levels(*l);
            lemma_levels(*r);
        },
        Tree::Sum(l, r) => lemma_levels(*r),
        Tree::Difference(l, r) => lemma_levels(*r),
    }
}

proof fn lemma_regroup(
    a: Seq<TokenView>,
    b: Seq<TokenView>,
    c: Seq<TokenView>,
    d: Seq<TokenView>,
)
    ensures
        a + (b + (c + d)) == a + b + c + d,
{
    assert(a + (b + (c + d)) =~= a + b + c + d);
}

proof fn lemma_written_number(cs: Seq<char>, p: int, s: Seq<char>, gap: Seq<char>)
    requires
        stands(cs, p, s + gap),
        is_blank(gap),
        is_numeral(s),
        ends_number(cs, p + s.len() + gap.len()),
    ensures
        tokens_from(cs, p) == seq![TokenView::Number(s)] + tokens_from(
            cs,
            p + s.len() + gap.len(),
        ),
        tokens_end(cs, p) == tokens_end(cs, p + s.len() + gap.len()),
{
    lemma_stands_part(cs, p, s, gap);
    let q = p + s.len();
    if gap.len() > 0 {
        assert(gap[0] == ' ' || gap[0] == '\t' || gap[0] == '\n' || gap[0] == '\r');
        assert(ends_number(cs, q));
    }
    assert forall|i: int| p <= i < q implies #[trigger] cs[i] == s[i - p] by {
        assert(cs.subrange(p, q)[i - p] == cs[i]);
    }
    assert('0' <= s[0] <= '9' || s[0] == '.');
    lemma_numeral_end(cs, p + 1, q, cs[p] == '.');
    assert(skipped(cs, p) == p);
    assert(token_at(cs, p) == Some((TokenView::Number(s), q)));
    lemma_step(cs, p);
    lemma_gap(cs, q, gap);
}

proof fn lemma_written_tokens(cs: Seq<char>, p: int, t: Tree, gap: Seq<char>)
    requires
        stands(cs, p, written(t, gap)),
        is_blank(gap),
        is_expr(t),
        ends_number(cs, p + written(t, gap).len()),
    ensures
        tokens_from(cs, p) == tokens(t) + tokens_from(cs, p + written(t, gap).len()),
        tokens_end(cs, p) == tokens_end(cs, p + written(t, gap).len()),
    decreases t, 1int,
{
    let w = written(t, gap);
    let e = p + w.len();
    lemma_parts(t);
    match t {
        Tree::Number(s) => lemma_written_number(cs, p, s, gap),
        Tree::Group(x) => {
            let inner = written(*x, gap);
            let head = seq!['('] + gap;
            let tail = seq![')'] + gap;
            assert(w =~= head + (inner + tail));
            lemma_stands_part(cs, p, head, inner + tail);
            let q = p + head.len();
            lemma_stands_part(cs, q, inner, tail);
            lemma_sign_read(cs, p, '(', gap, TokenView::LParen);
            lemma_sign_read(cs, q + inner.len(), ')', gap, TokenView::RParen);
            lemma_written_tokens(cs, q, *x, gap);
            lemma_regroup(
                seq![TokenView::LParen],
                tokens(*x),
                seq![TokenView::RParen],
                tokens_from(cs, e),
            );
        },
        Tree::Kept(x) => lemma_written_signed(cs, p, t, '+', TokenView::Plus, *x, gap),
        Tree::Negated(x) => lemma_written_signed(cs, p, t, '-', TokenView::Minus, *x, gap),
        Tree::Product(l, r) => lemma_written_pair(cs, p, t, *l, '*', TokenView::Star, *r, gap),
        Tree::Quotient(l, r) => lemma_written_pair(cs, p, t, *l, '/', TokenView::Slash, *r, gap),
        Tree::Sum(l, r) => lemma_written_pair(cs, p, t, *l, '+', TokenView::Plus, *r, gap),
        Tree::Difference(l, r) => lemma_written_pair(cs, p, t, *l, '-', TokenView::Minus, *r, gap),
    }
}

proof fn lemma_written_signed(
    cs: Seq<char>,
    p: int,
    t: Tree,
    c: char,
    k: TokenView,
    x: Tree,
    gap: Seq<char>,
)
    requires
        stands(cs, p, seq![c] + gap + written(x, gap)),
        is_blank(gap),
        is_expr(x),
        decreases_to!(t => x),
        c == '+' && k is Plus || c == '-' && k is Minus,
        ends_number(cs, p + 1 + gap.len() + written(x, gap).len()),
    ensures
        tokens_from(cs, p) == seq![k] + tokens(x) + tokens_from(
            cs,
            p + 1 + gap.len() + written(x, gap).len(),
        ),
        tokens_end(cs, p) == tokens_end(cs, p + 1 + gap.len() + written(x, gap).len()),
    decreases t, 0int,
{
    lemma_stands_part(cs, p, seq![c] + gap, written(x, gap));
    lemma_sign_read(cs, p, c, gap, k);
    lemma_written_tokens(cs, p + 1 + gap.len(), x, gap);
}

proof fn lemma_written_pair(
    cs: Seq<char>,
    p: int,
    t: Tree,
    l: Tree,
    c: char,
    k: TokenView,
    r: Tree,
    gap: Seq<char>,
)
    requires
        stands(cs, p, written(l, gap) + seq![c] + gap + written(r, gap)),
        is_blank(gap),
        is_expr(l),
        is_expr(r),
        decreases_to!(t => l),
        decreases_to!(t => r),
        c == '+' && k is Plus || c == '-' && k is Minus || c == '*' && k is Star || c == '/'
            && k is Slash,
        ends_number(cs, p + written(l, gap).len() + 1 + gap.len() + written(r, gap).len()),
    ensures
        tokens_from(cs, p) == tokens(l) + seq![k] + tokens(r) + tokens_from(
            cs,
            p + written(l, gap).len() + 1 + gap.len() + written(r, gap).len(),
        ),
        tokens_end(cs, p) == tokens_end(
            cs,
            p + written(l, gap).len() + 1 + gap.len() + written(r, gap).len(),
        ),
    decreases t, 0int,
{
    let a = written(l, gap);
    let b = written(r, gap);
    let sign = seq![c] + gap;
    assert(a + seq![c] + gap + b =~= a + (sign + b));
    lemma_stands_part(cs, p, a, sign + b);
    let q = p + a.len();
    lemma_stands_part(cs, q, sign, b);
    lemma_sign_read(cs, q, c, gap, k);
    lemma_written_tokens(cs, p, l, gap);
    lemma_written_tokens(cs, q + sign.len(), r, gap);
    let e = q + sign.len() + b.len();
    lemma_regroup(tokens(l), seq![k], tokens(r), tokens_from(cs, e));
}

/// Writing an expression down and calculating it gives its value: products
/// and quotients before sums and differences, equals from left to right,
/// signs before all of them, and parentheses first of all, with any blanks
/// between the parts.
pub proof fn law_written_trees_have_their_value<V>(
    lead: Seq<char>,
    t: Tree,
    gap: Seq<char>,
    n: Arithmetic<V>,
)
    requires
        is_expr(t),
        is_blank(lead),
        is_blank(gap),
    ensures
        calculation(lead + written(t, gap)).1 is None,
        run(calculation(lead + written(t, gap)).0, Seq::empty(), n) == Some(seq![value(t, n)]),
{
    let w = written(t, gap);
    let cs = lead + w;
    assert(cs.subrange(0, cs.len() as int) =~= lead + w);
    lemma_stands_part(cs, 0, lead, w);
    lemma_gap(cs, 0, lead);
    lemma_written_tokens(cs, lead.len() as int, t, gap);
    lemma_step(cs, cs.len() as int);
    assert(token_at(cs, cs.len() as int) is None);
    assert(tokens(t) + tokens_from(cs, cs.len() as int) =~= tokens(t));
    law_operations_give_the_value(cs, t, n);
}

/// Whether `c` is a blank, or can stand in an expression.
pub open spec fn is_known(c: char) -> bool {
    text::is_space(c) || '0' <= c <= '9' || c == '.' || c == '+' || c == '-' || c == '*' || c == '/'
        || c == '(' || c == ')'
}

/// A character that stands in no expression is reported behind a whole one,
/// with its position.
pub proof fn law_strange_characters_are_reported(
    t: Tree,
    gap: Seq<char>,
    c: char,
    rest: Seq<char>,
)
    requires
        is_expr(t),
        is_blank(gap),
        !is_known(c),
    ensures
        calculation(written(t, gap) + seq![c] + rest).1 == Some(
            calculator::ParseErrorView {
                message: "unexpected character after expression"@,
                position: Some(written(t, gap).len() as int),
            },
        ),
{
    let w = written(t, gap);
    let cs = w + seq![c] + rest;
    let e = w.len() as int;
    assert(cs.subrange(0, e) =~= w);
    assert(cs[e] == c);
    lemma_written_tokens(cs, 0, t, gap);
    assert(skipped(cs, e) == e);
    assert(token_at(cs, e) is None);
    lemma_step(cs, e);
    assert(tokens(t) + tokens_from(cs, e) =~= tokens(t) + Seq::<TokenView>::empty());
    let n = Arithmetic::<int> {
        number: |s: Seq<char>| 0int,
        negated: |a: int| 0int,
        product: |a: int, b: int| 0int,
        quotient: |a: int, b: int| 0int,
        sum: |a: int, b: int| 0int,
        difference: |a: int, b: int| 0int,
    };
    let s = lemma_expr_value(cs, 0, t, Seq::empty(), n);
    lemma_step(cs, s.q);
    assert(tokens_end(cs, s.q) == e);
}

// ── What is wrong ───────────────────────────────────────────────────────

spec fn no_numbers() -> Arithmetic<int> {
    Arithmetic::<int> {
        number: |s: Seq<char>| 0int,
        negated: |a: int| 0int,
        product: |a: int, b: int| 0int,
        quotient: |a: int, b: int| 0int,
        sum: |a: int, b: int| 0int,
        difference: |a: int, b: int| 0int,
    }
}

/// That the text ended too early, which is at no position.
pub open spec fn ended_early() -> Option<calculator::ParseErrorView> {
    Some(
        calculator::ParseErrorView { message: "unexpected end of expression"@, position: None },
    )
}

proof fn lemma_nothing_left(cs: Seq<char>, p: int)
    requires
        0 <= p <= cs.len(),
        tokens_from(cs, p).len() == 0,
    ensures
        unary(cs, p).end == Err::<int, calculator::ParseErrorView>(ended_early()->0),
        term(cs, p).end == Err::<int, calculator::ParseErrorView>(ended_early()->0),
        expr(cs, p).end == Err::<int, calculator::ParseErrorView>(ended_early()->0),
{
    lemma_step(cs, p);
    assert(token_at(cs, p) is None);
    assert(primary(cs, p).end == Err::<int, calculator::ParseErrorView>(ended_early()->0));
    assert(unary(cs, p) == primary(cs, p));
    assert(term(cs, p) == unary(cs, p));
    assert(expr(cs, p) == term(cs, p));
}

/// Blanks alone end too early.
pub proof fn law_nothing_is_no_expression(gap: Seq<char>)
    requires
        is_blank(gap),
    ensures
        calculation(gap).1 == ended_early(),
{
    assert(gap.subrange(0, gap.len() as int) =~= gap);
    lemma_gap(gap, 0, gap);
    lemma_step(gap, gap.len() as int);
    assert(token_at(gap, gap.len() as int) is None);
    lemma_nothing_left(gap, 0);
}

/// An expression with a sign behind it, and nothing behind that, ends too
/// early.
pub proof fn law_signs_need_something_behind(t: Tree, gap: Seq<char>, c: char)
    requires
        is_blank(gap),
        is_expr(t),
        c == '+' || c == '-' || (is_term(t) && (c == '*' || c == '/')),
    ensures
        calculation(written(t, gap) + seq![c] + gap).1 == ended_early(),
{
    let w = written(t, gap);
    let cs = w + seq![c] + gap;
    let e = w.len() as int;
    let k = if c == '+' {
        TokenView::Plus
    } else if c == '-' {
        TokenView::Minus
    } else if c == '*' {
        TokenView::Star
    } else {
        TokenView::Slash
    };
    let n = no_numbers();
    assert(cs.subrange(0, e) =~= w);
    assert(cs[e] == c);
    assert(cs.subrange(e, e + (seq![c] + gap).len()) =~= seq![c] + gap);
    lemma_sign_read(cs, e, c, gap, k);
    lemma_written_tokens(cs, 0, t, gap);
    let len = cs.len() as int;
    lemma_step(cs, len);
    assert(token_at(cs, len) is None);
    assert(tokens_from(cs, len) =~= Seq::<TokenView>::empty());
    assert(tokens_from(cs, e) =~= seq![k]);
    if c == '+' || c == '-' {
        let s = lemma_expr_value(cs, 0, t, seq![k], n);
        lemma_step(cs, s.q);
        let end = behind(cs, s.q);
        assert(token_at(cs, s.q) == Some((k, end)));
        assert(tokens_from(cs, end) =~= seq![k].skip(1));
        lemma_nothing_left(cs, end);
        assert(expr_rest(cs, s.ops, s.p, s.q).end == Err::<int, calculator::ParseErrorView>(
            ended_early()->0,
        ));
    } else {
        let s = lemma_term_value(cs, 0, t, seq![k], n);
        lemma_step(cs, s.q);
        let end = behind(cs, s.q);
        assert(token_at(cs, s.q) == Some((k, end)));
        assert(tokens_from(cs, end) =~= seq![k].skip(1));
        lemma_nothing_left(cs, end);
        assert(term_rest(cs, s.ops, s.p, s.q).end == Err::<int, calculator::ParseErrorView>(
            ended_early()->0,
        ));
    }
}

/// A closing parenthesis behind a whole expression is one too many.
pub proof fn law_closing_needs_opening(t: Tree, gap: Seq<char>, rest: Seq<char>)
    requires
        is_blank(gap),
        is_expr(t),
    ensures
        calculation(written(t, gap) + seq![')'] + rest).1 matches Some(e) && e.message
            == "unexpected token after expression"@,
{
    let w = written(t, gap);
    let cs = w + seq![')'] + rest;
    let e = w.len() as int;
    assert(cs.subrange(0, e) =~= w);
    assert(cs[e] == ')');
    assert(skipped(cs, e) == e);
    lemma_step(cs, e);
    lemma_written_tokens(cs, 0, t, gap);
    let s = lemma_expr_value(cs, 0, t, tokens_from(cs, e), no_numbers());
    lemma_step(cs, s.q);
    assert(token_at(cs, s.q) is Some);
    assert(expr_rest(cs, s.ops, s.p, s.q).end == Ok::<int, calculator::ParseErrorView>(s.q));
}

/// An expression behind an opening parenthesis needs a closing one.
pub proof fn law_opening_needs_closing(t: Tree, gap: Seq<char>)
    requires
        is_blank(gap),
        is_expr(t),
    ensures
        calculation(seq!['('] + gap + written(t, gap)).1 matches Some(e) && e.message
            == "expected ')'"@,
{
    let w = written(t, gap);
    let cs = seq!['('] + gap + w;
    let k = 1 + gap.len() as int;
    let len = cs.len() as int;
    assert(cs.subrange(0, k) =~= seq!['('] + gap);
    assert(cs.subrange(k, len) =~= w);
    lemma_sign_read(cs, 0, '(', gap, TokenView::LParen);
    lemma_written_tokens(cs, k, t, gap);
    lemma_step(cs, len);
    assert(token_at(cs, len) is None);
    assert(tokens_from(cs, len) =~= Seq::<TokenView>::empty());
    lemma_step(cs, 0);
    let end = behind(cs, 0);
    assert(token_at(cs, 0) == Some((TokenView::LParen, end)));
    assert(tokens_from(cs, end) =~= tokens_from(cs, k));
    assert(tokens_from(cs, end) =~= tokens(t) + Seq::<TokenView>::empty());
    let s = lemma_expr_value(cs, end, t, Seq::empty(), no_numbers());
    lemma_step(cs, s.q);
    assert(token_at(cs, s.q) is None);
    assert(expr_rest(cs, s.ops, s.p, s.q).end == Ok::<int, calculator::ParseErrorView>(s.q));
    let r = primary(cs, 0);
    assert(r.end matches Err(e) && e.message == "expected ')'"@);
    assert(unary(cs, 0) == r);
    assert(term(cs, 0) == r);
    assert(expr(cs, 0) == r);
}

} // verus!
