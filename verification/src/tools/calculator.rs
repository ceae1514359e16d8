//! A calculator: a recursive-descent parser for arithmetic expressions.
//!
//! ```text
//! expr    → term (('+' | '-') term)*
//! term    → unary (('*' | '/') unary)*
//! unary   → ('+' | '-') unary | primary
//! primary → NUMBER | '(' expr ')'
//! ```
//!
//! The parser yields the operations on a stack of numbers, in the order in
//! which they are due, and what stopped it. The numbers themselves are the
//! program's.

use vstd::prelude::*;
use crate::text;
use crate::tools::{self, reject_args, ErrorView, Param, ParamType, ToolDef, ToolError};

verus! {

/// What the model reads about the tool.
pub const DESCRIPTION: &'static str = "Evaluate a mathematical expression and return the numeric result. Supports standard arithmetic with correct operator precedence.\n\nSupported operators: + (addition), - (subtraction), * (multiplication), / (division), () (grouping), unary + and - (e.g. -5 + 3).\nSupported numbers: integers and decimals (e.g. 42, 3.14, -0.5).\nNOT supported: ^ (exponentiation, use repeated multiplication), % (modulo), sqrt/sin/cos/log (no functions), hex/binary/octal literals, variables.\n\nExample expressions:\n- `2 + 3 * 4` → 14 (multiplication before addition)\n- `(100 - 20) / 4` → 20 (parentheses first)\n- `-5 + 3.14 * 2` → 1.28 (unary minus + decimal)\n\nWhen NOT to use: complex math beyond basic arithmetic, unit conversions requiring lookup tables, statistical analysis (use shell + a script).";

// ── Tokens ──────────────────────────────────────────────────────────────

/// A lexical unit; a number is kept as it is written.
#[derive(Clone, Debug)]
pub enum Token {
    Number(String),
    Plus,
    Minus,
    Star,
    Slash,
    LParen,
    RParen,
}

/// What a token holds.
pub enum TokenView {
    Number(Seq<char>),
    Plus,
    Minus,
    Star,
    Slash,
    LParen,
    RParen,
}

impl View for Token {
    type V = TokenView;

    open spec fn view(&self) -> TokenView {
        match self {
            Token::Number(s) => TokenView::Number(s@),
            Token::Plus => TokenView::Plus,
            Token::Minus => TokenView::Minus,
            Token::Star => TokenView::Star,
            Token::Slash => TokenView::Slash,
            Token::LParen => TokenView::LParen,
            Token::RParen => TokenView::RParen,
        }
    }
}

/// Whether `c` is a decimal digit.
pub open spec fn is_digit(c: char) -> bool {
    '0' <= c <= '9'
}

/// The first position from `p` on that is no white space, or the end.
pub open spec fn skipped(cs: Seq<char>, p: int) -> int
    decreases cs.len() - p,
{
    if 0 <= p < cs.len() && text::is_space(cs[p]) {
        skipped(cs, p + 1)
    } else {
        p
    }
}

/// Where digits end from `p` on, with a point among them unless one was seen.
pub open spec fn number_end(cs: Seq<char>, p: int, dot_seen: bool) -> int
    decreases cs.len() - p,
{
    if 0 <= p < cs.len() && is_digit(cs[p]) {
        number_end(cs, p + 1, dot_seen)
    } else if 0 <= p < cs.len() && cs[p] == '.' && !dot_seen {
        number_end(cs, p + 1, true)
    } else {
        p
    }
}

/// The token of a sign.
pub open spec fn sign_token(c: char) -> Option<TokenView> {
    if c == '+' {
        Some(TokenView::Plus)
    } else if c == '-' {
        Some(TokenView::Minus)
    } else if c == '*' {
        Some(TokenView::Star)
    } else if c == '/' {
        Some(TokenView::Slash)
    } else if c == '(' {
        Some(TokenView::LParen)
    } else if c == ')' {
        Some(TokenView::RParen)
    } else {
        None
    }
}

/// The token that begins behind the white space at `p`, and where it ends;
/// `None` at the end and at a character that begins no token.
pub open spec fn token_at(cs: Seq<char>, p: int) -> Option<(TokenView, int)> {
    let q = skipped(cs, p);
    if q >= cs.len() {
        None
    } else {
        match sign_token(cs[q]) {
            Some(t) => Some((t, q + 1)),
            None => if is_digit(cs[q]) || cs[q] == '.' {
                let end = number_end(cs, q + 1, cs[q] == '.');
                Some((TokenView::Number(cs.subrange(q, end)), end))
            } else {
                None
            },
        }
    }
}

proof fn lemma_skipped(cs: Seq<char>, p: int)
    requires
        0 <= p <= cs.len(),
    ensures
        p <= skipped(cs, p) <= cs.len(),
    decreases cs.len() - p,
{
    if p < cs.len() && text::is_space(cs[p]) {
        lemma_skipped(cs, p + 1);
    }
}

proof fn lemma_number_end(cs: Seq<char>, p: int, dot_seen: bool)
    requires
        0 <= p <= cs.len(),
    ensures
        p <= number_end(cs, p, dot_seen) <= cs.len(),
    decreases cs.len() - p,
{
    if p < cs.len() && is_digit(cs[p]) {
        lemma_number_end(cs, p + 1, dot_seen);
    } else if p < cs.len() && cs[p] == '.' && !dot_seen {
        lemma_number_end(cs, p + 1, true);
    }
}

/// A token ends behind where it was looked for.
pub proof fn lemma_token_end(cs: Seq<char>, p: int)
    requires
        0 <= p <= cs.len(),
    ensures
        token_at(cs, p) matches Some((t, end)) ==> p < end <= cs.len(),
{
    lemma_skipped(cs, p);
    let q = skipped(cs, p);
    if q < cs.len() {
        lemma_number_end(cs, q + 1, cs[q] == '.');
    }
}

/// Splits a text into tokens.
pub struct Lexer {
    pub chars: Vec<char>,
    pub pos: usize,
}

impl Lexer {
    /// The position is in the text.
    pub open spec fn wf(self) -> bool {
        self.pos <= self.chars@.len()
    }

    /// A lexer at the start of a text.
    pub fn new(input: &str) -> (r: Lexer)
        ensures
            r.wf(),
            r.chars@ == input@,
            r.pos == 0,
    {
        Lexer { chars: text::chars_of(input), pos: 0 }
    }

    fn skip_whitespace(&mut self)
        requires
            old(self).wf(),
        ensures
            final(self).wf(),
            final(self).chars@ == old(self).chars@,
            final(self).pos == skipped(old(self).chars@, old(self).pos as int),
    {
        let ghost cs = self.chars@;
        let ghost start = self.pos as int;
        while self.pos < self.chars.len() && text::is_whitespace(self.chars[self.pos])
            invariant
                self.wf(),
                self.chars@ == cs,
                skipped(cs, self.pos as int) == skipped(cs, start),
            decreases cs.len() - self.pos,
        {
            self.pos = self.pos + 1;
        }
    }

    fn read_number(&mut self) -> (r: Token)
        requires
            old(self).pos < old(self).chars@.len(),
        ensures
            final(self).wf(),
            final(self).chars@ == old(self).chars@,
            ({
                let cs = old(self).chars@;
                let q = old(self).pos as int;
                let end = number_end(cs, q + 1, cs[q] == '.');
                &&& final(self).pos == end
                &&& r@ == TokenView::Number(cs.subrange(q, end))
            }),
    {
        let start: usize = self.pos;
        let n: usize = self.chars.len();
        let ghost cs = self.chars@;
        let mut dot_seen: bool = self.chars[start] == '.';
        let ghost want = number_end(cs, start + 1, cs[start as int] == '.');
        self.pos = self.pos + 1;
        loop
            invariant_except_break
                self.wf(),
                self.chars@ == cs,
                n == cs.len(),
                start < self.pos,
                number_end(cs, self.pos as int, dot_seen) == want,
            ensures
                self.wf(),
                self.chars@ == cs,
                start < self.pos,
                self.pos == want,
            decreases cs.len() - self.pos,
        {
            if self.pos >= n {
                break;
            }
            let c = self.chars[self.pos];
            if '0' <= c && c <= '9' {
                self.pos = self.pos + 1;
            } else if c == '.' && !dot_seen {
                dot_seen = true;
                self.pos = self.pos + 1;
            } else {
                break;
            }
        }
        Token::Number(text::string_of_range(&self.chars, start, self.pos))
    }

    /// Takes the next token. At the end, and at a character that begins no
    /// token, there is none, and the position is behind the white space.
    pub fn next_token(&mut self) -> (r: Option<Token>)
        requires
            old(self).wf(),
        ensures
            final(self).wf(),
            final(self).chars@ == old(self).chars@,
            match r {
                Some(t) => token_at(old(self).chars@, old(self).pos as int) == Some(
                    (t@, final(self).pos as int),
                ),
                None => token_at(old(self).chars@, old(self).pos as int) is None && final(self).pos
                    == skipped(old(self).chars@, old(self).pos as int),
            },
    {
        self.skip_whitespace();
        if self.pos >= self.chars.len() {
            return None;
        }
        let c = self.chars[self.pos];
        let sign = if c == '+' {
            Some(Token::Plus)
        } else if c == '-' {
            Some(Token::Minus)
        } else if c == '*' {
            Some(Token::Star)
        } else if c == '/' {
            Some(Token::Slash)
        } else if c == '(' {
            Some(Token::LParen)
        } else if c == ')' {
            Some(Token::RParen)
        } else {
            None
        };
        if sign.is_some() {
            self.pos = self.pos + 1;
            return sign;
        }
        if ('0' <= c && c <= '9') || c == '.' {
            Some(self.read_number())
        } else {
            None
        }
    }
}

// ── Operations ──────────────────────────────────────────────────────────

/// An operation on a stack of numbers.
#[derive(Clone, Debug)]
pub enum Op {
    /// Pushes the number that is written so. Where it is not finite, the
    /// calculation fails there, with this position.
    Push { number: String, position: usize },
    /// Negates the top.
    Neg,
    /// Replaces the two on top by their sum; the upper one is the right one.
    Plus,
    Minus,
    Times,
    /// Replaces the two on top by their quotient. Where the upper one is
    /// zero, the calculation fails there.
    Over,
}

/// What an operation holds.
pub enum OpView {
    Push { number: Seq<char>, position: int },
    Neg,
    Plus,
    Minus,
    Times,
    Over,
}

impl View for Op {
    type V = OpView;

    open spec fn view(&self) -> OpView {
        match self {
            Op::Push { number, position } => OpView::Push {
                number: number@,
                position: *position as int,
            },
            Op::Neg => OpView::Neg,
            Op::Plus => OpView::Plus,
            Op::Minus => OpView::Minus,
            Op::Times => OpView::Times,
            Op::Over => OpView::Over,
        }
    }
}

/// What each operation of a list holds.
pub open spec fn ops_view(v: Seq<Op>) -> Seq<OpView> {
    v.map_values(|o: Op| o@)
}

/// Why an expression could not be calculated.
#[derive(Clone, Debug)]
pub struct ParseError {
    pub message: String,
    pub position: Option<usize>,
}

/// What a parse error holds.
pub struct ParseErrorView {
    pub message: Seq<char>,
    pub position: Option<int>,
}

impl View for ParseError {
    type V = ParseErrorView;

    open spec fn view(&self) -> ParseErrorView {
        ParseErrorView {
            message: self.message@,
            position: match self.position {
                Some(p) => Some(p as int),
                None => None,
            },
        }
    }
}

/// An error at a position.
pub open spec fn error_at(message: Seq<char>, p: int) -> ParseErrorView {
    ParseErrorView { message, position: Some(p) }
}

fn fail_at(message: &str, p: usize) -> (r: ParseError)
    ensures
        r@ == error_at(message@, p as int),
{
    ParseError { message: message.to_owned(), position: Some(p) }
}

fn push_op(v: &mut Vec<Op>, op: Op)
    ensures
        ops_view(final(v)@) == ops_view(old(v)@).push(op@),
{
    let ghost before = ops_view(v@);
    v.push(op);
    assert(ops_view(v@) =~= before.push(op@));
}

// ── The grammar ─────────────────────────────────────────────────────────

/// What was read: the operations that are due, and where the next token is
/// looked for, or what stopped the parser.
pub struct Reading {
    pub ops: Seq<OpView>,
    pub end: Result<int, ParseErrorView>,
}

/// A reading that goes on with another one.
pub open spec fn after(ops: Seq<OpView>, r: Reading) -> Reading {
    Reading { ops: ops + r.ops, end: r.end }
}

/// A reading with one operation more, where nothing stopped it.
pub open spec fn then_op(r: Reading, op: OpView) -> Reading {
    match r.end {
        Ok(q) => Reading { ops: r.ops.push(op), end: r.end },
        Err(e) => r,
    }
}

/// What is left behind `p`.
pub open spec fn left(cs: Seq<char>, p: int) -> nat {
    if p < cs.len() {
        (cs.len() - p) as nat
    } else {
        0
    }
}

/// Where a part that began at `p` ended; a part is never empty.
pub open spec fn moved(p: int, q: int) -> int {
    if q > p {
        q
    } else {
        p + 1
    }
}

/// `expr → term (('+' | '-') term)*`.
pub open spec fn expr(cs: Seq<char>, p: int) -> Reading
    decreases left(cs, p), 5int,
{
    let r = term(cs, p);
    match r.end {
        Ok(q) => expr_rest(cs, r.ops, p, q),
        Err(e) => r,
    }
}

/// What follows the first term of an expression, which ended at `q`.
pub open spec fn expr_rest(cs: Seq<char>, ops: Seq<OpView>, p: int, q: int) -> Reading
    decreases left(cs, p), 4int,
{
    match token_at(cs, q) {
        Some((TokenView::Plus, end)) => if p < q < end && q < cs.len() {
            let r = then_op(after(ops, term(cs, end)), OpView::Plus);
            match r.end {
                Ok(s) => expr_rest(cs, r.ops, q, moved(q, s)),
                Err(e) => r,
            }
        } else {
            Reading { ops, end: Ok(q) }
        },
        Some((TokenView::Minus, end)) => if p < q < end && q < cs.len() {
            let r = then_op(after(ops, term(cs, end)), OpView::Minus);
            match r.end {
                Ok(s) => expr_rest(cs, r.ops, q, moved(q, s)),
                Err(e) => r,
            }
        } else {
            Reading { ops, end: Ok(q) }
        },
        _ => Reading { ops, end: Ok(q) },
    }
}

/// `term → unary (('*' | '/') unary)*`.
pub open spec fn term(cs: Seq<char>, p: int) -> Reading
    decreases left(cs, p), 3int,
{
    let r = unary(cs, p);
    match r.end {
        Ok(q) => term_rest(cs, r.ops, p, q),
        Err(e) => r,
    }
}

/// What follows the first factor of a term, which ended at `q`.
pub open spec fn term_rest(cs: Seq<char>, ops: Seq<OpView>, p: int, q: int) -> Reading
    decreases left(cs, p), 2int,
{
    match token_at(cs, q) {
        Some((TokenView::Star, end)) => if p < q < end && q < cs.len() {
            let r = then_op(after(ops, unary(cs, end)), OpView::Times);
            match r.end {
                Ok(s) => term_rest(cs, r.ops, q, moved(q, s)),
                Err(e) => r,
            }
        } else {
            Reading { ops, end: Ok(q) }
        },
        Some((TokenView::Slash, end)) => if p < q < end && q < cs.len() {
            let r = then_op(after(ops, unary(cs, end)), OpView::Over);
            match r.end {
                Ok(s) => term_rest(cs, r.ops, q, moved(q, s)),
                Err(e) => r,
            }
        } else {
            Reading { ops, end: Ok(q) }
        },
        _ => Reading { ops, end: Ok(q) },
    }
}

/// `unary → ('+' | '-') unary | primary`.
pub open spec fn unary(cs: Seq<char>, p: int) -> Reading
    decreases left(cs, p), 1int,
{
    match token_at(cs, p) {
        Some((TokenView::Plus, end)) => if p < end && p < cs.len() {
            unary(cs, end)
        } else {
            primary(cs, p)
        },
        Some((TokenView::Minus, end)) => if p < end && p < cs.len() {
            then_op(unary(cs, end), OpView::Neg)
        } else {
            primary(cs, p)
        },
        _ => primary(cs, p),
    }
}

/// What follows an expression in parentheses, which ended at `q`.
pub open spec fn closing(cs: Seq<char>, r: Reading) -> Reading {
    match r.end {
        Ok(q) => match token_at(cs, q) {
            Some((TokenView::RParen, end)) => Reading { ops: r.ops, end: Ok(end) },
            _ => Reading { ops: r.ops, end: Err(error_at("expected ')'"@, q)) },
        },
        Err(e) => r,
    }
}

/// `primary → NUMBER | '(' expr ')'`; a lone point is no number.
pub open spec fn primary(cs: Seq<char>, p: int) -> Reading
    decreases left(cs, p), 0int,
{
    match token_at(cs, p) {
        Some((TokenView::Number(s), end)) => if s == "."@ {
            Reading { ops: Seq::empty(), end: Err(error_at("invalid number"@, end)) }
        } else {
            Reading { ops: seq![OpView::Push { number: s, position: end }], end: Ok(end) }
        },
        Some((TokenView::LParen, end)) => if p < end && p < cs.len() {
            closing(cs, expr(cs, end))
        } else {
            Reading { ops: Seq::empty(), end: Err(error_at("unexpected token"@, p)) }
        },
        Some(_) => Reading { ops: Seq::empty(), end: Err(error_at("unexpected token"@, p)) },
        None => Reading {
            ops: Seq::empty(),
            end: Err(
                ParseErrorView { message: "unexpected end of expression"@, position: None },
            ),
        },
    }
}

/// What stops the parser behind a whole expression, or nothing.
pub open spec fn tail_error(cs: Seq<char>, q: int) -> Option<ParseErrorView> {
    if token_at(cs, q) is Some {
        Some(error_at("unexpected token after expression"@, q))
    } else if skipped(cs, q) < cs.len() {
        Some(error_at("unexpected character after expression"@, skipped(cs, q)))
    } else {
        None
    }
}

/// What an expression asks to be calculated, and what is wrong with it. What
/// is wrong shows only once the operations before it went well.
pub open spec fn calculation(cs: Seq<char>) -> (Seq<OpView>, Option<ParseErrorView>) {
    let r = expr(cs, 0);
    match r.end {
        Ok(q) => (r.ops, tail_error(cs, q)),
        Err(e) => (r.ops, Some(e)),
    }
}

// ── The grammar never goes back ─────────────────────────────────────────

proof fn lemma_expr_end(cs: Seq<char>, p: int)
    requires
        0 <= p <= cs.len(),
    ensures
        expr(cs, p).end matches Ok(q) ==> p < q <= cs.len(),
    decreases left(cs, p), 5int,
{
    lemma_term_end(cs, p);
    let r = term(cs, p);
    if r.end is Ok {
        lemma_expr_rest_end(cs, r.ops, p, r.end->Ok_0);
    }
}

proof fn lemma_expr_rest_end(cs: Seq<char>, ops: Seq<OpView>, p: int, q: int)
    requires
        0 <= p < q <= cs.len(),
    ensures
        expr_rest(cs, ops, p, q).end matches Ok(s) ==> q <= s <= cs.len(),
    decreases left(cs, p), 4int,
{
    lemma_token_end(cs, q);
    match token_at(cs, q) {
        Some((t, end)) => {
            lemma_term_end(cs, end);
            let r = after(ops, term(cs, end));
            if r.end is Ok {
                let s = r.end->Ok_0;
                assert(moved(q, s) == s);
                lemma_expr_rest_end(cs, r.ops.push(OpView::Plus), q, s);
                lemma_expr_rest_end(cs, r.ops.push(OpView::Minus), q, s);
            }
        },
        None => {},
    }
}

proof fn lemma_term_end(cs: Seq<char>, p: int)
    requires
        0 <= p <= cs.len(),
    ensures
        term(cs, p).end matches Ok(q) ==> p < q <= cs.len(),
    decreases left(cs, p), 3int,
{
    lemma_unary_end(cs, p);
    let r = unary(cs, p);
    if r.end is Ok {
        lemma_term_rest_end(cs, r.ops, p, r.end->Ok_0);
    }
}

proof fn lemma_term_rest_end(cs: Seq<char>, ops: Seq<OpView>, p: int, q: int)
    requires
        0 <= p < q <= cs.len(),
    ensures
        term_rest(cs, ops, p, q).end matches Ok(s) ==> q <= s <= cs.len(),
    decreases left(cs, p), 2int,
{
    lemma_token_end(cs, q);
    match token_at(cs, q) {
        Some((t, end)) => {
            lemma_unary_end(cs, end);
            let r = after(ops, unary(cs, end));
            if r.end is Ok {
                let s = r.end->Ok_0;
                assert(moved(q, s) == s);
                lemma_term_rest_end(cs, r.ops.push(OpView::Times), q, s);
                lemma_term_rest_end(cs, r.ops.push(OpView::Over), q, s);
            }
        },
        None => {},
    }
}

proof fn lemma_unary_end(cs: Seq<char>, p: int)
    requires
        0 <= p <= cs.len(),
    ensures
        unary(cs, p).end matches Ok(q) ==> p < q <= cs.len(),
    decreases left(cs, p), 1int,
{
    lemma_token_end(cs, p);
    lemma_primary_end(cs, p);
    match token_at(cs, p) {
        Some((TokenView::Plus, end)) => lemma_unary_end(cs, end),
        Some((TokenView::Minus, end)) => lemma_unary_end(cs, end),
        _ => {},
    }
}

proof fn lemma_primary_end(cs: Seq<char>, p: int)
    requires
        0 <= p <= cs.len(),
    ensures
        primary(cs, p).end matches Ok(q) ==> p < q <= cs.len(),
    decreases left(cs, p), 0int,
{
    lemma_token_end(cs, p);
    match token_at(cs, p) {
        Some((TokenView::LParen, end)) => {
            lemma_expr_end(cs, end);
            let r = expr(cs, end);
            if r.end is Ok {
                lemma_token_end(cs, r.end->Ok_0);
            }
        },
        _ => {},
    }
}

// ── The parser ──────────────────────────────────────────────────────────

/// A recursive-descent parser with one token of lookahead.
pub struct Parser {
    pub lexer: Lexer,
    pub lookahead: Option<Token>,
    /// Where the lookahead was looked for.
    pub token_pos: usize,
    /// The operations that are due so far.
    pub ops: Vec<Op>,
}

/// What an expression asks to be calculated.
#[derive(Clone, Debug)]
pub struct Calculation {
    /// The operations, in order.
    pub ops: Vec<Op>,
    /// What is wrong with the expression behind them.
    pub error: Option<ParseError>,
}

/// What a calculation holds.
pub open spec fn calculation_view(c: Calculation) -> (Seq<OpView>, Option<ParseErrorView>) {
    (
        ops_view(c.ops@),
        match c.error {
            Some(e) => Some(e@),
            None => None,
        },
    )
}

impl Parser {
    /// The text.
    pub open spec fn chars(self) -> Seq<char> {
        self.lexer.chars@
    }

    /// The lookahead is the token at its position.
    pub open spec fn wf(self) -> bool {
        &&& self.lexer.wf()
        &&& self.token_pos <= self.chars().len()
        &&& match self.lookahead {
            Some(t) => token_at(self.chars(), self.token_pos as int) == Some(
                (t@, self.lexer.pos as int),
            ),
            None => token_at(self.chars(), self.token_pos as int) is None && self.lexer.pos
                == skipped(self.chars(), self.token_pos as int),
        }
    }

    /// Whether a part was read as the grammar has it.
    pub open spec fn has_read(
        before: Parser,
        now: Parser,
        r: Result<(), ParseError>,
        want: Reading,
    ) -> bool {
        &&& now.chars() == before.chars()
        &&& ops_view(now.ops@) == ops_view(before.ops@) + want.ops
        &&& match r {
            Ok(_) => want.end == Ok::<int, ParseErrorView>(now.token_pos as int) && now.wf(),
            Err(e) => want.end == Err::<int, ParseErrorView>(e@),
        }
    }

    fn new(input: &str) -> (r: Parser)
        ensures
            r.wf(),
            r.chars() == input@,
            r.token_pos == 0,
            ops_view(r.ops@) == Seq::<OpView>::empty(),
    {
        let mut lexer = Lexer::new(input);
        let lookahead = lexer.next_token();
        let ops: Vec<Op> = Vec::new();
        assert(ops_view(ops@) =~= Seq::<OpView>::empty());
        Parser { lexer, lookahead, token_pos: 0, ops }
    }

    fn advance(&mut self)
        requires
            old(self).wf(),
            old(self).lookahead is Some,
        ensures
            final(self).wf(),
            final(self).chars() == old(self).chars(),
            final(self).token_pos == old(self).lexer.pos,
            final(self).ops@ == old(self).ops@,
    {
        self.token_pos = self.lexer.pos;
        self.lookahead = self.lexer.next_token();
    }

    fn emit(&mut self, op: Op)
        requires
            old(self).wf(),
        ensures
            final(self).wf(),
            final(self).chars() == old(self).chars(),
            final(self).token_pos == old(self).token_pos,
            ops_view(final(self).ops@) == ops_view(old(self).ops@).push(op@),
    {
        push_op(&mut self.ops, op);
    }

    // expr → term (('+' | '-') term)*
    fn parse_expr(&mut self) -> (r: Result<(), ParseError>)
        requires
            old(self).wf(),
        ensures
            Parser::has_read(
                *old(self),
                *final(self),
                r,
                expr(old(self).chars(), old(self).token_pos as int),
            ),
        decreases left(old(self).chars(), old(self).token_pos as int), 5int,
    {
        let ghost cs = self.chars();
        let ghost start = self.token_pos as int;
        let ghost base = ops_view(self.ops@);
        proof {
            lemma_term_end(cs, start);
        }
        let first = self.parse_term();
        if first.is_err() {
            return first;
        }
        let ghost mut p = start;
        let ghost mut done = term(cs, start).ops;
        loop
            invariant_except_break
                self.wf(),
                self.chars() == cs,
                cs == old(self).chars(),
                start == old(self).token_pos,
                base == ops_view(old(self).ops@),
                0 <= start <= p < self.token_pos,
                ops_view(self.ops@) == base + done,
                expr(cs, start) == expr_rest(cs, done, p, self.token_pos as int),
            ensures
                self.wf(),
                self.chars() == cs,
                ops_view(self.ops@) == base + expr(cs, start).ops,
                expr(cs, start).end == Ok::<int, ParseErrorView>(self.token_pos as int),
            decreases cs.len() - self.token_pos,
        {
            let ghost q = self.token_pos as int;
            proof {
                lemma_token_end(cs, q);
            }
            let minus = match &self.lookahead {
                Some(Token::Plus) => false,
                Some(Token::Minus) => true,
                _ => {
                    break;
                },
            };
            self.advance();
            let ghost end = self.token_pos as int;
            proof {
                lemma_term_end(cs, end);
            }
            let r = self.parse_term();
            let ghost part = term(cs, end).ops;
            assert(ops_view(self.ops@) =~= base + (done + part));
            if r.is_err() {
                return r;
            }
            let op = if minus {
                Op::Minus
            } else {
                Op::Plus
            };
            self.emit(op);
            proof {
                done = (done + part).push(op@);
                p = q;
            }
            assert(ops_view(self.ops@) =~= base + done);
        }
        Ok(())
    }

    // term → unary (('*' | '/') unary)*
    fn parse_term(&mut self) -> (r: Result<(), ParseError>)
        requires
            old(self).wf(),
        ensures
            Parser::has_read(
                *old(self),
                *final(self),
                r,
                term(old(self).chars(), old(self).token_pos as int),
            ),
        decreases left(old(self).chars(), old(self).token_pos as int), 3int,
    {
        let ghost cs = self.chars();
        let ghost start = self.token_pos as int;
        let ghost base = ops_view(self.ops@);
        proof {
            lemma_unary_end(cs, start);
        }
        let first = self.parse_unary();
        if first.is_err() {
            return first;
        }
        let ghost mut p = start;
        let ghost mut done = unary(cs, start).ops;
        loop
            invariant_except_break
                self.wf(),
                self.chars() == cs,
                cs == old(self).chars(),
                start == old(self).token_pos,
                base == ops_view(old(self).ops@),
                0 <= start <= p < self.token_pos,
                ops_view(self.ops@) == base + done,
                term(cs, start) == term_rest(cs, done, p, self.token_pos as int),
            ensures
                self.wf(),
                self.chars() == cs,
                ops_view(self.ops@) == base + term(cs, start).ops,
                term(cs, start).end == Ok::<int, ParseErrorView>(self.token_pos as int),
            decreases cs.len() - self.token_pos,
        {
            let ghost q = self.token_pos as int;
            proof {
                lemma_token_end(cs, q);
            }
            let slash = match &self.lookahead {
                Some(Token::Star) => false,
                Some(Token::Slash) => true,
                _ => {
                    break;
                },
            };
            self.advance();
            let ghost end = self.token_pos as int;
            proof {
                lemma_unary_end(cs, end);
            }
            let r = self.parse_unary();
            let ghost part = unary(cs, end).ops;
            assert(ops_view(self.ops@) =~= base + (done + part));
            if r.is_err() {
                return r;
            }
            let op = if slash {
                Op::Over
            } else {
                Op::Times
            };
            self.emit(op);
            proof {
                done = (done + part).push(op@);
                p = q;
            }
            assert(ops_view(self.ops@) =~= base + done);
        }
        Ok(())
    }

    // unary → ('+' | '-') unary | primary
    fn parse_unary(&mut self) -> (r: Result<(), ParseError>)
        requires
            old(self).wf(),
        ensures
            Parser::has_read(
                *old(self),
                *final(self),
                r,
                unary(old(self).chars(), old(self).token_pos as int),
            ),
        decreases left(old(self).chars(), old(self).token_pos as int), 1int,
    {
        let ghost base = ops_view(self.ops@);
        proof {
            lemma_token_end(self.chars(), self.token_pos as int);
        }
        let minus = match &self.lookahead {
            Some(Token::Plus) => false,
            Some(Token::Minus) => true,
            _ => {
                return self.parse_primary();
            },
        };
        self.advance();
        let ghost inner = unary(self.chars(), self.token_pos as int);
        let r = self.parse_unary();
        if minus && r.is_ok() {
            self.emit(Op::Neg);
            assert(ops_view(self.ops@) =~= base + inner.ops.push(OpView::Neg));
        }
        r
    }

    // primary → NUMBER | '(' expr ')'
    fn parse_primary(&mut self) -> (r: Result<(), ParseError>)
        requires
            old(self).wf(),
        ensures
            Parser::has_read(
                *old(self),
                *final(self),
                r,
                primary(old(self).chars(), old(self).token_pos as int),
            ),
        decreases left(old(self).chars(), old(self).token_pos as int), 0int,
    {
        let ghost base = ops_view(self.ops@);
        proof {
            lemma_token_end(self.chars(), self.token_pos as int);
        }
        assert(base + Seq::<OpView>::empty() =~= base);
        let number = match &self.lookahead {
            Some(Token::Number(s)) => s.clone(),
            Some(Token::LParen) => {
                self.advance();
                let ghost inner = expr(self.chars(), self.token_pos as int);
                let r = self.parse_expr();
                if r.is_err() {
                    return r;
                }
                return match &self.lookahead {
                    Some(Token::RParen) => {
                        self.advance();
                        Ok(())
                    },
                    _ => Err(fail_at("expected ')'", self.token_pos)),
                };
            },
            Some(_) => {
                return Err(fail_at("unexpected token", self.token_pos));
            },
            None => {
                return Err(
                    ParseError {
                        message: "unexpected end of expression".to_owned(),
                        position: None,
                    },
                );
            },
        };
        self.advance();
        if text::same_text(number.as_str(), ".") {
            return Err(fail_at("invalid number", self.token_pos));
        }
        let op = Op::Push { number, position: self.token_pos };
        self.emit(op);
        assert(ops_view(self.ops@) =~= base + seq![op@]);
        Ok(())
    }

    /// Reads a whole expression: the operations that are due, and what is
    /// wrong behind them.
    pub fn evaluate(input: &str) -> (r: Calculation)
        ensures
            calculation_view(r) == calculation(input@),
    {
        let mut parser = Parser::new(input);
        let r = parser.parse_expr();
        assert(Seq::<OpView>::empty() + expr(input@, 0).ops =~= expr(input@, 0).ops);
        let error = match r {
            Err(e) => Some(e),
            Ok(_) => {
                if parser.lookahead.is_some() {
                    Some(fail_at("unexpected token after expression", parser.token_pos))
                } else if parser.lexer.pos < parser.lexer.chars.len() {
                    Some(fail_at("unexpected character after expression", parser.lexer.pos))
                } else {
                    None
                }
            },
        };
        Calculation { ops: parser.ops, error }
    }
}

// ── The tool ────────────────────────────────────────────────────────────

/// The arguments of the tool.
#[derive(Clone, Debug)]
pub struct CalculatorArgs {
    pub expression: String,
}

/// The tool.
#[derive(Clone, Copy, Debug, PartialEq, Eq, Structural)]
pub struct CalculatorTool;

/// What a failed calculation is answered.
pub open spec fn failure(e: ParseErrorView) -> ErrorView {
    ErrorView::Execution(
        "at position "@ + text::decimal(
            match e.position {
                Some(p) => p as nat,
                None => 0,
            },
        ) + ": "@ + e.message,
    )
}

impl CalculatorTool {
    /// The name of the tool.
    pub fn name(&self) -> (r: &'static str)
        ensures
            r@ == "calculator"@,
    {
        "calculator"
    }

    /// What the model reads about the tool.
    pub fn description(&self) -> (r: &'static str)
        ensures
            r@ == DESCRIPTION@,
    {
        DESCRIPTION
    }

    /// What the tool is to the model.
    pub fn to_def(&self) -> (r: ToolDef)
        ensures
            r.name@ == "calculator"@,
            r.description@ == DESCRIPTION@,
            r.parameters@.len() == 1,
            r.parameters@[0].name@ == "expression"@,
            r.parameters@[0].kind == ParamType::Text,
            r.parameters@[0].required,
            r.parameters@[0].description@
                == "A mathematical expression using +, -, *, /, parentheses, and decimal numbers. Examples: '2 + 3 * 4', '(100 - 20) / 4', '-5 + 3.14 * 2'. No functions, no variables, no exponentiation."@,
    {
        let mut parameters: Vec<Param> = Vec::new();
        parameters.push(
            Param {
                name: "expression",
                kind: ParamType::Text,
                required: true,
                description:
                    "A mathematical expression using +, -, *, /, parentheses, and decimal numbers. Examples: '2 + 3 * 4', '(100 - 20) / 4', '-5 + 3.14 * 2'. No functions, no variables, no exponentiation.",
            },
        );
        ToolDef { name: "calculator", description: DESCRIPTION, parameters }
    }

    /// What the expression asks to be calculated.
    pub fn execute_stream(&self, args: Result<CalculatorArgs, String>) -> (r: Result<
        Calculation,
        ToolError,
    >)
        ensures
            match (args, r) {
                (Ok(a), Ok(c)) => calculation_view(c) == calculation(a.expression@),
                (Err(e), Err(f)) => f@ == tools::undecoded(e@),
                _ => false,
            },
    {
        match args {
            Ok(a) => Ok(Parser::evaluate(a.expression.as_str())),
            Err(e) => Err(reject_args(e.as_str())),
        }
    }

    /// What the model is answered: the number that was calculated, or where
    /// and why it failed.
    pub fn answer(&self, outcome: Result<String, ParseError>) -> (r: Result<String, ToolError>)
        ensures
            tools::answer_view(r) == match outcome {
                Ok(s) => Ok(s@),
                Err(e) => Err(failure(e@)),
            },
    {
        match outcome {
            Ok(s) => Ok(s),
            Err(e) => {
                let p: usize = match e.position {
                    Some(p) => p,
                    None => 0,
                };
                Err(
                    ToolError::Execution(
                        text::cat4(
                            "at position ",
                            text::decimal_of(p as u64).as_str(),
                            ": ",
                            e.message.as_str(),
                        ),
                    ),
                )
            },
        }
    }
}

// ── Laws ────────────────────────────────────────────────────────────────

/// How many numbers an operation adds to the stack.
pub open spec fn gain(op: OpView) -> int {
    match op {
        OpView::Push { .. } => 1,
        OpView::Neg => 0,
        _ => -1,
    }
}

/// How many numbers an operation needs on the stack.
pub open spec fn need(op: OpView) -> int {
    match op {
        OpView::Push { .. } => 0,
        OpView::Neg => 1,
        _ => 2,
    }
}

/// How many numbers operations add to the stack.
pub open spec fn height(ops: Seq<OpView>) -> int
    decreases ops.len(),
{
    if ops.len() == 0 {
        0
    } else {
        height(ops.drop_last()) + gain(ops.last())
    }
}

/// Whether each operation finds on the stack what it needs, where `d`
/// numbers are there at the start.
pub open spec fn runs(ops: Seq<OpView>, d: int) -> bool
    decreases ops.len(),
{
    if ops.len() == 0 {
        true
    } else {
        runs(ops.drop_last(), d) && d + height(ops.drop_last()) >= need(ops.last())
    }
}

proof fn lemma_runs_push(ops: Seq<OpView>, op: OpView, d: int)
    ensures
        height(ops.push(op)) == height(ops) + gain(op),
        runs(ops.push(op), d) == (runs(ops, d) && d + height(ops) >= need(op)),
{
    assert(ops.push(op).drop_last() =~= ops);
}

proof fn lemma_runs_add(a: Seq<OpView>, b: Seq<OpView>, d: int)
    ensures
        height(a + b) == height(a) + height(b),
        runs(a + b, d) == (runs(a, d) && runs(b, d + height(a))),
    decreases b.len(),
{
    if b.len() == 0 {
        assert(a + b =~= a);
    } else {
        assert((a + b).drop_last() =~= a + b.drop_last());
        lemma_runs_add(a, b.drop_last(), d);
    }
}

proof fn lemma_runs_more(ops: Seq<OpView>, d: int)
    requires
        runs(ops, 0),
        d >= 0,
    ensures
        runs(ops, d),
    decreases ops.len(),
{
    if ops.len() > 0 {
        lemma_runs_more(ops.drop_last(), d);
    }
}

/// Whether operations run on an empty stack, and leave one number where
/// nothing stopped the parser.
pub open spec fn balanced(r: Reading) -> bool {
    &&& runs(r.ops, 0)
    &&& r.end is Ok ==> height(r.ops) == 1
}

proof fn lemma_binary(ops: Seq<OpView>, r: Reading, op: OpView)
    requires
        runs(ops, 0),
        height(ops) == 1,
        balanced(r),
        need(op) == 2,
    ensures
        balanced(then_op(after(ops, r), op)),
{
    lemma_runs_more(r.ops, 1);
    lemma_runs_add(ops, r.ops, 0);
    lemma_runs_push(ops + r.ops, op, 0);
}

proof fn lemma_expr_balanced(cs: Seq<char>, p: int)
    ensures
        balanced(expr(cs, p)),
    decreases left(cs, p), 5int,
{
    lemma_term_balanced(cs, p);
    let r = term(cs, p);
    if r.end is Ok {
        lemma_expr_rest_balanced(cs, r.ops, p, r.end->Ok_0);
    }
}

proof fn lemma_expr_rest_balanced(cs: Seq<char>, ops: Seq<OpView>, p: int, q: int)
    requires
        runs(ops, 0),
        height(ops) == 1,
    ensures
        balanced(expr_rest(cs, ops, p, q)),
    decreases left(cs, p), 4int,
{
    match token_at(cs, q) {
        Some((t, end)) => {
            if p < q < end && q < cs.len() {
                lemma_term_balanced(cs, end);
                let r = term(cs, end);
                lemma_binary(ops, r, OpView::Plus);
                lemma_binary(ops, r, OpView::Minus);
                if r.end is Ok {
                    let next = moved(q, r.end->Ok_0);
                    lemma_expr_rest_balanced(cs, (ops + r.ops).push(OpView::Plus), q, next);
                    lemma_expr_rest_balanced(cs, (ops + r.ops).push(OpView::Minus), q, next);
                }
            }
        },
        None => {},
    }
}

proof fn lemma_term_balanced(cs: Seq<char>, p: int)
    ensures
        balanced(term(cs, p)),
    decreases left(cs, p), 3int,
{
    lemma_unary_balanced(cs, p);
    let r = unary(cs, p);
    if r.end is Ok {
        lemma_term_rest_balanced(cs, r.ops, p, r.end->Ok_0);
    }
}

proof fn lemma_term_rest_balanced(cs: Seq<char>, ops: Seq<OpView>, p: int, q: int)
    requires
        runs(ops, 0),
        height(ops) == 1,
    ensures
        balanced(term_rest(cs, ops, p, q)),
    decreases left(cs, p), 2int,
{
    match token_at(cs, q) {
        Some((t, end)) => {
            if p < q < end && q < cs.len() {
                lemma_unary_balanced(cs, end);
                let r = unary(cs, end);
                lemma_binary(ops, r, OpView::Times);
                lemma_binary(ops, r, OpView::Over);
                if r.end is Ok {
                    let next = moved(q, r.end->Ok_0);
                    lemma_term_rest_balanced(cs, (ops + r.ops).push(OpView::Times), q, next);
                    lemma_term_rest_balanced(cs, (ops + r.ops).push(OpView::Over), q, next);
                }
            }
        },
        None => {},
    }
}

proof fn lemma_unary_balanced(cs: Seq<char>, p: int)
    ensures
        balanced(unary(cs, p)),
    decreases left(cs, p), 1int,
{
    lemma_primary_balanced(cs, p);
    match token_at(cs, p) {
        Some((TokenView::Plus, end)) => {
            if p < end && p < cs.len() {
                lemma_unary_balanced(cs, end);
            }
        },
        Some((TokenView::Minus, end)) => {
            if p < end && p < cs.len() {
                lemma_unary_balanced(cs, end);
                lemma_runs_push(unary(cs, end).ops, OpView::Neg, 0);
            }
        },
        _ => {},
    }
}

proof fn lemma_primary_balanced(cs: Seq<char>, p: int)
    ensures
        balanced(primary(cs, p)),
    decreases left(cs, p), 0int,
{
    match token_at(cs, p) {
        Some((TokenView::Number(s), end)) => {
            let op = OpView::Push { number: s, position: end };
            assert(seq![op] =~= Seq::<OpView>::empty().push(op));
            lemma_runs_push(Seq::empty(), op, 0);
        },
        Some((TokenView::LParen, end)) => {
            if p < end && p < cs.len() {
                lemma_expr_balanced(cs, end);
            }
        },
        _ => {},
    }
}

/// The operations of every text run: each finds the numbers that it needs,
/// and where nothing is wrong, one number is left at the end.
pub proof fn law_operations_run(cs: Seq<char>)
    ensures
        runs(calculation(cs).0, 0),
        calculation(cs).1 is None ==> height(calculation(cs).0) == 1,
{
    lemma_expr_balanced(cs, 0);
}

/// The operation of a sign between two numbers.
pub open spec fn binary_op(c: char) -> OpView {
    if c == '+' {
        OpView::Plus
    } else if c == '-' {
        OpView::Minus
    } else if c == '*' {
        OpView::Times
    } else {
        OpView::Over
    }
}

/// Whether a sign binds more tightly than `+` and `-`.
pub open spec fn binds_tightly(c: char) -> bool {
    c == '*' || c == '/'
}

/// Whether `c` is a sign between two numbers.
pub open spec fn is_sign(c: char) -> bool {
    c == '+' || c == '-' || c == '*' || c == '/'
}

/// Whether a text is a whole number.
pub open spec fn is_number(s: Seq<char>) -> bool {
    s.len() > 0 && forall|i: int| 0 <= i < s.len() ==> is_digit(#[trigger] s[i])
}

proof fn lemma_digits_end(cs: Seq<char>, p: int, end: int)
    requires
        0 <= p <= end <= cs.len(),
        forall|i: int| p <= i < end ==> is_digit(#[trigger] cs[i]),
        end < cs.len() ==> !is_digit(cs[end]) && cs[end] != '.',
    ensures
        number_end(cs, p, false) == end,
    decreases end - p,
{
    if p < end {
        assert(is_digit(cs[p]));
        lemma_digits_end(cs, p + 1, end);
    }
}

proof fn lemma_number_read(cs: Seq<char>, p: int, end: int)
    requires
        0 <= p < end <= cs.len(),
        forall|i: int| p <= i < end ==> is_digit(#[trigger] cs[i]),
        end < cs.len() ==> is_sign(cs[end]),
    ensures
        unary(cs, p) == (Reading {
            ops: seq![OpView::Push { number: cs.subrange(p, end), position: end }],
            end: Ok(end),
        }),
{
    assert(is_digit(cs[p]));
    lemma_digits_end(cs, p + 1, end);
    assert(skipped(cs, p) == p);
    let s = cs.subrange(p, end);
    assert(token_at(cs, p) == Some((TokenView::Number(s), end)));
    reveal_strlit(".");
    assert(s[0] == cs[p]);
    assert(s != "."@);
    assert(primary(cs, p).ops =~= seq![OpView::Push { number: s, position: end }]);
}

proof fn lemma_sign_token(cs: Seq<char>, p: int)
    requires
        0 <= p < cs.len(),
        is_sign(cs[p]),
    ensures
        token_at(cs, p) == Some((sign_token(cs[p])->0, p + 1)),
{
    assert(skipped(cs, p) == p);
}

/// `*` and `/` bind more tightly than `+` and `-`, and signs that bind alike
/// are taken from left to right: of three numbers with two signs between
/// them, the first two are taken first, unless only the second sign binds
/// tightly.
pub proof fn law_precedence(a: Seq<char>, s: char, b: Seq<char>, t: char, c: Seq<char>)
    requires
        is_number(a),
        is_number(b),
        is_number(c),
        is_sign(s),
        is_sign(t),
    ensures
        ({
            let cs = a + seq![s] + b + seq![t] + c;
            let (ops, error) = calculation(cs);
            let x = OpView::Push { number: a, position: a.len() as int };
            let y = OpView::Push { number: b, position: (a.len() + 1 + b.len()) as int };
            let z = OpView::Push { number: c, position: cs.len() as int };
            &&& error is None
            &&& ops == if binds_tightly(t) && !binds_tightly(s) {
                seq![x, y, z, binary_op(t), binary_op(s)]
            } else {
                seq![x, y, binary_op(s), z, binary_op(t)]
            }
        }),
{
    let cs = a + seq![s] + b + seq![t] + c;
    let e1 = a.len() as int;
    let q1 = e1 + 1;
    let e2 = q1 + b.len() as int;
    let q2 = e2 + 1;
    let e3 = cs.len() as int;
    assert(cs.subrange(0, e1) =~= a);
    assert(cs.subrange(q1, e2) =~= b);
    assert(cs.subrange(q2, e3) =~= c);
    assert forall|i: int| 0 <= i < e1 implies is_digit(#[trigger] cs[i]) by {
        assert(cs[i] == a[i]);
    }
    assert forall|i: int| q1 <= i < e2 implies is_digit(#[trigger] cs[i]) by {
        assert(cs[i] == b[i - q1]);
    }
    assert forall|i: int| q2 <= i < e3 implies is_digit(#[trigger] cs[i]) by {
        assert(cs[i] == c[i - q2]);
    }
    assert(cs[e1] == s);
    assert(cs[e2] == t);
    lemma_number_read(cs, 0, e1);
    lemma_number_read(cs, q1, e2);
    lemma_number_read(cs, q2, e3);
    lemma_sign_token(cs, e1);
    lemma_sign_token(cs, e2);
    assert(token_at(cs, e3) is None);
    let x = OpView::Push { number: a, position: e1 };
    let y = OpView::Push { number: b, position: e2 };
    let z = OpView::Push { number: c, position: e3 };
    let so = binary_op(s);
    let to = binary_op(t);
    if binds_tightly(s) {
        let two = seq![x, y, so];
        assert((seq![x] + seq![y]).push(so) =~= two);
        assert(term(cs, 0) == term_rest(cs, seq![x], 0, e1));
        assert(term_rest(cs, seq![x], 0, e1) == term_rest(cs, two, e1, e2));
        assert((two + seq![z]).push(to) =~= seq![x, y, so, z, to]);
        if binds_tightly(t) {
            assert(term_rest(cs, two, e1, e2) == term_rest(cs, seq![x, y, so, z, to], e2, e3));
            assert(expr(cs, 0) == expr_rest(cs, seq![x, y, so, z, to], 0, e3));
        } else {
            assert(expr(cs, 0) == expr_rest(cs, two, 0, e2));
            assert(term(cs, q2) == term_rest(cs, seq![z], q2, e3));
            assert(expr_rest(cs, two, 0, e2) == expr_rest(cs, seq![x, y, so, z, to], e2, e3));
        }
    } else {
        assert(term(cs, 0) == term_rest(cs, seq![x], 0, e1));
        assert(expr(cs, 0) == expr_rest(cs, seq![x], 0, e1));
        assert(term(cs, q1) == term_rest(cs, seq![y], q1, e2));
        if binds_tightly(t) {
            let two = seq![y, z, to];
            assert((seq![y] + seq![z]).push(to) =~= two);
            assert(term_rest(cs, seq![y], q1, e2) == term_rest(cs, two, e2, e3));
            assert((seq![x] + two).push(so) =~= seq![x, y, z, to, so]);
            assert(expr_rest(cs, seq![x], 0, e1) == expr_rest(
                cs,
                seq![x, y, z, to, so],
                e1,
                e3,
            ));
        } else {
            let two = seq![x, y, so];
            assert((seq![x] + seq![y]).push(so) =~= two);
            assert(expr_rest(cs, seq![x], 0, e1) == expr_rest(cs, two, e1, e2));
            assert(term(cs, q2) == term_rest(cs, seq![z], q2, e3));
            assert((two + seq![z]).push(to) =~= seq![x, y, so, z, to]);
            assert(expr_rest(cs, two, e1, e2) == expr_rest(cs, seq![x, y, so, z, to], e2, e3));
        }
    }
    assert(skipped(cs, e3) == e3);
}

} // verus!
