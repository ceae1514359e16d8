//! Pasted text: a multi-line paste is kept aside, and a placeholder such as
//! `[Pasted text #1 +11 lines]` stands for it in the input until it is
//! submitted.

use vstd::prelude::*;
use crate::text;

verus! {

/// What was pasted.
#[derive(Clone, Debug, PartialEq, Eq)]
pub enum PastedContent {
    /// Plain text.
    Text {
        /// The text, its line ends all line feeds.
        text: String,
        /// The number of its lines.
        line_count: usize,
    },
}

/// One numbered paste.
#[derive(Clone, Debug, PartialEq, Eq)]
pub struct PastedBlock {
    /// The number that its placeholder shows, from one.
    pub id: usize,
    /// What was pasted.
    pub content: PastedContent,
}

/// What a paste holds.
pub struct BlockView {
    pub id: nat,
    pub text: Seq<char>,
    pub line_count: nat,
}

impl View for PastedBlock {
    type V = BlockView;

    open spec fn view(&self) -> BlockView {
        match self.content {
            PastedContent::Text { text, line_count } => BlockView {
                id: self.id as nat,
                text: text@,
                line_count: line_count as nat,
            },
        }
    }
}

/// The placeholder of a paste; the line count is left out for one line.
pub open spec fn placeholder_of(b: BlockView) -> Seq<char> {
    if b.line_count > 1 {
        "[Pasted text #"@ + text::decimal(b.id) + " +"@ + text::decimal(b.line_count) + " lines]"@
    } else {
        "[Pasted text #"@ + text::decimal(b.id) + "]"@
    }
}

impl PastedBlock {
    /// The placeholder that stands in the input for this paste.
    pub fn placeholder(&self) -> (r: String)
        ensures
            r@ == placeholder_of(self@),
    {
        match &self.content {
            PastedContent::Text { line_count, .. } => {
                let id = text::decimal_of(self.id as u64);
                if *line_count > 1 {
                    text::cat5(
                        "[Pasted text #",
                        id.as_str(),
                        " +",
                        text::decimal_of(*line_count as u64).as_str(),
                        " lines]",
                    )
                } else {
                    text::cat3("[Pasted text #", id.as_str(), "]")
                }
            },
        }
    }

    /// The text that the placeholder stands for.
    pub fn expand(&self) -> (r: &str)
        ensures
            r@ == self@.text,
    {
        match &self.content {
            PastedContent::Text { text, .. } => text.as_str(),
        }
    }
}

/// The pastes since the last submission.
#[derive(Debug)]
pub struct PasteStore {
    /// The next number.
    pub next_id: usize,
    /// The pastes, in order.
    pub blocks: Vec<PastedBlock>,
}

/// What each paste of a list holds.
pub open spec fn blocks_view(v: Seq<PastedBlock>) -> Seq<BlockView> {
    v.map_values(|b: PastedBlock| b@)
}

/// What the store holds.
pub struct StoreView {
    pub next_id: nat,
    pub blocks: Seq<BlockView>,
}

impl View for PasteStore {
    type V = StoreView;

    open spec fn view(&self) -> StoreView {
        StoreView { next_id: self.next_id as nat, blocks: blocks_view(self.blocks@) }
    }
}

impl StoreView {
    /// The number that the next paste gets.
    pub open spec fn next(self) -> nat {
        if self.next_id > 1 {
            self.next_id
        } else {
            1
        }
    }

    /// Numbers start at one, and grow from paste to paste.
    pub open spec fn wf(self) -> bool {
        &&& forall|i: int|
            0 <= i < self.blocks.len() ==> 1 <= (#[trigger] self.blocks[i]).id < self.next()
        &&& forall|i: int, j: int|
            0 <= i < j < self.blocks.len() ==> (#[trigger] self.blocks[i]).id < (
            #[trigger] self.blocks[j]).id
    }

    /// The store with one paste more.
    pub open spec fn with_text(self, t: Seq<char>) -> StoreView {
        StoreView {
            next_id: self.next() + 1,
            blocks: self.blocks.push(
                BlockView { id: self.next(), text: t, line_count: text::lines_of(t).len() },
            ),
        }
    }

    /// The store without pastes.
    pub open spec fn cleared() -> StoreView {
        StoreView { next_id: 1, blocks: Seq::empty() }
    }

    /// The store without the pastes of a placeholder.
    pub open spec fn without(self, placeholder: Seq<char>) -> StoreView {
        StoreView { next_id: self.next_id, blocks: other_blocks(self.blocks, placeholder) }
    }
}

/// The pastes whose placeholder is another one.
pub open spec fn other_blocks(blocks: Seq<BlockView>, placeholder: Seq<char>) -> Seq<BlockView>
    decreases blocks.len(),
{
    if blocks.len() == 0 {
        blocks
    } else {
        let rest = other_blocks(blocks.drop_last(), placeholder);
        if placeholder_of(blocks.last()) == placeholder {
            rest
        } else {
            rest.push(blocks.last())
        }
    }
}

/// `s` with the placeholders of `blocks` replaced, one paste after the other.
pub open spec fn expanded(blocks: Seq<BlockView>, s: Seq<char>) -> Seq<char>
    decreases blocks.len(),
{
    if blocks.len() == 0 {
        s
    } else {
        text::replaced(
            expanded(blocks.drop_last(), s),
            placeholder_of(blocks.last()),
            blocks.last().text,
        )
    }
}

/// The placeholder of the first paste that `s` ends with, or `None`.
pub open spec fn suffix_of(blocks: Seq<BlockView>, s: Seq<char>) -> Option<Seq<char>>
    decreases blocks.len(),
{
    if blocks.len() == 0 {
        None
    } else if text::finishes_with(s, placeholder_of(blocks[0])) {
        Some(placeholder_of(blocks[0]))
    } else {
        suffix_of(blocks.skip(1), s)
    }
}

pub proof fn lemma_placeholder_len(b: BlockView)
    ensures
        placeholder_of(b).len() > 0,
{
    reveal_strlit("]");
    reveal_strlit(" lines]");
}

impl Default for PasteStore {
    fn default() -> (r: PasteStore)
        ensures
            r@ == (StoreView { next_id: 0, blocks: Seq::empty() }),
            r@.wf(),
    {
        let r = PasteStore { next_id: 0, blocks: Vec::new() };
        assert(blocks_view(r.blocks@) =~= Seq::<BlockView>::empty());
        r
    }
}

impl PasteStore {
    /// Keeps a paste, and returns the placeholder for the input. The line
    /// ends of `text` are line feeds (see [`normalize_newlines`]).
    pub fn add_text(&mut self, text: String) -> (r: String)
        requires
            old(self).next_id < usize::MAX,
        ensures
            final(self)@ == old(self)@.with_text(text@),
            r@ == placeholder_of(final(self)@.blocks.last()),
            old(self)@.wf() ==> final(self)@.wf(),
    {
        let ghost before = self@;
        let id: usize = if self.next_id > 1 {
            self.next_id
        } else {
            1
        };
        let lines = text::lines(text.as_str());
        assert(text::texts(lines@).len() == lines@.len());
        let block = PastedBlock {
            id,
            content: PastedContent::Text { line_count: lines.len(), text },
        };
        let placeholder = block.placeholder();
        self.next_id = id + 1;
        self.blocks.push(block);
        assert(blocks_view(self.blocks@) =~= before.with_text(text@).blocks);
        placeholder
    }

    /// Replaces every placeholder of a kept paste in `text` by the paste.
    pub fn expand_all(&self, text: &str) -> (r: String)
        ensures
            r@ == expanded(self@.blocks, text@),
    {
        let mut out = text.to_owned();
        let mut i: usize = 0;
        assert(self@.blocks.take(0) =~= Seq::<BlockView>::empty());
        while i < self.blocks.len()
            invariant
                i <= self.blocks@.len(),
                out@ == expanded(self@.blocks.take(i as int), text@),
            decreases self.blocks@.len() - i,
        {
            let ghost t = self@.blocks.take(i + 1);
            assert(t.drop_last() =~= self@.blocks.take(i as int));
            assert(t.last() == self.blocks@[i as int]@);
            proof {
                lemma_placeholder_len(t.last());
            }
            out = text::replace(
                out.as_str(),
                self.blocks[i].placeholder().as_str(),
                self.blocks[i].expand(),
            );
            i = i + 1;
        }
        assert(self@.blocks.take(i as int) =~= self@.blocks);
        out
    }

    /// The placeholder that `text` ends with, if it is that of a kept paste.
    pub fn placeholder_suffix(&self, text: &str) -> (r: Option<String>)
        ensures
            match r {
                Some(p) => suffix_of(self@.blocks, text@) == Some(p@) && text::finishes_with(
                    text@,
                    p@,
                ) && p@.len() > 0,
                None => suffix_of(self@.blocks, text@) is None,
            },
    {
        let mut i: usize = 0;
        assert(self@.blocks.skip(0) =~= self@.blocks);
        while i < self.blocks.len()
            invariant
                i <= self.blocks@.len(),
                suffix_of(self@.blocks, text@) == suffix_of(self@.blocks.skip(i as int), text@),
            decreases self.blocks@.len() - i,
        {
            let ghost rest = self@.blocks.skip(i as int);
            assert(rest[0] == self.blocks@[i as int]@);
            assert(rest.skip(1) =~= self@.blocks.skip(i + 1));
            let p = self.blocks[i].placeholder();
            if text::ends_with(text, p.as_str()) {
                proof {
                    lemma_placeholder_len(rest[0]);
                }
                return Some(p);
            }
            i = i + 1;
        }
        None
    }

    /// Drops the paste of a placeholder; `true` where there was one.
    pub fn remove_by_placeholder(&mut self, placeholder: &str) -> (r: bool)
        ensures
            final(self)@ == old(self)@.without(placeholder@),
            r == (final(self)@.blocks.len() != old(self)@.blocks.len()),
            old(self)@.wf() ==> final(self)@.wf(),
    {
        let ghost before = self@;
        let mut kept: Vec<PastedBlock> = Vec::new();
        let mut i: usize = 0;
        let n: usize = self.blocks.len();
        assert(before.blocks.take(0) =~= Seq::<BlockView>::empty());
        assert(blocks_view(kept@) =~= Seq::<BlockView>::empty());
        while i < self.blocks.len()
            invariant
                i <= self.blocks@.len() == n,
                before == self@,
                blocks_view(kept@) == other_blocks(before.blocks.take(i as int), placeholder@),
            decreases self.blocks@.len() - i,
        {
            let ghost t = before.blocks.take(i + 1);
            let ghost had = blocks_view(kept@);
            assert(t.drop_last() =~= before.blocks.take(i as int));
            assert(t.last() == self.blocks@[i as int]@);
            let p = self.blocks[i].placeholder();
            if !text::same_text(p.as_str(), placeholder) {
                let copy = copy_block(&self.blocks[i]);
                kept.push(copy);
                assert(blocks_view(kept@) =~= had.push(t.last()));
            }
            i = i + 1;
        }
        assert(before.blocks.take(i as int) =~= before.blocks);
        let changed = kept.len() != n;
        assert(blocks_view(kept@).len() == kept@.len());
        self.blocks = kept;
        proof {
            if before.wf() {
                lemma_other_blocks_wf(before.blocks, placeholder@, before.next());
            }
        }
        changed
    }

    /// Drops all pastes; numbers start again at one.
    pub fn clear(&mut self)
        ensures
            final(self)@ == StoreView::cleared(),
            final(self)@.wf(),
    {
        self.blocks = Vec::new();
        self.next_id = 1;
        assert(blocks_view(self.blocks@) =~= Seq::<BlockView>::empty());
    }

    /// The number of kept pastes.
    pub fn len(&self) -> (r: usize)
        ensures
            r == self@.blocks.len(),
    {
        self.blocks.len()
    }
}

fn copy_block(b: &PastedBlock) -> (r: PastedBlock)
    ensures
        r@ == b@,
{
    match &b.content {
        PastedContent::Text { text, line_count } => PastedBlock {
            id: b.id,
            content: PastedContent::Text { text: text.clone(), line_count: *line_count },
        },
    }
}

proof fn lemma_other_blocks_wf(blocks: Seq<BlockView>, placeholder: Seq<char>, next: nat)
    requires
        forall|i: int| 0 <= i < blocks.len() ==> 1 <= (#[trigger] blocks[i]).id < next,
        forall|i: int, j: int|
            0 <= i < j < blocks.len() ==> (#[trigger] blocks[i]).id < (#[trigger] blocks[j]).id,
    ensures
        ({
            let kept = other_blocks(blocks, placeholder);
            &&& kept.len() <= blocks.len()
            &&& forall|i: int| 0 <= i < kept.len() ==> 1 <= (#[trigger] kept[i]).id < next
            &&& forall|i: int, j: int|
                0 <= i < j < kept.len() ==> (#[trigger] kept[i]).id < (#[trigger] kept[j]).id
            &&& blocks.len() > 0 ==> forall|i: int|
                0 <= i < kept.len() ==> (#[trigger] kept[i]).id <= blocks.last().id
        }),
    decreases blocks.len(),
{
    if blocks.len() > 0 {
        let front = blocks.drop_last();
        assert forall|i: int| 0 <= i < front.len() implies 1 <= (#[trigger] front[i]).id < next by {
            assert(front[i] == blocks[i]);
        }
        assert forall|i: int, j: int| 0 <= i < j < front.len() implies (#[trigger] front[i]).id < (
        #[trigger] front[j]).id by {
            assert(front[i] == blocks[i] && front[j] == blocks[j]);
        }
        lemma_other_blocks_wf(front, placeholder, next);
        if front.len() > 0 {
            assert(front.last() == blocks[blocks.len() - 2]);
        }
    }
}

// ── Line ends ───────────────────────────────────────────────────────────

/// `s` with all line ends as line feeds.
pub open spec fn normalized(s: Seq<char>) -> Seq<char> {
    text::replaced(text::replaced(s, "\r\n"@, "\n"@), "\r"@, "\n"@)
}

/// Turns the line ends of `text`, whether CRLF, CR or LF, into line feeds.
pub fn normalize_newlines(text: &str) -> (r: String)
    ensures
        r@ == normalized(text@),
{
    proof {
        reveal_strlit("\r\n");
        reveal_strlit("\r");
    }
    let once = text::replace(text, "\r\n", "\n");
    text::replace(once.as_str(), "\r", "\n")
}

// ── Laws ────────────────────────────────────────────────────────────────

/// Removing a placeholder keeps the numbers in order.
pub proof fn lemma_without_wf(store: StoreView, placeholder: Seq<char>)
    requires
        store.wf(),
    ensures
        store.without(placeholder).wf(),
{
    lemma_other_blocks_wf(store.blocks, placeholder, store.next());
}

/// A new paste keeps the numbers in order.
pub proof fn lemma_with_text_wf(store: StoreView, t: Seq<char>)
    requires
        store.wf(),
    ensures
        store.with_text(t).wf(),
{
}

proof fn lemma_replaced_char_gone(s: Seq<char>, c: char, r: Seq<char>)
    requires
        !r.contains(c),
    ensures
        !text::replaced(s, seq![c], r).contains(c),
    decreases s.len(),
{
    let p = seq![c];
    if s.len() > 0 {
        lemma_replaced_char_gone(s.skip(1), c, r);
        let rest = text::replaced(s.skip(1), p, r);
        assert(s.subrange(0, 1) =~= seq![s[0]]);
        if s[0] == c {
            assert(s.subrange(0, 1) =~= p);
            assert(text::replaced(s, p, r) == r + rest);
            assert forall|i: int| 0 <= i < (r + rest).len() implies (r + rest)[i] != c by {
                if i < r.len() {
                    assert(r.contains(r[i]));
                } else {
                    assert(rest.contains(rest[i - r.len()]));
                }
            }
        } else {
            assert(s.subrange(0, 1)[0] != p[0]);
            assert(text::replaced(s, p, r) == seq![s[0]] + rest);
            assert forall|i: int| 0 <= i < (seq![s[0]] + rest).len() implies (seq![s[0]] + rest)[i]
                != c by {
                if i > 0 {
                    assert(rest.contains(rest[i - 1]));
                }
            }
        }
    }
}

/// No carriage return is left in normalized text.
pub proof fn law_normalized_has_no_cr(s: Seq<char>)
    ensures
        !normalized(s).contains('\r'),
{
    reveal_strlit("\r");
    reveal_strlit("\n");
    assert("\r"@ =~= seq!['\r']);
    lemma_replaced_char_gone(text::replaced(s, "\r\n"@, "\n"@), '\r', "\n"@);
}

proof fn lemma_replaced_absent(s: Seq<char>, p: Seq<char>, r: Seq<char>)
    requires
        p.len() > 0,
        !text::contains_text(s, p),
    ensures
        text::replaced(s, p, r) == s,
    decreases s.len(),
{
    if s.len() >= p.len() {
        assert(!text::occurs_at(s, p, 0));
        let rest = s.skip(1);
        assert forall|i: int| !text::occurs_at(rest, p, i) by {
            if text::occurs_at(rest, p, i) {
                assert(s.subrange(i + 1, i + 1 + p.len()) =~= rest.subrange(i, i + p.len()));
                assert(text::occurs_at(s, p, i + 1));
            }
        }
        lemma_replaced_absent(rest, p, r);
        assert(seq![s[0]] + rest =~= s);
    }
}

/// Text that has no carriage return is normalized already.
pub proof fn law_normalized_is_stable(s: Seq<char>)
    requires
        !s.contains('\r'),
    ensures
        normalized(s) == s,
{
    reveal_strlit("\r\n");
    reveal_strlit("\r");
    assert forall|i: int| !text::occurs_at(s, "\r\n"@, i) by {
        if text::occurs_at(s, "\r\n"@, i) {
            assert(s.subrange(i, i + 2)[0] == s[i]);
        }
    }
    lemma_replaced_absent(s, "\r\n"@, "\n"@);
    assert forall|i: int| !text::occurs_at(s, "\r"@, i) by {
        if text::occurs_at(s, "\r"@, i) {
            assert(s.subrange(i, i + 1)[0] == s[i]);
        }
    }
    lemma_replaced_absent(s, "\r"@, "\n"@);
}

/// Text in which no kept paste's placeholder stands is not changed, also
/// where it looks like a placeholder.
pub proof fn law_expand_keeps_other_text(blocks: Seq<BlockView>, s: Seq<char>)
    requires
        forall|i: int|
            0 <= i < blocks.len() ==> !text::contains_text(s, placeholder_of(#[trigger] blocks[i])),
    ensures
        expanded(blocks, s) == s,
    decreases blocks.len(),
{
    if blocks.len() > 0 {
        let front = blocks.drop_last();
        assert forall|i: int| 0 <= i < front.len() implies !text::contains_text(
            s,
            placeholder_of(#[trigger] front[i]),
        ) by {
            assert(front[i] == blocks[i]);
        }
        law_expand_keeps_other_text(front, s);
        assert(blocks.last() == blocks[blocks.len() - 1]);
        lemma_placeholder_len(blocks.last());
        lemma_replaced_absent(s, placeholder_of(blocks.last()), blocks.last().text);
    }
}

/// One occurrence of `p` is replaced, and what stands around it is kept.
proof fn lemma_replaced_once(a: Seq<char>, p: Seq<char>, b: Seq<char>, t: Seq<char>)
    requires
        p.len() > 0,
        forall|i: int| #[trigger] text::occurs_at(a + p + b, p, i) ==> i == a.len(),
    ensures
        text::replaced(a + p + b, p, t) == a + t + b,
    decreases a.len(),
{
    let s = a + p + b;
    assert(s.subrange(a.len() as int, a.len() as int + p.len()) =~= p);
    if a.len() == 0 {
        assert(text::occurs_at(s, p, 0));
        assert(s.skip(p.len() as int) =~= b);
        assert forall|i: int| !text::occurs_at(b, p, i) by {
            if text::occurs_at(b, p, i) {
                assert(s.subrange(i + p.len(), i + p.len() + p.len()) =~= b.subrange(
                    i,
                    i + p.len(),
                ));
                assert(text::occurs_at(s, p, i + p.len()));
            }
        }
        lemma_replaced_absent(b, p, t);
        assert(t + b =~= a + t + b);
    } else {
        assert(!text::occurs_at(s, p, 0));
        let a1 = a.skip(1);
        assert(s.skip(1) =~= a1 + p + b);
        assert forall|i: int| #[trigger] text::occurs_at(a1 + p + b, p, i) implies i
            == a1.len() by {
            assert(s.subrange(i + 1, i + 1 + p.len()) =~= (a1 + p + b).subrange(i, i + p.len()));
            assert(text::occurs_at(s, p, i + 1));
        }
        lemma_replaced_once(a1, p, b, t);
        assert(seq![s[0]] + (a1 + t + b) =~= a + t + b);
    }
}

/// A paste comes back: where its placeholder stands once in the input, and
/// no other placeholder gets in the way, what is submitted is the input with
/// the pasted text in the placeholder's place.
pub proof fn law_paste_comes_back(blocks: Seq<BlockView>, k: int, a: Seq<char>, b: Seq<char>)
    requires
        0 <= k < blocks.len(),
        forall|i: int| #[trigger]
            text::occurs_at(a + placeholder_of(blocks[k]) + b, placeholder_of(blocks[k]), i) ==> i
                == a.len(),
        forall|i: int|
            0 <= i < k ==> !text::contains_text(
                a + placeholder_of(blocks[k]) + b,
                placeholder_of(#[trigger] blocks[i]),
            ),
        forall|i: int|
            k < i < blocks.len() ==> !text::contains_text(
                a + blocks[k].text + b,
                placeholder_of(#[trigger] blocks[i]),
            ),
    ensures
        expanded(blocks, a + placeholder_of(blocks[k]) + b) == a + blocks[k].text + b,
    decreases blocks.len(),
{
    let p = placeholder_of(blocks[k]);
    let t = blocks[k].text;
    let front = blocks.drop_last();
    lemma_placeholder_len(blocks.last());
    if k == blocks.len() - 1 {
        assert forall|i: int| 0 <= i < front.len() implies !text::contains_text(
            a + p + b,
            placeholder_of(#[trigger] front[i]),
        ) by {
            assert(front[i] == blocks[i]);
        }
        law_expand_keeps_other_text(front, a + p + b);
        lemma_replaced_once(a, p, b, t);
    } else {
        assert(front[k] == blocks[k]);
        assert forall|i: int| 0 <= i < k implies !text::contains_text(
            a + p + b,
            placeholder_of(#[trigger] front[i]),
        ) by {
            assert(front[i] == blocks[i]);
        }
        assert forall|i: int| k < i < front.len() implies !text::contains_text(
            a + t + b,
            placeholder_of(#[trigger] front[i]),
        ) by {
            assert(front[i] == blocks[i]);
        }
        law_paste_comes_back(front, k, a, b);
        assert(blocks.last() == blocks[blocks.len() - 1]);
        lemma_replaced_absent(a + t + b, placeholder_of(blocks.last()), blocks.last().text);
    }
}

proof fn lemma_decimal_digits(n: nat)
    ensures
        text::decimal(n).len() > 0,
        forall|i: int|
            0 <= i < text::decimal(n).len() ==> '0' <= #[trigger] text::decimal(n)[i] <= '9',
    decreases n,
{
    if n >= 10 {
        lemma_decimal_digits(n / 10);
    }
}

proof fn lemma_decimal_injective(m: nat, n: nat)
    requires
        text::decimal(m) == text::decimal(n),
    ensures
        m == n,
    decreases m,
{
    lemma_decimal_digits(m);
    lemma_decimal_digits(n);
    lemma_decimal_digits(m / 10);
    lemma_decimal_digits(n / 10);
    assert(text::decimal(m).last() == text::digit(m % 10));
    assert(text::decimal(n).last() == text::digit(n % 10));
    assert(text::digit(m % 10) as u32 == 48 + m % 10);
    assert(text::digit(n % 10) as u32 == 48 + n % 10);
    if m >= 10 && n >= 10 {
        assert(text::decimal(m).drop_last() =~= text::decimal(m / 10));
        assert(text::decimal(n).drop_last() =~= text::decimal(n / 10));
        lemma_decimal_injective(m / 10, n / 10);
    } else if m >= 10 {
        assert(text::decimal(n).len() == 1);
        assert(text::decimal(m).len() == text::decimal(m / 10).len() + 1);
    } else if n >= 10 {
        assert(text::decimal(m).len() == 1);
        assert(text::decimal(n).len() == text::decimal(n / 10).len() + 1);
    }
}

proof fn lemma_placeholder_shape(b: BlockView) -> (tail: Seq<char>)
    ensures
        placeholder_of(b) == "[Pasted text #"@ + text::decimal(b.id) + tail,
        tail.len() > 0,
        tail[0] == ']' || tail[0] == ' ',
{
    reveal_strlit("]");
    reveal_strlit(" +");
    if b.line_count > 1 {
        let tail = " +"@ + text::decimal(b.line_count) + " lines]"@;
        assert(placeholder_of(b) =~= "[Pasted text #"@ + text::decimal(b.id) + tail);
        tail
    } else {
        "]"@
    }
}

/// A placeholder that stands at the start of another one's text is that
/// other one's.
proof fn lemma_prefix_has_number(a: BlockView, b: BlockView, rest: Seq<char>)
    requires
        text::occurs_at(placeholder_of(b) + rest, placeholder_of(a), 0),
    ensures
        a.id == b.id,
{
    let ta = lemma_placeholder_shape(a);
    let tb = lemma_placeholder_shape(b);
    let h = "[Pasted text #"@;
    let da = text::decimal(a.id);
    let db = text::decimal(b.id);
    lemma_decimal_digits(a.id);
    lemma_decimal_digits(b.id);
    let pa = h + da + ta;
    let s = h + db + tb + rest;
    assert(s =~= placeholder_of(b) + rest);
    assert forall|i: int| 0 <= i < pa.len() implies pa[i] == s[i] by {
        assert(s.subrange(0, pa.len() as int)[i] == s[i]);
    }
    if da.len() < db.len() {
        assert(pa[(h.len() + da.len()) as int] == ta[0]);
        assert(s[(h.len() + da.len()) as int] == db[da.len() as int]);
    } else if db.len() < da.len() {
        assert(s[(h.len() + db.len()) as int] == tb[0]);
        assert(pa[(h.len() + db.len()) as int] == da[db.len() as int]);
    } else {
        assert forall|i: int| 0 <= i < da.len() implies da[i] == db[i] by {
            assert(pa[h.len() + i] == da[i]);
            assert(s[h.len() + i] == db[i]);
        }
        assert(da =~= db);
        lemma_decimal_injective(a.id, b.id);
    }
}

/// Pastes with different numbers have different placeholders.
pub proof fn law_placeholders_are_distinct(a: BlockView, b: BlockView)
    requires
        placeholder_of(a) == placeholder_of(b),
    ensures
        a.id == b.id,
{
    let s = placeholder_of(b) + Seq::<char>::empty();
    assert(s.subrange(0, placeholder_of(a).len() as int) =~= placeholder_of(a));
    lemma_prefix_has_number(a, b, Seq::empty());
}

/// A piece of an input: what was typed, or a paste by its place in the list
/// of pastes.
pub enum Piece {
    Typed(Seq<char>),
    Paste(int),
}

/// What a piece reads once the first `n` pastes are put in.
pub open spec fn piece_text(piece: Piece, blocks: Seq<BlockView>, n: int) -> Seq<char> {
    match piece {
        Piece::Typed(t) => t,
        Piece::Paste(k) => if k < n {
            blocks[k].text
        } else {
            placeholder_of(blocks[k])
        },
    }
}

/// What pieces read together once the first `n` pastes are put in.
pub open spec fn pieced(pieces: Seq<Piece>, blocks: Seq<BlockView>, n: int) -> Seq<char>
    decreases pieces.len(),
{
    if pieces.len() == 0 {
        Seq::empty()
    } else {
        piece_text(pieces[0], blocks, n) + pieced(pieces.skip(1), blocks, n)
    }
}

/// Whether the paste `k` stands at `i`, once the pastes before it are put
/// in.
pub open spec fn stands_at(pieces: Seq<Piece>, blocks: Seq<BlockView>, k: int, i: int) -> bool
    decreases pieces.len(),
{
    pieces.len() > 0 && ((i == 0 && pieces[0] == Piece::Paste(k)) || stands_at(
        pieces.skip(1),
        blocks,
        k,
        i - piece_text(pieces[0], blocks, k).len(),
    ))
}

/// Whether nothing but the pastes themselves reads as their placeholders,
/// neither what was typed nor what was pasted.
pub open spec fn unmistakable(pieces: Seq<Piece>, blocks: Seq<BlockView>) -> bool {
    forall|k: int, i: int|
        0 <= k < blocks.len() && #[trigger] text::occurs_at(
            pieced(pieces, blocks, k),
            placeholder_of(blocks[k]),
            i,
        ) ==> stands_at(pieces, blocks, k, i)
}

/// Whether the pastes of an input are in the list.
pub open spec fn are_kept(pieces: Seq<Piece>, blocks: Seq<BlockView>) -> bool {
    forall|i: int|
        0 <= i < pieces.len() ==> ((#[trigger] pieces[i]) matches Piece::Paste(k) ==> 0 <= k
            < blocks.len())
}

proof fn lemma_stands_inside(pieces: Seq<Piece>, blocks: Seq<BlockView>, k: int, i: int)
    requires
        i < 0,
    ensures
        !stands_at(pieces, blocks, k, i),
    decreases pieces.len(),
{
    if pieces.len() > 0 {
        lemma_stands_inside(
            pieces.skip(1),
            blocks,
            k,
            i - piece_text(pieces[0], blocks, k).len(),
        );
    }
}

proof fn lemma_replaced_behind(a: Seq<char>, b: Seq<char>, p: Seq<char>, t: Seq<char>)
    requires
        p.len() > 0,
        forall|i: int| 0 <= i < a.len() ==> !#[trigger] text::occurs_at(a + b, p, i),
    ensures
        text::replaced(a + b, p, t) == a + text::replaced(b, p, t),
    decreases a.len(),
{
    let s = a + b;
    if a.len() == 0 {
        assert(s =~= b);
        assert(a + text::replaced(b, p, t) =~= text::replaced(b, p, t));
    } else {
        assert(!text::occurs_at(s, p, 0));
        let a1 = a.skip(1);
        assert(s.skip(1) =~= a1 + b);
        assert forall|i: int| 0 <= i < a1.len() implies !#[trigger] text::occurs_at(
            a1 + b,
            p,
            i,
        ) by {
            if text::occurs_at(a1 + b, p, i) {
                assert(s.subrange(i + 1, i + 1 + p.len()) =~= (a1 + b).subrange(i, i + p.len()));
                assert(text::occurs_at(s, p, i + 1));
            }
        }
        lemma_replaced_behind(a1, b, p, t);
        if s.len() < p.len() {
            assert(a + text::replaced(b, p, t) =~= s);
        } else {
            assert(seq![s[0]] + (a1 + text::replaced(b, p, t)) =~= a + text::replaced(b, p, t));
        }
    }
}

proof fn lemma_put_in(pieces: Seq<Piece>, blocks: Seq<BlockView>, k: int)
    requires
        0 <= k < blocks.len(),
        forall|i: int| #[trigger]
            text::occurs_at(pieced(pieces, blocks, k), placeholder_of(blocks[k]), i) ==> stands_at(
                pieces,
                blocks,
                k,
                i,
            ),
    ensures
        text::replaced(
            pieced(pieces, blocks, k),
            placeholder_of(blocks[k]),
            blocks[k].text,
        ) == pieced(pieces, blocks, k + 1),
    decreases pieces.len(),
{
    let p = placeholder_of(blocks[k]);
    let t = blocks[k].text;
    lemma_placeholder_len(blocks[k]);
    if pieces.len() > 0 {
        let x = piece_text(pieces[0], blocks, k);
        let rest = pieces.skip(1);
        let b = pieced(rest, blocks, k);
        let s = x + b;
        assert(s == pieced(pieces, blocks, k));
        assert forall|i: int| #[trigger] text::occurs_at(b, p, i) implies stands_at(
            rest,
            blocks,
            k,
            i,
        ) by {
            assert(s.subrange(i + x.len(), i + x.len() + p.len()) =~= b.subrange(i, i + p.len()));
            assert(text::occurs_at(s, p, i + x.len()));
        }
        lemma_put_in(rest, blocks, k);
        if pieces[0] == Piece::Paste(k) {
            assert(s.subrange(0, p.len() as int) =~= p);
            assert(s.skip(p.len() as int) =~= b);
        } else {
            assert forall|i: int| 0 <= i < x.len() implies !#[trigger] text::occurs_at(
                s,
                p,
                i,
            ) by {
                if text::occurs_at(s, p, i) {
                    lemma_stands_inside(rest, blocks, k, i - x.len());
                }
            }
            lemma_replaced_behind(x, b, p, t);
        }
    }
}

/// Every paste comes back: where nothing else reads as one of their
/// placeholders, what is submitted is the input with each pasted text in its
/// placeholder's place, and all that was typed as it was.
pub proof fn law_all_pastes_come_back(pieces: Seq<Piece>, blocks: Seq<BlockView>)
    requires
        are_kept(pieces, blocks),
        unmistakable(pieces, blocks),
    ensures
        expanded(blocks, pieced(pieces, blocks, 0)) == pieced(
            pieces,
            blocks,
            blocks.len() as int,
        ),
{
    lemma_put_in_first(pieces, blocks, blocks.len() as int);
    assert(blocks.take(blocks.len() as int) =~= blocks);
}

proof fn lemma_put_in_first(pieces: Seq<Piece>, blocks: Seq<BlockView>, n: int)
    requires
        unmistakable(pieces, blocks),
        0 <= n <= blocks.len(),
    ensures
        expanded(blocks.take(n), pieced(pieces, blocks, 0)) == pieced(pieces, blocks, n),
    decreases n,
{
    if n > 0 {
        lemma_put_in_first(pieces, blocks, n - 1);
        lemma_put_in(pieces, blocks, n - 1);
        assert(blocks.take(n).drop_last() =~= blocks.take(n - 1));
    }
}

/// Whether a text has no opening bracket.
pub open spec fn has_no_bracket(t: Seq<char>) -> bool {
    forall|i: int| 0 <= i < t.len() ==> #[trigger] t[i] != '['
}

proof fn lemma_placeholder_brackets(b: BlockView)
    ensures
        placeholder_of(b)[0] == '[',
        forall|i: int| 0 < i < placeholder_of(b).len() ==> #[trigger] placeholder_of(b)[i] != '[',
{
    reveal_strlit("[Pasted text #");
    reveal_strlit(" +");
    reveal_strlit(" lines]");
    reveal_strlit("]");
    lemma_decimal_digits(b.id);
    lemma_decimal_digits(b.line_count);
    let h = "[Pasted text #"@;
    let d = text::decimal(b.id);
    let p = placeholder_of(b);
    assert forall|i: int| 0 < i < p.len() implies #[trigger] p[i] != '[' by {
        if i < h.len() {
            assert(p[i] == h[i]);
        } else if i < h.len() + d.len() {
            assert(p[i] == d[i - h.len()]);
        } else if b.line_count > 1 {
            let n = text::decimal(b.line_count);
            let at = i - h.len() - d.len();
            if at < 2 {
                assert(p[i] == " +"@[at]);
            } else if at < 2 + n.len() {
                assert(p[i] == n[at - 2]);
            } else {
                assert(p[i] == " lines]"@[at - 2 - n.len()]);
            }
        } else {
            assert(p[i] == "]"@[i - h.len() - d.len()]);
        }
    }
}

/// No placeholder stands in that of another paste.
pub proof fn lemma_other_placeholder_absent(a: BlockView, b: BlockView)
    requires
        a.id != b.id,
    ensures
        !text::contains_text(placeholder_of(b), placeholder_of(a)),
{
    let pa = placeholder_of(a);
    let pb = placeholder_of(b);
    lemma_placeholder_len(a);
    lemma_placeholder_brackets(a);
    lemma_placeholder_brackets(b);
    assert forall|i: int| !text::occurs_at(pb, pa, i) by {
        if text::occurs_at(pb, pa, i) {
            assert(pb.subrange(i, i + pa.len())[0] == pb[i]);
            assert(i == 0);
            assert(pb + Seq::<char>::empty() =~= pb);
            lemma_prefix_has_number(a, b, Seq::empty());
        }
    }
}

/// Of the kept pastes only one has its placeholder at the end of a text.
pub proof fn lemma_suffix_is_the_paste(blocks: Seq<BlockView>, k: int, front: Seq<char>)
    requires
        0 <= k < blocks.len(),
        forall|i: int, j: int|
            0 <= i < j < blocks.len() ==> (#[trigger] blocks[i]).id < (#[trigger] blocks[j]).id,
    ensures
        suffix_of(blocks, front + placeholder_of(blocks[k])) == Some(placeholder_of(blocks[k])),
    decreases blocks.len(),
{
    let pk = placeholder_of(blocks[k]);
    let s = front + pk;
    let n = s.len() as int;
    assert(s.subrange(n - pk.len(), n) =~= pk);
    assert(s.skip(n - pk.len()) =~= pk);
    if k > 0 {
        let p0 = placeholder_of(blocks[0]);
        lemma_placeholder_len(blocks[0]);
        lemma_placeholder_len(blocks[k]);
        lemma_placeholder_brackets(blocks[0]);
        lemma_placeholder_brackets(blocks[k]);
        if text::finishes_with(s, p0) {
            let at = n - p0.len();
            assert(s.subrange(at, n) == p0 || s.skip(at) == p0);
            assert(s[at] == p0[0]);
            if p0.len() > pk.len() {
                assert(s[n - pk.len()] == p0[p0.len() - pk.len()]);
                assert(s[n - pk.len()] == pk[0]);
            } else {
                assert(s[at] == pk[pk.len() - p0.len()]);
                assert(p0.len() == pk.len());
                assert(p0 =~= pk);
                law_placeholders_are_distinct(blocks[0], blocks[k]);
            }
            assert(false);
        }
        let rest = blocks.skip(1);
        assert forall|i: int, j: int| 0 <= i < j < rest.len() implies (#[trigger] rest[i]).id < (
        #[trigger] rest[j]).id by {
            assert(rest[i] == blocks[i + 1] && rest[j] == blocks[j + 1]);
        }
        assert(rest[k - 1] == blocks[k]);
        lemma_suffix_is_the_paste(rest, k - 1, front);
    }
}

/// Where neither what was typed nor what was pasted holds an opening bracket,
/// nothing is mistaken for a placeholder.
pub proof fn law_plain_text_is_unmistakable(pieces: Seq<Piece>, store: StoreView)
    requires
        store.wf(),
        are_kept(pieces, store.blocks),
        forall|i: int|
            0 <= i < pieces.len() ==> ((#[trigger] pieces[i]) matches Piece::Typed(t)
                ==> has_no_bracket(t)),
        forall|i: int|
            0 <= i < store.blocks.len() ==> has_no_bracket((#[trigger] store.blocks[i]).text),
    ensures
        unmistakable(pieces, store.blocks),
{
    assert forall|k: int, i: int|
        0 <= k < store.blocks.len() && #[trigger] text::occurs_at(
            pieced(pieces, store.blocks, k),
            placeholder_of(store.blocks[k]),
            i,
        ) implies stands_at(pieces, store.blocks, k, i) by {
        lemma_plain_stands(pieces, store, k, i);
    }
}

proof fn lemma_plain_stands(pieces: Seq<Piece>, store: StoreView, k: int, i: int)
    requires
        store.wf(),
        are_kept(pieces, store.blocks),
        forall|j: int|
            0 <= j < pieces.len() ==> ((#[trigger] pieces[j]) matches Piece::Typed(t)
                ==> has_no_bracket(t)),
        forall|j: int|
            0 <= j < store.blocks.len() ==> has_no_bracket((#[trigger] store.blocks[j]).text),
        0 <= k < store.blocks.len(),
        text::occurs_at(pieced(pieces, store.blocks, k), placeholder_of(store.blocks[k]), i),
    ensures
        stands_at(pieces, store.blocks, k, i),
    decreases pieces.len(),
{
    let blocks = store.blocks;
    let p = placeholder_of(blocks[k]);
    lemma_placeholder_len(blocks[k]);
    lemma_placeholder_brackets(blocks[k]);
    let s = pieced(pieces, blocks, k);
    assert(s.subrange(i, i + p.len())[0] == s[i]);
    if pieces.len() > 0 {
        let x = piece_text(pieces[0], blocks, k);
        let rest = pieces.skip(1);
        let b = pieced(rest, blocks, k);
        if i < x.len() {
            assert(x[i] == '[');
            match pieces[0] {
                Piece::Typed(t) => {},
                Piece::Paste(m) => {
                    if m >= k {
                        lemma_placeholder_brackets(blocks[m]);
                        lemma_prefix_has_number(blocks[k], blocks[m], b);
                        if m > k {
                            assert(blocks[k].id < blocks[m].id);
                        }
                    }
                },
            }
        } else {
            assert forall|j: int| 0 <= j < rest.len() implies ((#[trigger] rest[j]) matches Piece::Paste(
                m,
            ) ==> 0 <= m < blocks.len()) && (rest[j] matches Piece::Typed(t)
                ==> has_no_bracket(t)) by {
                assert(rest[j] == pieces[j + 1]);
            }
            assert(b.subrange(i - x.len(), i - x.len() + p.len()) =~= s.subrange(i, i + p.len()));
            lemma_plain_stands(rest, store, k, i - x.len());
        }
    }
}

proof fn lemma_others_all(blocks: Seq<BlockView>, placeholder: Seq<char>)
    requires
        forall|i: int| 0 <= i < blocks.len() ==> placeholder_of(#[trigger] blocks[i]) != placeholder,
    ensures
        other_blocks(blocks, placeholder) == blocks,
    decreases blocks.len(),
{
    if blocks.len() > 0 {
        let front = blocks.drop_last();
        assert forall|i: int| 0 <= i < front.len() implies placeholder_of(#[trigger] front[i])
            != placeholder by {
            assert(front[i] == blocks[i]);
        }
        lemma_others_all(front, placeholder);
        assert(blocks.last() == blocks[blocks.len() - 1]);
        assert(front.push(blocks.last()) =~= blocks);
    }
}

proof fn lemma_others_one(blocks: Seq<BlockView>, k: int)
    requires
        0 <= k < blocks.len(),
        forall|i: int, j: int|
            0 <= i < j < blocks.len() ==> (#[trigger] blocks[i]).id < (#[trigger] blocks[j]).id,
    ensures
        other_blocks(blocks, placeholder_of(blocks[k])) == blocks.remove(k),
    decreases blocks.len(),
{
    let p = placeholder_of(blocks[k]);
    let front = blocks.drop_last();
    assert forall|i: int, j: int| 0 <= i < j < front.len() implies (#[trigger] front[i]).id < (
    #[trigger] front[j]).id by {
        assert(front[i] == blocks[i] && front[j] == blocks[j]);
    }
    if k == blocks.len() - 1 {
        assert forall|i: int| 0 <= i < front.len() implies placeholder_of(#[trigger] front[i])
            != p by {
            assert(front[i] == blocks[i]);
            if placeholder_of(front[i]) == p {
                law_placeholders_are_distinct(blocks[i], blocks[k]);
            }
        }
        lemma_others_all(front, p);
        assert(blocks.remove(k) =~= front);
    } else {
        lemma_others_one(front, k);
        let last = blocks[blocks.len() - 1];
        if placeholder_of(last) == p {
            law_placeholders_are_distinct(blocks[k], last);
        }
        assert(blocks.remove(k) =~= front.remove(k).push(last));
    }
}

/// Removing a kept paste by its placeholder removes that paste and no other.
pub proof fn law_remove_is_exact(store: StoreView, k: int)
    requires
        store.wf(),
        0 <= k < store.blocks.len(),
    ensures
        store.without(placeholder_of(store.blocks[k])).blocks == store.blocks.remove(k),
{
    lemma_others_one(store.blocks, k);
}

/// A removed placeholder is gone: removing it again changes nothing.
pub proof fn law_remove_is_final(store: StoreView, placeholder: Seq<char>)
    ensures
        store.without(placeholder).without(placeholder) == store.without(placeholder),
{
    lemma_others_gone(store.blocks, placeholder);
    lemma_others_all(other_blocks(store.blocks, placeholder), placeholder);
}

proof fn lemma_others_gone(blocks: Seq<BlockView>, placeholder: Seq<char>)
    ensures
        forall|i: int|
            0 <= i < other_blocks(blocks, placeholder).len() ==> placeholder_of(
                #[trigger] other_blocks(blocks, placeholder)[i],
            ) != placeholder,
    decreases blocks.len(),
{
    if blocks.len() > 0 {
        lemma_others_gone(blocks.drop_last(), placeholder);
        let rest = other_blocks(blocks.drop_last(), placeholder);
        let all = other_blocks(blocks, placeholder);
        assert forall|i: int| 0 <= i < all.len() implies placeholder_of(#[trigger] all[i])
            != placeholder by {
            if i < rest.len() {
                assert(all[i] == rest[i]);
            }
        }
    }
}

/// After clearing, the first paste has the number one again.
pub proof fn law_clear_restarts_numbers(t: Seq<char>)
    ensures
        StoreView::cleared().with_text(t).blocks.last().id == 1,
{
}

/// A paste that is added is kept: its placeholder is recognised and stands for
/// the pasted text, and every paste that was kept before still is.
pub proof fn law_added_paste_is_kept(store: StoreView, t: Seq<char>)
    requires
        store.wf(),
    ensures
        ({
            let next = store.with_text(t);
            let p = placeholder_of(next.blocks.last());
            &&& next.blocks.len() == store.blocks.len() + 1
            &&& suffix_of(next.blocks, p) == Some(p)
            &&& expanded(next.blocks, p) == t
            &&& forall|i: int|
                0 <= i < store.blocks.len() ==> suffix_of(
                    next.blocks,
                    placeholder_of(#[trigger] store.blocks[i]),
                ) == Some(placeholder_of(store.blocks[i]))
        }),
{
    let next = store.with_text(t);
    let n = store.blocks.len() as int;
    let last = next.blocks.last();
    let p = placeholder_of(last);
    let none = Seq::<char>::empty();
    lemma_with_text_wf(store, t);
    assert(next.blocks.drop_last() =~= store.blocks);
    assert(none + p =~= p);
    lemma_suffix_is_the_paste(next.blocks, n, none);
    assert forall|i: int| 0 <= i < store.blocks.len() implies suffix_of(
        next.blocks,
        placeholder_of(#[trigger] store.blocks[i]),
    ) == Some(placeholder_of(store.blocks[i])) by {
        assert(next.blocks[i] == store.blocks[i]);
        assert(none + placeholder_of(store.blocks[i]) =~= placeholder_of(store.blocks[i]));
        lemma_suffix_is_the_paste(next.blocks, i, none);
    }
    assert forall|i: int| 0 <= i < store.blocks.len() implies !text::contains_text(
        p,
        placeholder_of(#[trigger] store.blocks[i]),
    ) by {
        lemma_other_placeholder_absent(store.blocks[i], last);
    }
    law_expand_keeps_other_text(store.blocks, p);
    lemma_placeholder_len(last);
    assert(none + p + none =~= p);
    assert(none + t + none =~= t);
    assert forall|i: int| #[trigger] text::occurs_at(none + p + none, p, i) implies i
        == none.len() by {}
    lemma_replaced_once(none, p, none, t);
}

/// A change of the store.
pub enum Change {
    Add(Seq<char>),
    Remove(Seq<char>),
}

/// A store after changes.
pub open spec fn changed(start: StoreView, h: Seq<Change>) -> StoreView
    decreases h.len(),
{
    if h.len() == 0 {
        start
    } else {
        let before = changed(start, h.drop_last());
        match h.last() {
            Change::Add(t) => before.with_text(t),
            Change::Remove(p) => before.without(p),
        }
    }
}

/// How many pastes were added.
pub open spec fn added(h: Seq<Change>) -> nat
    decreases h.len(),
{
    if h.len() == 0 {
        0
    } else {
        added(h.drop_last()) + (if h.last() is Add {
            1nat
        } else {
            0
        })
    }
}

/// The paste that the change `i`, an addition, kept.
pub open spec fn kept_by(start: StoreView, h: Seq<Change>, i: int) -> BlockView {
    changed(start, h.take(i + 1)).blocks.last()
}

proof fn lemma_next_counts(start: StoreView, h: Seq<Change>)
    requires
        start.next() == 1,
    ensures
        changed(start, h).next() == added(h) + 1,
    decreases h.len(),
{
    if h.len() > 0 {
        lemma_next_counts(start, h.drop_last());
    }
}

/// The n-th paste that is added to a store that is new or was cleared has the
/// number n, whatever was removed in between.
pub proof fn law_numbers_count_pastes(start: StoreView, h: Seq<Change>, i: int)
    requires
        start.next() == 1,
        0 <= i < h.len(),
        h[i] is Add,
    ensures
        kept_by(start, h, i).id == added(h.take(i + 1)),
{
    let now = h.take(i + 1);
    assert(now.drop_last() =~= h.take(i));
    assert(now.last() == h[i]);
    lemma_next_counts(start, h.take(i));
}

proof fn lemma_added_grows(h: Seq<Change>, i: int, j: int)
    requires
        0 <= i <= j <= h.len(),
    ensures
        added(h.take(i)) <= added(h.take(j)),
    decreases j - i,
{
    if i < j {
        lemma_added_grows(h, i, j - 1);
        assert(h.take(j).drop_last() =~= h.take(j - 1));
    }
}

/// No placeholder is handed out twice before the store is cleared.
pub proof fn law_placeholders_are_handed_out_once(
    start: StoreView,
    h: Seq<Change>,
    i: int,
    j: int,
)
    requires
        start.next() == 1,
        0 <= i < j < h.len(),
        h[i] is Add,
        h[j] is Add,
    ensures
        placeholder_of(kept_by(start, h, i)) != placeholder_of(kept_by(start, h, j)),
{
    law_numbers_count_pastes(start, h, i);
    law_numbers_count_pastes(start, h, j);
    lemma_added_grows(h, i + 1, j);
    assert(h.take(j + 1).drop_last() =~= h.take(j));
    assert(h.take(j + 1).last() == h[j]);
    if placeholder_of(kept_by(start, h, i)) == placeholder_of(kept_by(start, h, j)) {
        law_placeholders_are_distinct(kept_by(start, h, i), kept_by(start, h, j));
    }
}

/// Whether a text has a line end of any kind.
pub open spec fn has_line_end(s: Seq<char>) -> bool {
    s.contains('\n') || s.contains('\r')
}

proof fn lemma_line_end_stays(s: Seq<char>, p: Seq<char>)
    requires
        has_line_end(s),
    ensures
        has_line_end(text::replaced(s, p, "\n"@)),
    decreases s.len(),
{
    reveal_strlit("\n");
    let out = text::replaced(s, p, "\n"@);
    if p.len() == 0 || s.len() < p.len() {
    } else if text::occurs_at(s, p, 0) {
        assert(out[0] == '\n');
        assert(out.contains(out[0]));
    } else {
        assert(out[0] == s[0]);
        assert(out.contains(out[0]));
        if s[0] != '\n' && s[0] != '\r' {
            let rest = s.skip(1);
            let at = choose|i: int| 0 <= i < s.len() && (s[i] == '\n' || s[i] == '\r');
            assert(rest[at - 1] == s[at]);
            assert(rest.contains(rest[at - 1]));
            lemma_line_end_stays(rest, p);
            let more = text::replaced(rest, p, "\n"@);
            let k = choose|i: int| 0 <= i < more.len() && (more[i] == '\n' || more[i] == '\r');
            assert(out[k + 1] == more[k]);
            assert(out.contains(out[k + 1]));
        }
    }
}

/// Text with a line end of any kind has a line feed once it is normalized.
pub proof fn law_line_ends_are_kept(s: Seq<char>)
    requires
        has_line_end(s),
    ensures
        normalized(s).contains('\n'),
{
    lemma_line_end_stays(s, "\r\n"@);
    lemma_line_end_stays(text::replaced(s, "\r\n"@, "\n"@), "\r"@);
    law_normalized_has_no_cr(s);
}

} // verus!
