//! Editing the input: a text and a cursor, which is a byte offset at the
//! start of a character or at the end.

use vstd::prelude::*;
use crate::text;

verus! {

/// A text that is being edited.
pub struct EditView {
    pub input: Seq<char>,
    pub cursor: int,
}

impl EditView {
    /// The cursor stands at the start of a character or at the end.
    pub open spec fn wf(self) -> bool {
        text::is_boundary(self.input, self.cursor)
    }

    /// The cursor's position, in characters.
    pub open spec fn pos(self) -> int {
        text::char_index(self.input, self.cursor)
    }

    /// The same text with the cursor at the character `k`.
    pub open spec fn at(self, k: int) -> EditView {
        EditView { input: self.input, cursor: text::offset_of(self.input, k) as int }
    }

    /// `t` typed at the cursor.
    pub open spec fn typed(self, t: Seq<char>) -> EditView {
        EditView {
            input: self.input.take(self.pos()) + t + self.input.skip(self.pos()),
            cursor: self.cursor + text::byte_len(t),
        }
    }

    /// The `n` characters before the cursor deleted.
    pub open spec fn without_before(self, n: int) -> EditView {
        EditView {
            input: self.input.take(self.pos() - n) + self.input.skip(self.pos()),
            cursor: text::offset_of(self.input, self.pos() - n) as int,
        }
    }

    /// The character before the cursor deleted, if there is one.
    pub open spec fn backspaced(self) -> EditView {
        if self.cursor > 0 {
            self.without_before(1)
        } else {
            self
        }
    }

    /// The character at the cursor deleted, if there is one.
    pub open spec fn deleted(self) -> EditView {
        if self.pos() < self.input.len() {
            EditView {
                input: self.input.take(self.pos()) + self.input.skip(self.pos() + 1),
                cursor: self.cursor,
            }
        } else {
            self
        }
    }

    /// The cursor one character to the left.
    pub open spec fn moved_left(self) -> EditView {
        if self.cursor > 0 {
            self.at(self.pos() - 1)
        } else {
            self
        }
    }

    /// The cursor one character to the right.
    pub open spec fn moved_right(self) -> EditView {
        if self.pos() < self.input.len() {
            self.at(self.pos() + 1)
        } else {
            self
        }
    }

    /// The cursor at the end.
    pub open spec fn moved_end(self) -> EditView {
        EditView { input: self.input, cursor: text::byte_len(self.input) as int }
    }
}

/// Where the line of the character `k` starts.
pub open spec fn line_start(s: Seq<char>, k: int) -> int
    decreases k,
{
    if k <= 0 || k > s.len() {
        0
    } else if s[k - 1] == '\n' {
        k
    } else {
        line_start(s, k - 1)
    }
}

/// Where the line of the character `k` ends.
pub open spec fn line_end(s: Seq<char>, k: int) -> int {
    k + text::first_char(s.skip(k), '\n')
}

/// The column of the character `k` in its line, in bytes.
pub open spec fn column(s: Seq<char>, k: int) -> nat {
    (text::offset_of(s, k) - text::offset_of(s, line_start(s, k))) as nat
}

/// Where a cursor of column `col` goes in the line `s[from..to]`: to that
/// column, or to the end of a shorter line, and never into a character.
pub open spec fn in_line(s: Seq<char>, from: int, to: int, col: nat) -> int {
    from + text::floor_index(s.subrange(from, to), col)
}

/// Where the cursor goes one line up; `None` on the first line.
pub open spec fn up_from(s: Seq<char>, k: int) -> Option<int> {
    let start = line_start(s, k);
    if start == 0 {
        None
    } else {
        Some(in_line(s, line_start(s, start - 1), start - 1, column(s, k)))
    }
}

/// Where the cursor goes one line down; `None` on the last line.
pub open spec fn down_from(s: Seq<char>, k: int) -> Option<int> {
    let end = line_end(s, k);
    if end >= s.len() {
        None
    } else {
        Some(in_line(s, end + 1, line_end(s, end + 1), column(s, k)))
    }
}

pub proof fn lemma_line_start(s: Seq<char>, k: int)
    requires
        0 <= k <= s.len(),
    ensures
        0 <= line_start(s, k) <= k,
        line_start(s, k) > 0 ==> s[line_start(s, k) - 1] == '\n',
    decreases k,
{
    if k > 0 && s[k - 1] != '\n' {
        lemma_line_start(s, k - 1);
    }
}

pub proof fn lemma_floor_index(s: Seq<char>, max: nat)
    ensures
        0 <= text::floor_index(s, max) <= s.len(),
    decreases s.len(),
{
    if s.len() > 0 {
        lemma_floor_index(s.drop_last(), max);
    }
}

/// Up and down stay in the text.
pub proof fn lemma_vertical(s: Seq<char>, k: int)
    requires
        0 <= k <= s.len(),
    ensures
        up_from(s, k) matches Some(j) ==> 0 <= j <= s.len(),
        down_from(s, k) matches Some(j) ==> 0 <= j <= s.len(),
{
    lemma_line_start(s, k);
    let start = line_start(s, k);
    if start > 0 {
        lemma_line_start(s, start - 1);
        lemma_floor_index(s.subrange(line_start(s, start - 1), start - 1), column(s, k));
    }
    text::lemma_first_char(s.skip(k), '\n');
    let end = line_end(s, k);
    if end < s.len() {
        text::lemma_first_char(s.skip(end + 1), '\n');
        lemma_floor_index(s.subrange(end + 1, line_end(s, end + 1)), column(s, k));
    }
}

/// A cursor at the character `k` is well placed.
pub proof fn lemma_at(e: EditView, k: int)
    requires
        0 <= k <= e.input.len(),
    ensures
        e.at(k).wf(),
        e.at(k).pos() == k,
{
    text::lemma_char_index(e.input, k);
}

pub proof fn lemma_pos(e: EditView)
    requires
        e.wf(),
    ensures
        0 <= e.pos() <= e.input.len(),
        text::offset_of(e.input, e.pos()) == e.cursor,
        e.cursor == 0 <==> e.pos() == 0,
        e.cursor == text::byte_len(e.input) <==> e.pos() == e.input.len(),
        0 <= e.cursor <= text::byte_len(e.input),
{
    text::lemma_offset_end(e.input);
    text::lemma_offset_mono(e.input, 0, e.pos());
    text::lemma_offset_mono(e.input, e.pos(), e.input.len() as int);
}

pub proof fn lemma_typed(e: EditView, t: Seq<char>)
    requires
        e.wf(),
    ensures
        e.typed(t).wf(),
        e.typed(t).pos() == e.pos() + t.len(),
{
    lemma_pos(e);
    let f = e.typed(t);
    let k = e.pos() + t.len() as int;
    assert(f.input.take(k) =~= e.input.take(e.pos()) + t);
    text::lemma_byte_len_add(e.input.take(e.pos()), t);
    text::lemma_char_index(f.input, k);
}

pub proof fn lemma_without_before(e: EditView, n: int)
    requires
        e.wf(),
        0 <= n <= e.pos(),
    ensures
        e.without_before(n).wf(),
        e.without_before(n).pos() == e.pos() - n,
{
    lemma_pos(e);
    let f = e.without_before(n);
    let k = e.pos() - n;
    assert(f.input.take(k) =~= e.input.take(k));
    text::lemma_char_index(f.input, k);
}

pub proof fn lemma_deleted(e: EditView)
    requires
        e.wf(),
    ensures
        e.deleted().wf(),
        e.deleted().pos() == e.pos(),
{
    lemma_pos(e);
    let f = e.deleted();
    if e.pos() < e.input.len() {
        assert(f.input.take(e.pos()) =~= e.input.take(e.pos()));
        text::lemma_char_index(f.input, e.pos());
    }
}

pub proof fn lemma_ends(s: Seq<char>)
    ensures
        text::is_boundary(s, 0),
        text::is_boundary(s, text::byte_len(s) as int),
        text::char_index(s, 0) == 0,
        text::char_index(s, text::byte_len(s) as int) == s.len(),
{
    text::lemma_offset_end(s);
    text::lemma_char_index(s, 0);
    text::lemma_char_index(s, s.len() as int);
}

/// The text and cursor that are being edited.
pub open spec fn edit(input: String, cursor: usize) -> EditView {
    EditView { input: input@, cursor: cursor as int }
}

fn cursor_index(input: &String, cursor: usize) -> (r: (Vec<char>, usize))
    requires
        edit(*input, cursor).wf(),
    ensures
        r.0@ == input@,
        r.1 == edit(*input, cursor).pos(),
        r.1 <= input@.len(),
        text::byte_len(input@) <= usize::MAX,
{
    let n: usize = text::byte_len_of(input.as_str());
    let cs = text::chars_of(input.as_str());
    let k: usize = text::index_at(&cs, cursor);
    (cs, k)
}

/// Types `t` at the cursor.
pub fn type_text(input: &String, cursor: usize, t: &str) -> (r: (String, usize))
    requires
        edit(*input, cursor).wf(),
    ensures
        edit(r.0, r.1) == edit(*input, cursor).typed(t@),
{
    let (cs, k) = cursor_index(input, cursor);
    let head = text::string_of_range(&cs, 0, k);
    let tail = text::string_of_range(&cs, k, cs.len());
    let out = text::cat3(head.as_str(), t, tail.as_str());
    let n: usize = text::byte_len_of(t);
    let total: usize = text::byte_len_of(out.as_str());
    proof {
        let e = edit(*input, cursor);
        assert(cs@.subrange(0, k as int) =~= e.input.take(e.pos()));
        assert(cs@.subrange(k as int, cs@.len() as int) =~= e.input.skip(e.pos()));
        lemma_typed(e, t@);
        lemma_pos(e.typed(t@));
    }
    (out, cursor + n)
}

/// Types the character `c` at the cursor.
pub fn type_char(input: &String, cursor: usize, c: char) -> (r: (String, usize))
    requires
        edit(*input, cursor).wf(),
    ensures
        edit(r.0, r.1) == edit(*input, cursor).typed(seq![c]),
{
    let mut t = String::new();
    text::push_char(&mut t, c);
    assert(t@ =~= seq![c]);
    type_text(input, cursor, t.as_str())
}

/// Deletes the `n` characters before the cursor.
pub fn delete_before(input: &String, cursor: usize, n: usize) -> (r: (String, usize))
    requires
        edit(*input, cursor).wf(),
        n <= edit(*input, cursor).pos(),
    ensures
        edit(r.0, r.1) == edit(*input, cursor).without_before(n as int),
{
    let (cs, k) = cursor_index(input, cursor);
    let head = text::string_of_range(&cs, 0, k - n);
    let tail = text::string_of_range(&cs, k, cs.len());
    let out = text::cat2(head.as_str(), tail.as_str());
    proof {
        let e = edit(*input, cursor);
        assert(cs@.subrange(0, k - n) =~= e.input.take(e.pos() - n));
        assert(cs@.subrange(k as int, cs@.len() as int) =~= e.input.skip(e.pos()));
    }
    (out, text::offset_at(&cs, k - n))
}

/// Deletes the character before the cursor, if there is one.
pub fn backspace(input: &String, cursor: usize) -> (r: (String, usize))
    requires
        edit(*input, cursor).wf(),
    ensures
        edit(r.0, r.1) == edit(*input, cursor).backspaced(),
{
    proof {
        lemma_pos(edit(*input, cursor));
    }
    if cursor > 0 {
        delete_before(input, cursor, 1)
    } else {
        (input.clone(), cursor)
    }
}

/// Deletes the character at the cursor, if there is one.
pub fn delete_at_cursor(input: &String, cursor: usize) -> (r: String)
    requires
        edit(*input, cursor).wf(),
    ensures
        edit(r, cursor) == edit(*input, cursor).deleted(),
{
    let (cs, k) = cursor_index(input, cursor);
    if k < cs.len() {
        let head = text::string_of_range(&cs, 0, k);
        let tail = text::string_of_range(&cs, k + 1, cs.len());
        proof {
            let e = edit(*input, cursor);
            assert(cs@.subrange(0, k as int) =~= e.input.take(e.pos()));
            assert(cs@.subrange(k + 1, cs@.len() as int) =~= e.input.skip(e.pos() + 1));
        }
        text::cat2(head.as_str(), tail.as_str())
    } else {
        input.clone()
    }
}

/// The byte offset of the character before the cursor.
pub fn prev_char_boundary(input: &String, cursor: usize) -> (r: usize)
    requires
        edit(*input, cursor).wf(),
    ensures
        r == edit(*input, cursor).moved_left().cursor,
{
    if cursor == 0 {
        return 0;
    }
    let (cs, k) = cursor_index(input, cursor);
    proof {
        lemma_pos(edit(*input, cursor));
    }
    text::offset_at(&cs, k - 1)
}

/// The byte offset of the character behind the one at the cursor.
pub fn next_char_boundary(input: &String, cursor: usize) -> (r: usize)
    requires
        edit(*input, cursor).wf(),
    ensures
        r == edit(*input, cursor).moved_right().cursor,
{
    let (cs, k) = cursor_index(input, cursor);
    if k < cs.len() {
        text::offset_at(&cs, k + 1)
    } else {
        cursor
    }
}

fn find_line_start(cs: &Vec<char>, k: usize) -> (r: usize)
    requires
        k <= cs@.len(),
    ensures
        r == line_start(cs@, k as int),
        r <= k,
{
    let mut i: usize = k;
    while i > 0 && cs[i - 1] != '\n'
        invariant
            i <= k <= cs@.len(),
            line_start(cs@, i as int) == line_start(cs@, k as int),
        decreases i,
    {
        i = i - 1;
    }
    i
}

fn place_in_line(cs: &Vec<char>, from: usize, to: usize, col: usize) -> (r: usize)
    requires
        from <= to <= cs@.len(),
        text::byte_len(cs@) <= usize::MAX,
    ensures
        r == in_line(cs@, from as int, to as int, col as nat),
        from <= r <= to,
{
    let mut line: Vec<char> = Vec::new();
    let mut i: usize = from;
    while i < to
        invariant
            from <= i <= to <= cs@.len(),
            line@ == cs@.subrange(from as int, i as int),
        decreases to - i,
    {
        line.push(cs[i]);
        i = i + 1;
        assert(line@ =~= cs@.subrange(from as int, i as int));
    }
    proof {
        let a = cs@.take(from as int);
        let b = cs@.skip(to as int);
        assert(cs@ =~= a + line@ + b);
        text::lemma_byte_len_add(a + line@, b);
        text::lemma_byte_len_add(a, line@);
    }
    from + text::floor_chars(&line, col)
}

fn column_of(cs: &Vec<char>, start: usize, k: usize) -> (r: usize)
    requires
        start <= k <= cs@.len(),
        start == line_start(cs@, k as int),
        text::byte_len(cs@) <= usize::MAX,
    ensures
        r == column(cs@, k as int),
{
    proof {
        text::lemma_offset_mono(cs@, start as int, k as int);
    }
    text::offset_at(cs, k) - text::offset_at(cs, start)
}

/// The cursor one line up; `None` on the first line.
pub fn cursor_up(input: &String, cursor: usize) -> (r: Option<usize>)
    requires
        edit(*input, cursor).wf(),
    ensures
        match r {
            Some(c) => up_from(input@, edit(*input, cursor).pos()) matches Some(j) && c
                == text::offset_of(input@, j),
            None => up_from(input@, edit(*input, cursor).pos()) is None,
        },
{
    let (cs, k) = cursor_index(input, cursor);
    let start: usize = find_line_start(&cs, k);
    if start == 0 {
        return None;
    }
    let prev: usize = find_line_start(&cs, start - 1);
    let col: usize = column_of(&cs, start, k);
    let j: usize = place_in_line(&cs, prev, start - 1, col);
    Some(text::offset_at(&cs, j))
}

/// The cursor one line down; `None` on the last line.
pub fn cursor_down(input: &String, cursor: usize) -> (r: Option<usize>)
    requires
        edit(*input, cursor).wf(),
    ensures
        match r {
            Some(c) => down_from(input@, edit(*input, cursor).pos()) matches Some(j) && c
                == text::offset_of(input@, j),
            None => down_from(input@, edit(*input, cursor).pos()) is None,
        },
{
    let (cs, k) = cursor_index(input, cursor);
    let end: usize = text::find_char(&cs, '\n', k);
    if end >= cs.len() {
        return None;
    }
    let next_end: usize = text::find_char(&cs, '\n', end + 1);
    let start: usize = find_line_start(&cs, k);
    let col: usize = column_of(&cs, start, k);
    let j: usize = place_in_line(&cs, end + 1, next_end, col);
    Some(text::offset_at(&cs, j))
}

// ── Laws ────────────────────────────────────────────────────────────────

/// Typing a character and deleting it backwards restores text and cursor.
pub proof fn law_backspace_undoes_typing(e: EditView, c: char)
    requires
        e.wf(),
    ensures
        e.typed(seq![c]).backspaced() == e,
{
    let f = e.typed(seq![c]);
    lemma_pos(e);
    lemma_typed(e, seq![c]);
    lemma_pos(f);
    assert(f.input.take(e.pos()) + f.input.skip(e.pos() + 1) =~= e.input);
    assert(f.input.take(e.pos()) =~= e.input.take(e.pos()));
}

/// A step to the left takes back a step to the right, except at the end.
pub proof fn law_left_undoes_right(e: EditView)
    requires
        e.wf(),
        e.pos() < e.input.len(),
    ensures
        e.moved_right().moved_left() == e,
{
    lemma_pos(e);
    lemma_at(e, e.pos() + 1);
    lemma_pos(e.moved_right());
}

/// Every edit leaves the cursor at the start of a character or at the end.
pub proof fn law_edits_keep_the_cursor(e: EditView, t: Seq<char>)
    requires
        e.wf(),
    ensures
        e.typed(t).wf(),
        e.backspaced().wf(),
        e.deleted().wf(),
        e.moved_left().wf(),
        e.moved_right().wf(),
        e.moved_end().wf(),
        up_from(e.input, e.pos()) matches Some(j) ==> e.at(j).wf(),
        down_from(e.input, e.pos()) matches Some(j) ==> e.at(j).wf(),
{
    lemma_pos(e);
    lemma_typed(e, t);
    lemma_deleted(e);
    lemma_ends(e.input);
    lemma_vertical(e.input, e.pos());
    if e.cursor > 0 {
        lemma_without_before(e, 1);
        lemma_at(e, e.pos() - 1);
    }
    if e.pos() < e.input.len() {
        lemma_at(e, e.pos() + 1);
    }
    if up_from(e.input, e.pos()) is Some {
        lemma_at(e, up_from(e.input, e.pos())->0);
    }
    if down_from(e.input, e.pos()) is Some {
        lemma_at(e, down_from(e.input, e.pos())->0);
    }
}

/// A text with the cursor between its two parts.
pub open spec fn between(a: Seq<char>, b: Seq<char>) -> EditView {
    EditView { input: a + b, cursor: vstd::utf8::encode_utf8(a).len() as int }
}

/// The cursor between two parts of a text is well placed, behind the
/// characters of the first.
pub proof fn lemma_between(a: Seq<char>, b: Seq<char>)
    ensures
        between(a, b).wf(),
        between(a, b).pos() == a.len(),
        between(a, b).cursor == text::byte_len(a),
        text::offset_of(a + b, a.len() as int) == text::byte_len(a),
        between(a, b).cursor == 0 <==> a.len() == 0,
{
    text::lemma_byte_len_is_utf8(a);
    assert((a + b).take(a.len() as int) =~= a);
    text::lemma_char_index(a + b, a.len() as int);
    lemma_pos(between(a, b));
}

/// Delete removes the character at the cursor and nothing else; at the end it
/// does nothing.
pub proof fn law_delete_removes_one_character(a: Seq<char>, c: char, b: Seq<char>)
    ensures
        between(a, seq![c] + b).deleted() == between(a, b),
        between(a, Seq::empty()).deleted() == between(a, Seq::empty()),
{
    lemma_between(a, seq![c] + b);
    lemma_between(a, Seq::empty());
    let s = a + (seq![c] + b);
    assert(s.take(a.len() as int) + s.skip(a.len() as int + 1) =~= a + b);
}

/// Backspace removes the character before the cursor and nothing else; at the
/// start it does nothing.
pub proof fn law_backspace_removes_one_character(a: Seq<char>, c: char, b: Seq<char>)
    ensures
        between(a.push(c), b).backspaced() == between(a, b),
        between(Seq::empty(), b).backspaced() == between(Seq::empty(), b),
{
    lemma_between(a.push(c), b);
    lemma_between(a, b);
    lemma_between(Seq::empty(), b);
    let s = a.push(c) + b;
    assert(s.take(a.len() as int) =~= a);
    assert(s.take(a.len() as int) + s.skip(a.len() as int + 1) =~= a + b);
    lemma_pos(between(a.push(c), b));
}

/// Typing puts the text at the cursor, and the cursor behind it.
pub proof fn law_typing_inserts(a: Seq<char>, t: Seq<char>, b: Seq<char>)
    ensures
        between(a, b).typed(t) == between(a + t, b),
{
    lemma_between(a, b);
    lemma_between(a + t, b);
    text::lemma_byte_len_add(a, t);
    let s = a + b;
    assert(s.take(a.len() as int) + t + s.skip(a.len() as int) =~= a + t + b);
}

/// Left and Right move the cursor over one character and change no text; at
/// the start and at the end it stays.
pub proof fn law_steps_move_over_one_character(a: Seq<char>, c: char, b: Seq<char>)
    ensures
        between(a.push(c), b).moved_left() == between(a, seq![c] + b),
        between(a, seq![c] + b).moved_right() == between(a.push(c), b),
        between(Seq::empty(), b).moved_left() == between(Seq::empty(), b),
        between(a, Seq::empty()).moved_right() == between(a, Seq::empty()),
{
    lemma_between(a.push(c), b);
    lemma_between(a, seq![c] + b);
    lemma_between(Seq::empty(), b);
    lemma_between(a, Seq::empty());
    lemma_pos(between(a.push(c), b));
    assert(a.push(c) + b =~= a + (seq![c] + b));
}

/// Home and End move the cursor to the start and to the end of the text, and
/// change no text.
pub proof fn law_home_and_end(a: Seq<char>, b: Seq<char>)
    ensures
        between(a, b).at(0) == between(Seq::empty(), a + b),
        between(a, b).moved_end() == between(a + b, Seq::empty()),
{
    lemma_between(Seq::empty(), a + b);
    lemma_between(a + b, Seq::empty());
    assert(Seq::<char>::empty() + (a + b) =~= a + b);
    assert((a + b) + Seq::<char>::empty() =~= a + b);
    assert((a + b).take(0) =~= Seq::<char>::empty());
}

/// Delete is a step to the right and a backspace.
pub proof fn law_delete_is_right_and_backspace(e: EditView)
    requires
        e.wf(),
        e.pos() < e.input.len(),
    ensures
        e.deleted() == e.moved_right().backspaced(),
{
    lemma_pos(e);
    let k = e.pos();
    let a = e.input.take(k);
    let c = e.input[k];
    let b = e.input.skip(k + 1);
    text::lemma_byte_len_is_utf8(a);
    assert(a + (seq![c] + b) =~= e.input);
    assert(e == between(a, seq![c] + b));
    law_delete_removes_one_character(a, c, b);
    law_steps_move_over_one_character(a, c, b);
    law_backspace_removes_one_character(a, c, b);
}

/// Typing a character, a step to the left and Delete give the old text and
/// cursor back.
pub proof fn law_delete_undoes_typing(e: EditView, c: char)
    requires
        e.wf(),
    ensures
        e.typed(seq![c]).moved_left().deleted() == e,
{
    lemma_pos(e);
    let k = e.pos();
    let a = e.input.take(k);
    let b = e.input.skip(k);
    text::lemma_byte_len_is_utf8(a);
    assert(a + b =~= e.input);
    assert(e == between(a, b));
    law_typing_inserts(a, seq![c], b);
    assert(a + seq![c] =~= a.push(c));
    law_steps_move_over_one_character(a, c, b);
    law_delete_removes_one_character(a, c, b);
}

/// Whether a text has no line feed.
pub open spec fn is_one_line(s: Seq<char>) -> bool {
    forall|i: int| 0 <= i < s.len() ==> #[trigger] s[i] != '\n'
}

/// Whether what comes before a line ends there.
pub open spec fn is_before_line(s: Seq<char>) -> bool {
    s.len() == 0 || s.last() == '\n'
}

/// Whether a line ends where this follows.
pub open spec fn is_behind_line(s: Seq<char>) -> bool {
    s.len() == 0 || s[0] == '\n'
}

/// Whether `n` characters of a line are those that end within `col` bytes.
pub open spec fn reaches(line: Seq<char>, n: int, col: nat) -> bool {
    &&& 0 <= n <= line.len()
    &&& vstd::utf8::encode_utf8(line.take(n)).len() <= col
    &&& n < line.len() ==> vstd::utf8::encode_utf8(line.take(n + 1)).len() > col
}

proof fn lemma_floor_reaches(line: Seq<char>, col: nat)
    ensures
        reaches(line, text::floor_index(line, col), col),
    decreases line.len(),
{
    let n = text::floor_index(line, col);
    lemma_floor_index(line, col);
    if text::byte_len(line) <= col || line.len() == 0 {
        assert(line.take(line.len() as int) =~= line);
        text::lemma_byte_len_is_utf8(line);
    } else {
        let front = line.drop_last();
        lemma_floor_reaches(front, col);
        lemma_floor_index(front, col);
        assert(front.take(n) =~= line.take(n));
        if n + 1 <= front.len() {
            assert(front.take(n + 1) =~= line.take(n + 1));
        } else {
            assert(line.take(n + 1) =~= line);
            text::lemma_byte_len_is_utf8(line);
        }
    }
}

proof fn lemma_line_start_is(s: Seq<char>, start: int, k: int)
    requires
        0 <= start <= k <= s.len(),
        start == 0 || s[start - 1] == '\n',
        forall|i: int| start <= i < k ==> #[trigger] s[i] != '\n',
    ensures
        line_start(s, k) == start,
    decreases k - start,
{
    if k > start {
        assert(s[k - 1] != '\n');
        lemma_line_start_is(s, start, k - 1);
    }
}

/// Up goes to the line above, to the character at the same column in bytes, or
/// to the end of a shorter line; on the first line there is none above.
pub proof fn law_up_goes_to_the_line_above(
    a: Seq<char>,
    l: Seq<char>,
    x: Seq<char>,
    b: Seq<char>,
)
    requires
        is_before_line(a),
        is_one_line(l),
        is_one_line(x),
    ensures
        up_from(a + l + seq!['\n'] + x + b, (a.len() + l.len() + 1 + x.len()) as int) matches Some(j)
            && reaches(l, j - a.len(), vstd::utf8::encode_utf8(x).len()),
        up_from(x + b, x.len() as int) is None,
{
    let s = a + l + seq!['\n'] + x + b;
    let end = (a.len() + l.len()) as int;
    let k = end + 1 + x.len();
    assert(s[end] == '\n');
    assert forall|i: int| end + 1 <= i < k implies #[trigger] s[i] != '\n' by {
        assert(s[i] == x[i - end - 1]);
    }
    lemma_line_start_is(s, end + 1, k);
    assert forall|i: int| a.len() <= i < end implies #[trigger] s[i] != '\n' by {
        assert(s[i] == l[i - a.len()]);
    }
    if a.len() > 0 {
        assert(s[a.len() - 1] == a.last());
    }
    lemma_line_start_is(s, a.len() as int, end);
    assert(s.subrange(a.len() as int, end) =~= l);
    let head = a + l + seq!['\n'];
    assert(s.take(k) =~= head + x);
    assert(s.take(end + 1) =~= head);
    text::lemma_byte_len_add(head, x);
    text::lemma_byte_len_is_utf8(x);
    lemma_floor_reaches(l, text::byte_len(x));
    let f = x + b;
    assert forall|i: int| 0 <= i < x.len() implies #[trigger] f[i] != '\n' by {
        assert(f[i] == x[i]);
    }
    lemma_line_start_is(f, 0, x.len() as int);
}

proof fn lemma_first_char_is(s: Seq<char>, n: int)
    requires
        0 <= n <= s.len(),
        forall|i: int| 0 <= i < n ==> #[trigger] s[i] != '\n',
        n == s.len() || s[n] == '\n',
    ensures
        text::first_char(s, '\n') == n,
{
    text::lemma_first_char(s, '\n');
    let m = text::first_char(s, '\n');
    if m < n {
        assert(s[m] != '\n');
    }
}

/// Down goes to the line below, to the character at the same column in bytes,
/// or to the end of a shorter line; on the last line there is none below.
pub proof fn law_down_goes_to_the_line_below(
    a: Seq<char>,
    x: Seq<char>,
    y: Seq<char>,
    l: Seq<char>,
    b: Seq<char>,
)
    requires
        is_before_line(a),
        is_one_line(x),
        is_one_line(y),
        is_one_line(l),
        is_behind_line(b),
    ensures
        down_from(a + x + y + seq!['\n'] + l + b, (a.len() + x.len()) as int) matches Some(j)
            && reaches(
            l,
            j - (a.len() + x.len() + y.len() + 1),
            vstd::utf8::encode_utf8(x).len(),
        ),
        down_from(a + x + y, (a.len() + x.len()) as int) is None,
{
    let s = a + x + y + seq!['\n'] + l + b;
    let k = (a.len() + x.len()) as int;
    let end = k + y.len();
    let below = s.skip(k);
    assert forall|i: int| 0 <= i < y.len() implies #[trigger] below[i] != '\n' by {
        assert(below[i] == y[i]);
    }
    assert(below[y.len() as int] == '\n');
    lemma_first_char_is(below, y.len() as int);
    assert(line_end(s, k) == end);
    let next = s.skip(end + 1);
    assert forall|i: int| 0 <= i < l.len() implies #[trigger] next[i] != '\n' by {
        assert(next[i] == l[i]);
    }
    if b.len() > 0 {
        assert(next[l.len() as int] == b[0]);
    }
    lemma_first_char_is(next, l.len() as int);
    assert(s.subrange(end + 1, end + 1 + l.len()) =~= l);
    if a.len() > 0 {
        assert(s[a.len() - 1] == a.last());
    }
    assert forall|i: int| a.len() <= i < k implies #[trigger] s[i] != '\n' by {
        assert(s[i] == x[i - a.len()]);
    }
    lemma_line_start_is(s, a.len() as int, k);
    assert(s.take(k) =~= a + x);
    assert(s.take(a.len() as int) =~= a);
    text::lemma_byte_len_add(a, x);
    text::lemma_byte_len_is_utf8(x);
    lemma_floor_reaches(l, text::byte_len(x));
    let f = a + x + y;
    assert(f.skip(k) =~= y);
    lemma_first_char_is(y, y.len() as int);
}

} // verus!
