//! What the tools answer, stated on what they are called with.

use vstd::prelude::*;
use crate::hooks::plan_mode_hook::PlanModeState;
use crate::text;
use crate::text_laws;
use crate::tools::ask_user_question;
use crate::tools::echo;
use crate::tools::edit;
use crate::tools::enter_plan_mode::{self, EnterPlanModeArgs};
use crate::tools::exit_plan_mode::{self, NoAnswer};
use crate::tools::skill_tool::{self, SkillArgs};
use crate::tools::todo::{self, ItemView};
use crate::tools::tool_edit;
use crate::tools::tool_glob::{self, GlobArgs};
use crate::tools::tool_grep::{self, GrepArgs, GrepMatch};
use crate::tools::tool_ls::{self, EntryType, LsArgs, LsEntry};
use crate::tools::tool_shell;
use crate::tools::tool_write;
use crate::tools::write::WriteArgs;
use crate::tools::{self, ErrorView, FsError, FsErrorKind, ProgressView};
use crate::tui::app::SkillView;
use crate::tui::messages::ResponseView;
use crate::tui::slash;

verus! {

// ── Tasks ───────────────────────────────────────────────────────────────

proof fn lemma_count(items: Seq<ItemView>, status: Seq<char>)
    ensures
        todo::count_of(items, status) == 0 <==> (forall|i: int|
            0 <= i < items.len() ==> (#[trigger] items[i]).status != status),
        todo::count_of(items, status) <= 1 <==> (forall|i: int, j: int|
            0 <= i < j < items.len() ==> !((#[trigger] items[i]).status == status && (
            #[trigger] items[j]).status == status)),
    decreases items.len(),
{
    if items.len() > 0 {
        let front = items.drop_last();
        let n = items.len() - 1;
        lemma_count(front, status);
        assert(forall|i: int| 0 <= i < n ==> front[i] == items[i]);
        if todo::count_of(front, status) != 0 {
            let i = choose|i: int| 0 <= i < front.len() && (#[trigger] front[i]).status == status;
            assert(items[i].status == status);
            if items.last().status == status {
                assert(items[i].status == status && items[n].status == status);
            }
        }
        if todo::count_of(front, status) > 1 {
            let (i, j) = choose|i: int, j: int|
                0 <= i < j < front.len() && (#[trigger] front[i]).status == status && (
                #[trigger] front[j]).status == status;
            assert(items[i].status == status && items[j].status == status);
        }
    }
}

/// A list of tasks is taken exactly where each of them is `pending`,
/// `in_progress` or `completed`, and no two are in progress: then it replaces
/// the old one. Else the old one stays, and the arguments are at fault.
pub proof fn law_task_lists(state: Seq<ItemView>, items: Seq<ItemView>)
    ensures
        ({
            let (list, answer) = todo::on_call(state, Ok(items));
            let good = (forall|i: int|
                0 <= i < items.len() ==> ((#[trigger] items[i]).status == "pending"@
                    || items[i].status == "in_progress"@ || items[i].status == "completed"@)) && (
            forall|i: int, j: int|
                0 <= i < j < items.len() ==> !((#[trigger] items[i]).status == "in_progress"@ && (
                #[trigger] items[j]).status == "in_progress"@));
            &&& good ==> answer is Ok && list == items
            &&& !good ==> list == state && (answer matches Err(e) && e is InvalidArgs)
        }),
{
    lemma_count(items, "in_progress"@);
    todo::law_only_lists_in_order_pass(items);
}

/// Of several tasks with a strange status the first is named.
pub proof fn law_first_strange_task_is_named(
    state: Seq<ItemView>,
    a: Seq<ItemView>,
    x: ItemView,
    b: Seq<ItemView>,
)
    requires
        forall|i: int|
            0 <= i < a.len() ==> ((#[trigger] a[i]).status == "pending"@ || a[i].status
                == "in_progress"@ || a[i].status == "completed"@),
        x.status != "pending"@,
        x.status != "in_progress"@,
        x.status != "completed"@,
    ensures
        todo::on_call(state, Ok(a + seq![x] + b)).1 == Err::<Seq<char>, ErrorView>(
            ErrorView::InvalidArgs(
                "invalid status "@ + todo::debug_form(x.status) + " for todo "@ + todo::debug_form(
                    x.content,
                ) + " — must be one of: pending, in_progress, completed"@,
            ),
        ),
{
    let all = a + seq![x] + b;
    lemma_strange(a, x, b);
    assert(all[a.len() as int] == x);
}

proof fn lemma_strange(a: Seq<ItemView>, x: ItemView, b: Seq<ItemView>)
    requires
        forall|i: int| 0 <= i < a.len() ==> todo::is_status((#[trigger] a[i]).status),
        !todo::is_status(x.status),
    ensures
        todo::first_invalid(a) == a.len(),
        todo::first_invalid(a + seq![x] + b) == a.len(),
    decreases a.len() + b.len(),
{
    let all = a + seq![x] + b;
    if a.len() > 0 {
        let f = a.drop_last();
        assert forall|i: int| 0 <= i < f.len() implies todo::is_status(
            (#[trigger] f[i]).status,
        ) by {
            assert(f[i] == a[i]);
        }
        assert(todo::is_status(a[a.len() - 1].status));
        lemma_strange(f, x, Seq::empty());
    }
    if b.len() == 0 {
        assert(all.drop_last() =~= a);
        assert(all.last() == x);
    } else {
        assert(all.drop_last() =~= a + seq![x] + b.drop_last());
        lemma_strange(a, x, b.drop_last());
    }
}

/// Counting goes task by task.
pub proof fn law_tasks_are_counted(
    a: Seq<ItemView>,
    b: Seq<ItemView>,
    x: ItemView,
    status: Seq<char>,
)
    ensures
        todo::count_of(a + b, status) == todo::count_of(a, status) + todo::count_of(b, status),
        todo::count_of(seq![x], status) == (if x.status == status {
            1nat
        } else {
            0nat
        }),
    decreases b.len(),
{
    assert(seq![x].drop_last() =~= Seq::<ItemView>::empty());
    assert(todo::count_of(seq![x].drop_last(), status) == 0);
    if b.len() == 0 {
        assert(a + b =~= a);
    } else {
        assert((a + b).drop_last() =~= a + b.drop_last());
        assert((a + b).last() == b.last());
        law_tasks_are_counted(a, b.drop_last(), x, status);
    }
}

proof fn lemma_part_is_there(
    front: Seq<Seq<char>>,
    part: Seq<char>,
    rest: Seq<Seq<char>>,
    sep: Seq<char>,
)
    requires
        front.len() > 0,
    ensures
        text::contains_text(text::joined(front + seq![part] + rest, sep), sep + part),
        text::begins_with(text::joined(front + seq![part] + rest, sep), text::joined(front, sep)),
{
    let whole = text::joined(front + seq![part] + rest, sep);
    text_laws::law_joining(front, seq![part], part, sep);
    let head = text::joined(front, sep);
    let body = head + sep + part;
    if rest.len() == 0 {
        assert(front + seq![part] + rest =~= front + seq![part]);
        assert(whole == body);
    } else {
        text_laws::law_joining(front + seq![part], rest, part, sep);
        assert(whole == body + sep + text::joined(rest, sep));
    }
    let n = head.len() as int;
    assert(whole.subrange(n, n + (sep + part).len()) =~= sep + part);
    assert(text::occurs_at(whole, sep + part, head.len() as int));
    assert(whole.subrange(0, head.len() as int) =~= head);
}

/// The answer to a list that is taken says how many tasks there are, and of
/// each status that occurs, how many have it.
pub proof fn law_tasks_are_summed_up(items: Seq<ItemView>)
    requires
        items.len() > 0,
    ensures
        ({
            let s = todo::summary(items);
            let done = todo::count_of(items, "completed"@);
            let busy = todo::count_of(items, "in_progress"@);
            let open = todo::count_of(items, "pending"@);
            &&& text::begins_with(
                s,
                "Updated plan: "@ + text::decimal(items.len()) + " todos"@,
            )
            &&& done > 0 ==> text::contains_text(
                s,
                ", "@ + (text::decimal(done) + " ✓ completed"@),
            )
            &&& busy > 0 ==> text::contains_text(s, ", "@ + (text::decimal(busy) + " in progress"@))
            &&& open > 0 ==> text::contains_text(s, ", "@ + (text::decimal(open) + " pending"@))
        }),
{
    let sep = ", "@;
    let head = "Updated plan: "@ + text::decimal(items.len()) + " todos"@;
    let none = Seq::<Seq<char>>::empty();
    let done = todo::part(todo::count_of(items, "completed"@), " ✓ completed"@);
    let busy = todo::part(todo::count_of(items, "in_progress"@), " in progress"@);
    let open = todo::part(todo::count_of(items, "pending"@), " pending"@);
    let all = seq![head] + done + busy + open;
    let s = todo::summary(items);
    text_laws::law_joining(none, none, head, sep);
    if all.len() == 1 {
        assert(all =~= seq![head]);
        assert(s.subrange(0, head.len() as int) =~= head);
    } else {
        assert(all =~= seq![head] + seq![all[1]] + all.skip(2));
        lemma_part_is_there(seq![head], all[1], all.skip(2), sep);
    }
    if done.len() > 0 {
        assert(all =~= seq![head] + seq![done[0]] + (busy + open));
        lemma_part_is_there(seq![head], done[0], busy + open, sep);
    }
    if busy.len() > 0 {
        assert(all =~= (seq![head] + done) + seq![busy[0]] + open);
        lemma_part_is_there(seq![head] + done, busy[0], open, sep);
    }
    if open.len() > 0 {
        assert(all =~= (seq![head] + done + busy) + seq![open[0]] + none);
        lemma_part_is_there(seq![head] + done + busy, open[0], none, sep);
    }
}

// ── Files ───────────────────────────────────────────────────────────────

/// Where a file operation fails, its message is handed on. A tool blames its
/// arguments where they name no file or directory, lead out of the workspace,
/// match nowhere or in several places, or are no pattern, each as far as it
/// uses them; else the work failed.
pub proof fn law_file_errors(e: FsError)
    ensures
        ({
            let m = e.message@;
            let k = e.kind;
            let outside = k == FsErrorKind::WorkspaceEscape;
            let no_file = k == FsErrorKind::NotAFile || outside;
            let fragment = no_file || k == FsErrorKind::NoMatch || k == FsErrorKind::AmbiguousMatch;
            let no_directory = k == FsErrorKind::NotADirectory || outside;
            &&& fragment ==> tools::fs_failure(edit::blames_args(k), m) == ErrorView::InvalidArgs(m)
            &&& !fragment ==> tools::fs_failure(edit::blames_args(k), m) == ErrorView::Execution(m)
            &&& no_file ==> tools::fs_failure(tools::write::blames_args(k), m) == ErrorView::InvalidArgs(m)
            &&& !no_file ==> tools::fs_failure(tools::write::blames_args(k), m) == ErrorView::Execution(m)
            &&& forall|a: tool_edit::EditArgs| no_file ==> #[trigger] tool_edit::answer(
                Ok(a),
                Err(e),
            ) == Err::<Seq<char>, ErrorView>(ErrorView::InvalidArgs(m))
            &&& forall|a: tool_edit::EditArgs| !no_file ==> #[trigger] tool_edit::answer(
                Ok(a),
                Err(e),
            ) == Err::<Seq<char>, ErrorView>(ErrorView::Execution(m))
            &&& forall|a: WriteArgs| no_file ==> #[trigger] tool_write::answer(Ok(a), Err(e))
                == Err::<Seq<char>, ErrorView>(ErrorView::InvalidArgs(m))
            &&& forall|a: WriteArgs| !no_file ==> #[trigger] tool_write::answer(Ok(a), Err(e))
                == Err::<Seq<char>, ErrorView>(ErrorView::Execution(m))
            &&& forall|a: LsArgs| no_directory ==> #[trigger] tool_ls::answer(Ok(a), Err(e)) == Err::<
                Seq<char>,
                ErrorView,
            >(ErrorView::InvalidArgs(m))
            &&& forall|a: LsArgs| !no_directory ==> #[trigger] tool_ls::answer(Ok(a), Err(e))
                == Err::<Seq<char>, ErrorView>(ErrorView::Execution(m))
            &&& forall|a: GlobArgs| k == FsErrorKind::GlobPattern ==> #[trigger] tool_glob::answer(
                Ok(a),
                Err(e),
            ) == Err::<Seq<char>, ErrorView>(ErrorView::InvalidArgs(m))
            &&& forall|a: GlobArgs| k != FsErrorKind::GlobPattern ==> #[trigger] tool_glob::answer(
                Ok(a),
                Err(e),
            ) == Err::<Seq<char>, ErrorView>(ErrorView::Execution(m))
            &&& forall|a: GrepArgs| k == FsErrorKind::Regex ==> #[trigger] tool_grep::answer(
                Ok(a),
                Err(e),
            ) == Err::<Seq<char>, ErrorView>(ErrorView::InvalidArgs(m))
            &&& forall|a: GrepArgs| k != FsErrorKind::Regex ==> #[trigger] tool_grep::answer(
                Ok(a),
                Err(e),
            ) == Err::<Seq<char>, ErrorView>(ErrorView::Execution(m))
        }),
{
}

/// Arguments that could not be decoded are refused as such, whatever the file
/// operation would have said.
pub proof fn law_undecoded_arguments(
    e: String,
    written: Result<(), FsError>,
    edited: Result<String, FsError>,
    files: Result<Vec<String>, FsError>,
    found: Result<Vec<GrepMatch>, FsError>,
    entries: Result<Vec<LsEntry>, FsError>,
)
    ensures
        ({
            let refused = Err::<Seq<char>, ErrorView>(
                ErrorView::InvalidArgs("invalid args: "@ + e@),
            );
            &&& tool_write::answer(Err(e), written) == refused
            &&& tool_edit::answer(Err(e), edited) == refused
            &&& tool_glob::answer(Err(e), files) == refused
            &&& tool_grep::answer(Err(e), found) == refused
            &&& tool_ls::answer(Err(e), entries) == refused
        }),
{
}

/// The files that were found stand one to a line, in their order; the answer
/// says where there are none.
pub proof fn law_files_are_listed(files: Seq<Seq<char>>, f: Seq<char>)
    ensures
        tool_glob::listing(Seq::empty()) == "No files matched."@,
        tool_glob::listing(seq![f]) == f,
        files.len() > 0 ==> tool_glob::listing(files.push(f)) == tool_glob::listing(files)
            + seq!['\n'] + f,
{
    reveal_strlit("\n");
    assert("\n"@ =~= seq!['\n']);
    text_laws::law_joining(files, seq![f], f, "\n"@);
    assert(files.push(f) =~= files + seq![f]);
}

/// The lines that matched stand one to a line, in their order, each behind its
/// file and its number; the answer says where there are none.
pub proof fn law_matches_are_listed(found: Seq<GrepMatch>, m: GrepMatch)
    ensures
        tool_grep::listing(Seq::empty()) == "No matches found."@,
        tool_grep::listing(seq![m]) == m.file_path@ + seq![':'] + text::decimal(
            m.line_number as nat,
        ) + seq![':', ' '] + m.line_content@,
        found.len() > 0 ==> tool_grep::listing(found.push(m)) == tool_grep::listing(found)
            + seq!['\n'] + tool_grep::listing(seq![m]),
{
    reveal_strlit("\n");
    reveal_strlit(":");
    reveal_strlit(": ");
    assert("\n"@ =~= seq!['\n']);
    assert(":"@ =~= seq![':']);
    assert(": "@ =~= seq![':', ' ']);
    let line = tool_grep::match_line(m);
    let lines = |v: Seq<GrepMatch>| Seq::new(v.len(), |i: int| tool_grep::match_line(v[i]));
    assert(lines(seq![m]) =~= seq![line]);
    assert(lines(found.push(m)) =~= lines(found) + seq![line]);
    text_laws::law_joining(lines(found), seq![line], line, "\n"@);
}

/// The entries of a directory stand one to a line, in their order, each with
/// what it is at the start and its name at the end; a directory has no size.
/// The answer says where there are none.
pub proof fn law_entries_are_listed(entries: Seq<LsEntry>, e: LsEntry)
    ensures
        tool_ls::listing(Seq::empty()) == "(empty directory)"@,
        ({
            let line = tool_ls::listing(seq![e]);
            &&& e.entry_type == EntryType::Dir ==> text::begins_with(line, seq!['d', ' '])
            &&& e.entry_type == EntryType::Symlink ==> text::begins_with(line, seq!['l', ' '])
            &&& e.entry_type == EntryType::File ==> text::begins_with(line, seq!['-', ' '])
            &&& e.entry_type == EntryType::Dir ==> text::finishes_with(
                line,
                seq!['-', ' ', ' '] + e.name@,
            )
            &&& e.entry_type != EntryType::Dir ==> text::finishes_with(
                line,
                tool_ls::size_text(e.size, e.scaled@) + seq![' ', ' '] + e.name@,
            )
            &&& entries.len() > 0 ==> tool_ls::listing(entries.push(e)) == tool_ls::listing(entries)
                + seq!['\n'] + line
        }),
{
    reveal_strlit("\n");
    reveal_strlit("d");
    reveal_strlit("l");
    reveal_strlit("-");
    reveal_strlit(" ");
    reveal_strlit("  ");
    assert("\n"@ =~= seq!['\n']);
    assert("  "@ =~= seq![' ', ' ']);
    assert(" "@ =~= seq![' ']);
    assert("d"@ =~= seq!['d']);
    assert("l"@ =~= seq!['l']);
    assert("-"@ =~= seq!['-']);
    let line = tool_ls::entry_line(e);
    let lines = |v: Seq<LsEntry>| Seq::new(v.len(), |i: int| tool_ls::entry_line(v[i]));
    assert(lines(seq![e]) =~= seq![line]);
    assert(lines(entries.push(e)) =~= lines(entries) + seq![line]);
    text_laws::law_joining(lines(entries), seq![line], line, "\n"@);
    let size = if e.entry_type == EntryType::Dir {
        "-"@
    } else {
        tool_ls::size_text(e.size, e.scaled@)
    };
    let end = size + seq![' ', ' '] + e.name@;
    text_laws::law_padding(size, 8, ' ');
    let column = text::padded_left(size, 8, ' ');
    assert(line.subrange(0, 2) =~= line.take(1) + seq![' ']);
    assert(line.take(1) =~= (match e.entry_type {
        EntryType::Dir => "d"@,
        EntryType::Symlink => "l"@,
        EntryType::File => "-"@,
    }));
    if e.entry_type == EntryType::Dir {
        assert(line.subrange(0, 2) =~= seq!['d', ' ']);
    } else if e.entry_type == EntryType::Symlink {
        assert(line.subrange(0, 2) =~= seq!['l', ' ']);
    } else {
        assert(line.subrange(0, 2) =~= seq!['-', ' ']);
    }
    assert(line =~= line.take(2) + column + "  "@ + e.name@);
    assert(column =~= column.take(column.len() - size.len()) + size);
    assert(line.subrange(line.len() - end.len(), line.len() as int) =~= end);
    assert(end =~= size + (seq![' ', ' '] + e.name@));
    assert(seq!['-'] + seq![' ', ' '] =~= seq!['-', ' ', ' ']);
}

/// A size is shown in gigabytes, megabytes or kilobytes of 1024 steps where it
/// reaches one, in the largest that it reaches; else in bytes, and exactly.
pub proof fn law_sizes(bytes: u64, scaled: Seq<char>)
    ensures
        ({
            let s = tool_ls::size_text(bytes, scaled);
            &&& bytes < 1024 ==> s == text::decimal(bytes as nat) + seq![' ', 'B']
            &&& 1024 <= bytes < 1024 * 1024 ==> s == scaled + seq![' ', 'K']
            &&& 1024 * 1024 <= bytes < 1024 * 1024 * 1024 ==> s == scaled + seq![' ', 'M']
            &&& 1024 * 1024 * 1024 <= bytes ==> s == scaled + seq![' ', 'G']
        }),
{
    reveal_strlit(" B");
    reveal_strlit(" K");
    reveal_strlit(" M");
    reveal_strlit(" G");
    assert(" B"@ =~= seq![' ', 'B']);
    assert(" K"@ =~= seq![' ', 'K']);
    assert(" M"@ =~= seq![' ', 'M']);
    assert(" G"@ =~= seq![' ', 'G']);
}

/// A write says how many bytes the content has and where it went, while it
/// works and when it is done; the last report is the only one that ends it.
pub proof fn law_writes_are_reported(a: WriteArgs)
    ensures
        ({
            let v = tools::write::reports(a);
            let amount = text::decimal(vstd::utf8::encode_utf8(a.content@).len()) + " bytes to "@
                + a.file_path@;
            &&& v.len() >= 2
            &&& v.last() == ProgressView::Done("Wrote "@ + amount)
            &&& forall|i: int| 0 <= i < v.len() - 1 ==> #[trigger] v[i] is InProgress
            &&& (v[0] matches ProgressView::InProgress(s) && text::begins_with(
                s,
                "Writing "@ + amount,
            ))
            &&& a.content@.len() == 0 ==> v.len() == 2
            &&& tool_write::answer(Ok(a), Ok(())) == Ok::<Seq<char>, ErrorView>("Wrote "@ + amount)
        }),
{
    text::lemma_byte_len_is_utf8(a.content@);
    let start = "Writing "@ + tools::write::amount(a);
    assert((start + "..."@).subrange(0, start.len() as int) =~= start);
}

/// An edit says which lines it replaced, one by its number and several by the
/// first and the last; the last report is the only one that ends it.
pub proof fn law_edits_are_reported(a: edit::EditArgs, span: edit::EditSpan)
    ensures
        ({
            let v = edit::reports(a, span);
            let first = text::decimal(span.start_line as nat);
            let last = text::decimal(span.end_line as nat);
            let label = if span.start_line == span.end_line {
                "line "@ + first
            } else {
                "lines "@ + first + "-"@ + last
            };
            let head = "Edited "@ + a.file_path@ + ": replaced match at "@ + label + " ("@;
            let old_lines = text::decimal(text::lines_of(a.old_content@).len());
            let new_lines = text::decimal(text::lines_of(a.new_content@).len());
            &&& v.len() >= 2
            &&& (v.last() matches ProgressView::Done(s) && text::begins_with(s, head + old_lines)
                && text::finishes_with(s, new_lines + " lines)"@))
            &&& forall|i: int| 0 <= i < v.len() - 1 ==> #[trigger] v[i] is InProgress
            &&& (v[0] matches ProgressView::InProgress(s) && text::begins_with(
                s,
                "Editing "@ + a.file_path@,
            ))
            &&& a.new_content@.len() == 0 ==> v.len() == 2
        }),
{
    let v = edit::reports(a, span);
    let s = v.last()->Done_0;
    let new_lines = text::decimal(text::lines_of(a.new_content@).len());
    let old_lines = text::decimal(text::lines_of(a.old_content@).len());
    let head = "Edited "@ + a.file_path@ + ": replaced match at "@ + edit::span_label(span) + " ("@;
    assert(s =~= (head + old_lines) + " → "@ + (new_lines + " lines)"@));
    assert(s.subrange(0, (head + old_lines).len() as int) =~= head + old_lines);
    let end = new_lines + " lines)"@;
    assert(s.subrange(s.len() - end.len(), s.len() as int) =~= end);
    let t = v[0]->InProgress_0;
    let start = "Editing "@ + a.file_path@;
    assert(t.subrange(0, start.len() as int) =~= start);
}

/// A preview shows the first line that is not empty behind its label, and how
/// many other lines there are.
pub proof fn law_previews(
    blank: Seq<Seq<char>>,
    line: Seq<char>,
    rest: Seq<Seq<char>>,
    content: Seq<char>,
    label: Seq<char>,
)
    requires
        content.len() > 0,
        text::lines_of(content) == blank + seq![line] + rest,
        forall|i: int| 0 <= i < blank.len() ==> (#[trigger] blank[i]).len() == 0,
        0 < line.len() <= 80,
    ensures
        ({
            let s = tools::preview_of(content, label);
            let n = blank.len() + rest.len();
            &&& text::begins_with(s, label + seq![':', ' '] + line)
            &&& n == 0 ==> s == label + seq![':', ' '] + line
            &&& n > 0 ==> text::finishes_with(s, "(+"@ + text::decimal(n) + " more lines)"@)
        }),
{
    reveal_strlit(": ");
    reveal_strlit(" (+");
    reveal_strlit("(+");
    assert(": "@ =~= seq![':', ' ']);
    assert(" (+"@ =~= seq![' '] + "(+"@);
    lemma_first_line(blank, line, rest);
    let lines = text::lines_of(content);
    let s = tools::preview_of(content, label);
    let n = blank.len() + rest.len();
    assert(lines.len() == n + 1);
    let shown = label + seq![':', ' '] + line;
    assert(s.subrange(0, shown.len() as int) =~= shown);
    if n > 0 {
        let end = "(+"@ + text::decimal(n) + " more lines)"@;
        assert(s =~= shown + seq![' '] + end);
        assert(s.subrange(s.len() - end.len(), s.len() as int) =~= end);
    }
}

proof fn lemma_first_line(blank: Seq<Seq<char>>, line: Seq<char>, rest: Seq<Seq<char>>)
    requires
        forall|i: int| 0 <= i < blank.len() ==> (#[trigger] blank[i]).len() == 0,
        line.len() > 0,
    ensures
        tools::first_line(blank + seq![line] + rest) == line,
    decreases blank.len(),
{
    let all = blank + seq![line] + rest;
    if blank.len() > 0 {
        assert(all[0] == blank[0]);
        assert(all.skip(1) =~= blank.skip(1) + seq![line] + rest);
        lemma_first_line(blank.skip(1), line, rest);
    }
}

/// An echo answers with its text.
pub proof fn law_echoes(a: echo::EchoArgs)
    ensures
        echo::answer(Ok(a)) == Ok::<Seq<char>, ErrorView>(a.text@),
{
}

// ── Questions and plans ─────────────────────────────────────────────────

/// The user gets the choices of the call, in their order; without any, one to
/// write an answer.
pub proof fn law_choices(options: Option<Vec<String>>)
    ensures
        ({
            let v = ask_user_question::choices(options);
            &&& options matches Some(w) ==> (w@.len() > 0 ==> v == text::texts(w@))
            &&& options is None || options->0@.len() == 0 ==> v.len() == 1 && v[0].last() == '…'
        }),
{
    reveal_strlit("Answer…");
    assert("Answer…"@.len() == 7);
}

/// The model gets what the user wrote, or else the choice that they made; it
/// gets an error where they made none, or did not answer.
pub proof fn law_answers(options: Seq<Seq<char>>, i: usize, custom: Seq<char>, why: NoAnswer)
    ensures
        ask_user_question::answer(
            options,
            Ok(ResponseView { chosen: Some(i), custom_text: Some(custom) }),
        ) == Ok::<Seq<char>, ErrorView>(custom),
        i < options.len() ==> ask_user_question::answer(
            options,
            Ok(ResponseView { chosen: Some(i), custom_text: None }),
        ) == Ok::<Seq<char>, ErrorView>(options[i as int]),
        ask_user_question::answer(
            options,
            Ok(ResponseView { chosen: None, custom_text: Some(custom) }),
        ) is Err,
        ask_user_question::answer(options, Ok(ResponseView { chosen: None, custom_text: None }))
            is Err,
        ask_user_question::answer(options, Err(why)) is Err,
{
}

/// Plan mode begins where it was off, the call is in order and the directory
/// of the plan is there; where it was on already, nothing else is asked.
pub proof fn law_plan_mode_begins(
    plan_file: Seq<char>,
    state: PlanModeState,
    e: String,
    directory: Result<(), String>,
)
    ensures
        ({
            let (after, answer) = enter_plan_mode::on_call(
                plan_file,
                state,
                Ok(EnterPlanModeArgs),
                directory,
            );
            &&& after.active <==> state.active || directory is Ok
            &&& answer is Ok <==> after.active
            &&& answer matches Ok(s) ==> text::contains_text(s, plan_file)
            &&& enter_plan_mode::on_call(plan_file, state, Err(e), directory) == (
                state,
                Err::<Seq<char>, ErrorView>(ErrorView::InvalidArgs("invalid args: "@ + e@)),
            )
        }),
{
    let (after, answer) = enter_plan_mode::on_call(
        plan_file,
        state,
        Ok(EnterPlanModeArgs),
        directory,
    );
    if answer is Ok {
        let s = answer->Ok_0;
        let head = if state.active {
            "Already in plan mode. Plan file: "@
        } else {
            "Plan mode activated. You are now in read-only research and planning mode.
Plan file: "@
        };
        let n = head.len() as int;
        assert(s.subrange(n, n + plan_file.len()) =~= plan_file);
        assert(text::occurs_at(s, plan_file, n));
    }
}

/// Where the user approves, plan mode is off and the model hears so; where
/// they want changes, it stays as it was and the model gets what they wrote;
/// in all other cases it stays as it was, and the call failed.
pub proof fn law_plan_mode_ends(
    plan_file: Seq<char>,
    state: PlanModeState,
    blank: bool,
    custom: Option<Seq<char>>,
    i: usize,
    why: NoAnswer,
)
    ensures
        ({
            let on = |c: Option<usize>| exit_plan_mode::on_reply(
                plan_file,
                state,
                blank,
                Ok(ResponseView { chosen: c, custom_text: custom }),
            );
            let (approved, yes) = on(Some(0usize));
            let (kept, feedback) = on(Some(1usize));
            let (cancelled, no) = on(None);
            let (other, odd) = on(Some(i));
            let (silent, nothing) = exit_plan_mode::on_reply(plan_file, state, blank, Err(why));
            &&& !approved.active && yes is Ok
            &&& kept == state && (feedback matches Ok(s) && (custom matches Some(c)
                ==> text::contains_text(s, c)))
            &&& cancelled == state && no is Err
            &&& i > 1 ==> other == state && odd is Err
            &&& silent == state && nothing is Err
        }),
{
    if custom is Some {
        let c = custom->0;
        let s = exit_plan_mode::feedback_text(c, plan_file);
        let head = "The user reviewed your plan and provided suggestions. You are still in plan mode.

─── User Feedback ───

"@;
        let n = head.len() as int;
        assert(s.subrange(n, n + c.len()) =~= c);
        assert(text::occurs_at(s, c, n));
    }
}

/// The user is shown the plan that is in the file, or that there is none.
pub proof fn law_plans_are_shown(plan_file: Seq<char>, plan: Seq<char>)
    ensures
        ({
            let q = exit_plan_mode::question(plan_file, plan);
            &&& text::contains_text(q, plan_file)
            &&& !text::is_blank(plan) ==> text::contains_text(q, plan)
            &&& text::is_blank(plan) ==> text::contains_text(
                q,
                "(Plan file is empty — no plan was written.)"@,
            )
        }),
{
    let q = exit_plan_mode::question(plan_file, plan);
    let head = "The agent has completed its plan and requests approval to proceed.

─── Plan File: "@;
    let middle = " ───

"@;
    let n = head.len() as int;
    assert(q.subrange(n, n + plan_file.len()) =~= plan_file);
    assert(text::occurs_at(q, plan_file, n));
    lemma_blank_plans(plan);
    let shown = if text::is_blank(plan) {
        "(Plan file is empty — no plan was written.)"@
    } else {
        plan
    };
    let k = (head + plan_file + middle).len() as int;
    assert(q.subrange(k, k + shown.len()) =~= shown);
    assert(text::occurs_at(q, shown, k));
}

proof fn lemma_blank_plans(plan: Seq<char>)
    ensures
        exit_plan_mode::is_blank(plan) == text::is_blank(plan),
{
    let none = Seq::<char>::empty();
    if text::is_blank(plan) {
        assert(plan + none + none =~= plan);
        text::law_trimming(plan, none, none);
    } else {
        text::lemma_trimmed_is_inside(plan);
    }
}

// ── Skills ──────────────────────────────────────────────────────────────

proof fn lemma_skill_by_name(skills: Seq<SkillView>, name: Seq<char>)
    ensures
        match slash::skill_by_name(skills, name) {
            Some(s) => exists|i: int|
                0 <= i < skills.len() && #[trigger] skills[i] == s && s.name == name && (forall|j: int|
                    0 <= j < i ==> (#[trigger] skills[j]).name != name),
            None => forall|j: int| 0 <= j < skills.len() ==> (#[trigger] skills[j]).name != name,
        },
    decreases skills.len(),
{
    if skills.len() > 0 && skills[0].name != name {
        let rest = skills.skip(1);
        lemma_skill_by_name(rest, name);
        match slash::skill_by_name(skills, name) {
            Some(s) => {
                let i = choose|i: int|
                    0 <= i < rest.len() && #[trigger] rest[i] == s && s.name == name && (forall|j: int|
                        0 <= j < i ==> (#[trigger] rest[j]).name != name);
                assert(skills[i + 1] == s);
                assert forall|j: int| 0 <= j < i + 1 implies (#[trigger] skills[j]).name != name by {
                    if j > 0 {
                        assert(rest[j - 1] == skills[j]);
                    }
                }
            },
            None => {
                assert forall|j: int| 0 <= j < skills.len() implies (#[trigger] skills[j]).name
                    != name by {
                    if j > 0 {
                        assert(rest[j - 1] == skills[j]);
                    }
                }
            },
        }
    } else if skills.len() > 0 {
        assert(skills[0] == slash::skill_by_name(skills, name)->0);
    }
}

/// A skill is loaded by its exact name: the model gets its content, and it is
/// active from then on. An unknown name is refused, and nothing is loaded.
pub proof fn law_skills_are_loaded(
    registry: Seq<SkillView>,
    active: Seq<(Seq<char>, Seq<char>)>,
    a: SkillArgs,
    k: int,
)
    ensures
        ({
            let (after, answer) = skill_tool::on_call(registry, active, Ok(a));
            let first = 0 <= k < registry.len() && registry[k].name == a.name@ && forall|j: int|
                0 <= j < k ==> (#[trigger] registry[j]).name != a.name@;
            &&& first ==> answer == Ok::<Seq<char>, ErrorView>(registry[k].content)
                && after == slash::activated(active, a.name@, registry[k].content)
            &&& (forall|j: int| 0 <= j < registry.len() ==> (#[trigger] registry[j]).name
                != a.name@) ==> after == active && (answer matches Err(e) && e is InvalidArgs)
        }),
{
    lemma_skill_by_name(registry, a.name@);
}

/// An active skill is replaced in its place, and a new one comes last; the
/// others stay as they are.
pub proof fn law_skills_are_activated(
    a: Seq<(Seq<char>, Seq<char>)>,
    b: Seq<(Seq<char>, Seq<char>)>,
    name: Seq<char>,
    before: Seq<char>,
    content: Seq<char>,
)
    requires
        forall|i: int| 0 <= i < a.len() ==> (#[trigger] a[i]).0 != name,
    ensures
        slash::activated(a, name, content) == a.push((name, content)),
        slash::activated(a + seq![(name, before)] + b, name, content) == a + seq![(name, content)]
            + b,
    decreases a.len(),
{
    let all = a + seq![(name, before)] + b;
    if a.len() == 0 {
        assert(all[0] == (name, before));
        assert(all.skip(1) =~= b);
        assert(a + seq![(name, content)] + b =~= seq![(name, content)] + b);
        assert(a.push((name, content)) =~= seq![(name, content)]);
    } else {
        let t = a.skip(1);
        assert forall|i: int| 0 <= i < t.len() implies (#[trigger] t[i]).0 != name by {
            assert(t[i] == a[i + 1]);
        }
        law_skills_are_activated(t, b, name, before, content);
        assert(all[0] == a[0]);
        assert(all.skip(1) =~= t + seq![(name, before)] + b);
        assert(seq![a[0]] + (t + seq![(name, content)] + b) =~= a + seq![(name, content)] + b);
        assert(seq![a[0]] + t.push((name, content)) =~= a.push((name, content)));
    }
}

// ── Commands ────────────────────────────────────────────────────────────

/// What a command wrote is reported whole where it fits: its output, behind it
/// what it wrote to the error stream under a heading, and at the end its exit
/// code, unless that is zero.
pub proof fn law_commands_are_reported(out: Seq<char>, err: Seq<char>, exit_code: Option<i32>)
    requires
        out.len() > 0 ==> !text::is_space(out.last()),
        err.len() > 0 ==> !text::is_space(err.last()),
        text::byte_len(out) <= 70_000,
        text::byte_len(err) <= 20_000,
    ensures
        ({
            let s = tool_shell::command_report(out, err, exit_code);
            let body = if err.len() == 0 {
                out
            } else if out.len() == 0 {
                err
            } else {
                out + "\n\n[stderr]\n"@ + err
            };
            &&& body.len() > 0 && (exit_code is None || exit_code->0 == 0) ==> s == body
            &&& body.len() > 0 && (exit_code is Some && exit_code->0 != 0) ==> s == body
                + "\n\n[exit code: "@ + text::signed_decimal(exit_code->0 as int) + "]"@
            &&& body.len() == 0 && (exit_code is Some && exit_code->0 != 0) ==> text::contains_text(
                s,
                text::signed_decimal(exit_code->0 as int),
            )
        }),
{
    text::lemma_end_of_bare(out);
    text::lemma_end_of_bare(err);
    reveal_strlit("\n\n[stderr]\n");
    let h = "\n\n[stderr]\n"@;
    assert(h.len() == 11);
    tool_shell::lemma_bytes_of_chars(h);
    tool_shell::lemma_bytes_of_chars(tool_shell::exit_line(exit_code));
    text::lemma_byte_len_add(out, h);
    text::lemma_byte_len_add(out + h, err);
    reveal_strlit("\n\n[exit code: ");
    reveal_strlit("]");
    assert("\n\n[exit code: "@.len() == 14);
    assert("]"@.len() == 1);
    if exit_code is Some {
        tool_shell::lemma_code_is_short(exit_code->0);
        let d = text::signed_decimal(exit_code->0 as int);
        let s = "(exit code: "@ + d + ", no output)"@;
        let n = "(exit code: "@.len() as int;
        assert(s.subrange(n, n + d.len()) =~= d);
        assert(text::occurs_at(s, d, n));
    }
    let m = tool_shell::merged(out, err);
    let line = tool_shell::exit_line(exit_code);
    if m.len() > 0 {
        assert(m + Seq::<char>::empty() =~= m);
        if exit_code is Some && exit_code->0 != 0 {
            assert(m + line =~= m + "\n\n[exit code: "@ + text::signed_decimal(
                exit_code->0 as int,
            ) + "]"@);
        }
    }
}

/// Of an output that is too long the front is reported, nearly as much as a
/// report can hold.
pub proof fn law_long_outputs_keep_their_front(
    out: Seq<char>,
    err: Seq<char>,
    exit_code: Option<i32>,
    k: int,
)
    requires
        out.len() > 0,
        !text::is_space(out.last()),
        0 <= k <= out.len(),
        text::byte_len(out.take(k)) <= 90_000,
    ensures
        text::begins_with(tool_shell::command_report(out, err, exit_code), out.take(k)),
{
    text::lemma_end_of_bare(out);
    let p = out.take(k);
    let limit = 100_000nat;
    let head = tool_shell::limited(out, limit);
    text_laws::lemma_fitting_front_is_kept(out, k, limit);
    text_laws::law_cutting(out, limit);
    assert(head.len() >= k && head.take(k) =~= p);
    assert(head.len() > 0) by {
        if text::byte_len(out) > limit {
            reveal_strlit("…\n[output truncated at ");
        }
    }
    let m = tool_shell::merged(out, err);
    assert(m.len() >= head.len() && m.take(head.len() as int) =~= head);
    assert(m.take(k) =~= p);
    let line = tool_shell::exit_line(exit_code);
    reveal_strlit("\n\n[exit code: ");
    reveal_strlit("]");
    reveal_strlit("…\n[output truncated at 100000 bytes]");
    if exit_code is Some {
        tool_shell::lemma_code_is_short(exit_code->0);
    }
    tool_shell::lemma_bytes_of_chars(line);
    tool_shell::lemma_bytes_of_chars(tool_shell::CUT_NOTICE@);
    let max = text::missing(text::byte_len(line), limit);
    let note = text::byte_len(tool_shell::CUT_NOTICE@);
    assert(note + 90_000 <= max);
    text_laws::lemma_fitting_front_is_kept(m, k, (max - note) as nat);
    text_laws::law_cutting(m, (max - note) as nat);
    let r = tool_shell::command_report(out, err, exit_code);
    assert(r.subrange(0, k) =~= p);
}

/// A command runs as long as is asked, but no longer than is allowed, and at
/// least for a second.
pub proof fn law_timeouts(asked: u64, limit: u64)
    requires
        limit >= 1,
    ensures
        1 <= asked <= limit ==> tool_shell::timeout(Some(asked), limit) == asked,
        asked > limit ==> tool_shell::timeout(Some(asked), limit) == limit,
        asked == 0 ==> tool_shell::timeout(Some(asked), limit) == 1,
        tool_shell::timeout(None, limit) == limit,
{
}

} // verus!
