//! A task list that the model keeps.

use vstd::prelude::*;
use crate::text;
use crate::tools::{self, reject_args, ErrorView, Param, ParamType, ToolDef, ToolError};

verus! {

/// The marker of the message that shows the task list to the model.
pub const TODO_MARKER: &'static str = "[TODO]";

/// What the model reads about the tool.
pub const DESCRIPTION: &'static str = "Create and update a structured task list (plan) for the current work session. Use this tool BEFORE writing any code to plan your approach. Break the work into clear, verifiable steps.\n\nEach call REPLACES the entire list — include ALL items (pending, in_progress, and completed). Status values:\n- \"pending\": not yet started\n- \"in_progress\": currently working on (at most ONE at a time)\n- \"completed\": finished\n\nWhen to use:\n- Before starting any multi-step task\n- To track progress across multiple tool calls\n- To mark tasks done as you complete them\n\nWhen NOT to use:\n- For trivial single-step requests\n- As a substitute for actually doing the work";

/// A task.
#[derive(Clone, Debug)]
pub struct TodoItem {
    /// What is to be done.
    pub content: String,
    /// `pending`, `in_progress` or `completed`.
    pub status: String,
    /// How the task is called while it is in progress.
    pub active_form: String,
}

/// What a task holds.
pub struct ItemView {
    pub content: Seq<char>,
    pub status: Seq<char>,
    pub active_form: Seq<char>,
}

impl View for TodoItem {
    type V = ItemView;

    open spec fn view(&self) -> ItemView {
        ItemView { content: self.content@, status: self.status@, active_form: self.active_form@ }
    }
}

/// What each task of a list holds.
pub open spec fn items_view(v: Seq<TodoItem>) -> Seq<ItemView> {
    v.map_values(|t: TodoItem| t@)
}

/// The arguments of the tool: the whole list.
#[derive(Clone, Debug)]
pub struct TodoToolArgs {
    pub todos: Vec<TodoItem>,
}

// ── What a call does ────────────────────────────────────────────────────

/// Whether a status is one of the three.
pub open spec fn is_status(s: Seq<char>) -> bool {
    s == "pending"@ || s == "in_progress"@ || s == "completed"@
}

/// The number of tasks of a status.
pub open spec fn count_of(items: Seq<ItemView>, status: Seq<char>) -> nat
    decreases items.len(),
{
    if items.len() == 0 {
        0
    } else {
        count_of(items.drop_last(), status) + if items.last().status == status {
            1nat
        } else {
            0nat
        }
    }
}

/// The first task whose status is none of the three, or the number of tasks.
pub open spec fn first_invalid(items: Seq<ItemView>) -> int
    decreases items.len(),
{
    if items.len() == 0 {
        0
    } else {
        let k = first_invalid(items.drop_last());
        if k < items.len() - 1 {
            k
        } else if is_status(items.last().status) {
            items.len() as int
        } else {
            items.len() - 1
        }
    }
}

/// What `{:?}` writes for a text.
pub uninterp spec fn debug_form(s: Seq<char>) -> Seq<char>;

/// `format!` with `{:?}`: the text in quotes, with what must be escaped. How
/// each character is escaped is left to the name.
#[verifier::external_body]
fn debug_of(s: &str) -> (r: String)
    ensures
        r@ == debug_form(s@),
{
    format!("{:?}", s)
}

/// The error for a task whose status is none of the three.
pub open spec fn status_error(item: ItemView) -> Seq<char> {
    "invalid status "@ + debug_form(item.status) + " for todo "@ + debug_form(item.content)
        + " — must be one of: pending, in_progress, completed"@
}

/// The error for several tasks in progress.
pub open spec fn progress_error(n: nat) -> Seq<char> {
    "at most one todo may be \"in_progress\" at a time, found "@ + text::decimal(n)
}

/// A part of the summary, where there are any such tasks.
pub open spec fn part(n: nat, label: Seq<char>) -> Seq<Seq<char>> {
    if n > 0 {
        seq![text::decimal(n) + label]
    } else {
        Seq::empty()
    }
}

/// The summary of a list.
pub open spec fn summary(items: Seq<ItemView>) -> Seq<char> {
    if items.len() == 0 {
        "Cleared todo list (no tasks)"@
    } else {
        text::joined(
            seq!["Updated plan: "@ + text::decimal(items.len()) + " todos"@] + part(
                count_of(items, "completed"@),
                " ✓ completed"@,
            ) + part(count_of(items, "in_progress"@), " in progress"@) + part(
                count_of(items, "pending"@),
                " pending"@,
            ),
            ", "@,
        )
    }
}

/// The error of a list, or `None` where it is in order.
pub open spec fn list_error(items: Seq<ItemView>) -> Option<Seq<char>> {
    let k = first_invalid(items);
    if k < items.len() {
        Some(status_error(items[k]))
    } else if count_of(items, "in_progress"@) > 1 {
        Some(progress_error(count_of(items, "in_progress"@)))
    } else {
        None
    }
}

fn has_status(s: &str) -> (r: bool)
    ensures
        r == is_status(s@),
{
    text::same_text(s, "pending") || text::same_text(s, "in_progress") || text::same_text(
        s,
        "completed",
    )
}

/// The number of tasks of a status.
pub fn count_status(items: &Vec<TodoItem>, status: &str) -> (r: usize)
    ensures
        r == count_of(items_view(items@), status@),
{
    let ghost all = items_view(items@);
    let mut n: usize = 0;
    let mut i: usize = 0;
    while i < items.len()
        invariant
            i <= items@.len(),
            n <= i,
            all == items_view(items@),
            n == count_of(all.take(i as int), status@),
        decreases items@.len() - i,
    {
        assert(all.take(i + 1).drop_last() =~= all.take(i as int));
        assert(all.take(i + 1).last() == items@[i as int]@);
        if text::same_text(items[i].status.as_str(), status) {
            n = n + 1;
        }
        i = i + 1;
    }
    assert(all.take(i as int) =~= all);
    n
}

proof fn lemma_first_invalid_stays(items: Seq<ItemView>, n: int)
    requires
        0 <= n <= items.len(),
        first_invalid(items.take(n)) < n,
    ensures
        first_invalid(items) == first_invalid(items.take(n)),
    decreases items.len() - n,
{
    if n == items.len() {
        assert(items.take(n) =~= items);
    } else {
        assert(items.take(n + 1).drop_last() =~= items.take(n));
        lemma_first_invalid_stays(items, n + 1);
    }
}

fn find_invalid(items: &Vec<TodoItem>) -> (r: usize)
    ensures
        r == first_invalid(items_view(items@)),
        r <= items@.len(),
{
    let ghost all = items_view(items@);
    let mut i: usize = 0;
    assert(all.take(0).len() == 0);
    while i < items.len()
        invariant
            i <= items@.len(),
            all == items_view(items@),
            first_invalid(all.take(i as int)) == i,
        decreases items@.len() - i,
    {
        assert(all.take(i + 1).drop_last() =~= all.take(i as int));
        assert(all.take(i + 1).last() == items@[i as int]@);
        if !has_status(items[i].status.as_str()) {
            proof {
                lemma_first_invalid_stays(all, i + 1);
            }
            return i;
        }
        i = i + 1;
    }
    assert(all.take(i as int) =~= all);
    i
}

fn push_part(parts: &mut Vec<String>, n: usize, label: &str)
    ensures
        text::texts(final(parts)@) == text::texts(old(parts)@) + part(n as nat, label@),
{
    let ghost before = text::texts(parts@);
    if n > 0 {
        text::push_text(parts, text::cat2(text::decimal_of(n as u64).as_str(), label));
    }
    assert(text::texts(parts@) =~= before + part(n as nat, label@));
}

/// The summary of a list.
pub fn summarize(items: &Vec<TodoItem>) -> (r: String)
    ensures
        r@ == summary(items_view(items@)),
{
    let ghost all = items_view(items@);
    assert(all.len() == items@.len());
    if items.len() == 0 {
        return "Cleared todo list (no tasks)".to_owned();
    }
    let mut parts: Vec<String> = Vec::new();
    text::push_text(
        &mut parts,
        text::cat3("Updated plan: ", text::decimal_of(items.len() as u64).as_str(), " todos"),
    );
    assert(text::texts(parts@) =~= seq![
        "Updated plan: "@ + text::decimal(all.len()) + " todos"@,
    ]);
    push_part(&mut parts, count_status(items, "completed"), " ✓ completed");
    push_part(&mut parts, count_status(items, "in_progress"), " in progress");
    push_part(&mut parts, count_status(items, "pending"), " pending");
    text::join(&parts, ", ")
}

fn check_list(items: &Vec<TodoItem>) -> (r: Option<String>)
    ensures
        text::opt_text(r) == list_error(items_view(items@)),
{
    let ghost all = items_view(items@);
    let k: usize = find_invalid(items);
    if k < items.len() {
        assert(all[k as int] == items@[k as int]@);
        let status = debug_of(items[k].status.as_str());
        let content = debug_of(items[k].content.as_str());
        return Some(
            text::cat5(
                "invalid status ",
                status.as_str(),
                " for todo ",
                content.as_str(),
                " — must be one of: pending, in_progress, completed",
            ),
        );
    }
    let n: usize = count_status(items, "in_progress");
    if n > 1 {
        return Some(
            text::cat2(
                "at most one todo may be \"in_progress\" at a time, found ",
                text::decimal_of(n as u64).as_str(),
            ),
        );
    }
    None
}

/// The tool, with the current list.
pub struct TodoTool {
    pub state: Vec<TodoItem>,
}

/// What a call answers and which list it leaves: the new one, or the old one
/// where the call is refused.
pub open spec fn on_call(
    state: Seq<ItemView>,
    args: Result<Seq<ItemView>, Seq<char>>,
) -> (Seq<ItemView>, Result<Seq<char>, ErrorView>) {
    match args {
        Ok(items) => match list_error(items) {
            Some(e) => (state, Err(ErrorView::InvalidArgs(e))),
            None => (items, Ok(summary(items))),
        },
        Err(e) => (state, Err(tools::undecoded(e))),
    }
}

/// What decoded arguments hold.
pub open spec fn args_view(args: Result<TodoToolArgs, String>) -> Result<Seq<ItemView>, Seq<char>> {
    match args {
        Ok(a) => Ok(items_view(a.todos@)),
        Err(e) => Err(e@),
    }
}

impl TodoTool {
    /// A tool with a list.
    pub fn new(state: Vec<TodoItem>) -> (r: TodoTool)
        ensures
            r.state@ == state@,
    {
        TodoTool { state }
    }

    /// The name of the tool.
    pub fn name(&self) -> (r: &'static str)
        ensures
            r@ == "todo"@,
    {
        "todo"
    }

    /// What the model reads about the tool.
    pub fn description(&self) -> (r: &'static str)
        ensures
            r@ == DESCRIPTION@,
    {
        DESCRIPTION
    }

    /// What the tool is to the model.
    pub fn to_def(&self) -> (r: ToolDef)
        ensures
            r.name@ == "todo"@,
            r.description@ == DESCRIPTION@,
            r.parameters@.len() == 1,
            r.parameters@[0].name@ == "todos"@,
            r.parameters@[0].kind == ParamType::List,
            r.parameters@[0].required,
            r.parameters@[0].description@
                == "Full list of todos. Each call replaces the existing list completely. Include ALL items."@,
    {
        let mut parameters: Vec<Param> = Vec::new();
        parameters.push(
            Param {
                name: "todos",
                kind: ParamType::List,
                required: true,
                description:
                    "Full list of todos. Each call replaces the existing list completely. Include ALL items.",
            },
        );
        ToolDef { name: "todo", description: DESCRIPTION, parameters }
    }

    /// Replaces the list, where the new one is in order.
    pub fn execute_stream(&mut self, args: Result<TodoToolArgs, String>) -> (r: Result<
        String,
        ToolError,
    >)
        ensures
            (items_view(final(self).state@), tools::answer_view(r)) == on_call(
                items_view(old(self).state@),
                args_view(args),
            ),
    {
        match args {
            Ok(a) => {
                match check_list(&a.todos) {
                    Some(e) => Err(ToolError::InvalidArgs(e)),
                    None => {
                        let answer = summarize(&a.todos);
                        self.state = a.todos;
                        Ok(answer)
                    },
                }
            },
            Err(e) => Err(reject_args(e.as_str())),
        }
    }
}

// ── Laws ────────────────────────────────────────────────────────────────

/// Whether a list is in order: each status is one of the three, and at most
/// one task is in progress.
pub open spec fn in_order(items: Seq<ItemView>) -> bool {
    &&& forall|i: int| 0 <= i < items.len() ==> is_status((#[trigger] items[i]).status)
    &&& count_of(items, "in_progress"@) <= 1
}

proof fn lemma_first_invalid(items: Seq<ItemView>)
    ensures
        0 <= first_invalid(items) <= items.len(),
        forall|i: int| 0 <= i < first_invalid(items) ==> is_status((#[trigger] items[i]).status),
        first_invalid(items) < items.len() ==> !is_status(items[first_invalid(items)].status),
    decreases items.len(),
{
    if items.len() > 0 {
        let front = items.drop_last();
        lemma_first_invalid(front);
        let k = first_invalid(items);
        assert forall|i: int| 0 <= i < k implies is_status((#[trigger] items[i]).status) by {
            if i < front.len() {
                assert(front[i] == items[i]);
            }
        }
        if k < front.len() {
            assert(front[k] == items[k]);
        }
    }
}

/// A list is refused exactly where it is not in order.
pub proof fn law_only_lists_in_order_pass(items: Seq<ItemView>)
    ensures
        list_error(items) is None <==> in_order(items),
{
    lemma_first_invalid(items);
}

/// The list stays in order, whatever is called.
pub proof fn law_list_stays_in_order(
    state: Seq<ItemView>,
    args: Result<Seq<ItemView>, Seq<char>>,
)
    requires
        in_order(state),
    ensures
        in_order(on_call(state, args).0),
{
    if args is Ok {
        law_only_lists_in_order_pass(args->Ok_0);
    }
}

/// A refused call leaves the list as it was; any other call replaces it.
pub proof fn law_calls_replace_the_list(
    state: Seq<ItemView>,
    args: Result<Seq<ItemView>, Seq<char>>,
)
    ensures
        on_call(state, args).1 is Err ==> on_call(state, args).0 == state,
        on_call(state, args).1 is Ok ==> args == Ok::<Seq<ItemView>, Seq<char>>(
            on_call(state, args).0,
        ),
{
}

/// In a list in order, the three counts of the summary add up.
pub proof fn law_counts_add_up(items: Seq<ItemView>)
    requires
        forall|i: int| 0 <= i < items.len() ==> is_status((#[trigger] items[i]).status),
    ensures
        count_of(items, "pending"@) + count_of(items, "in_progress"@) + count_of(
            items,
            "completed"@,
        ) == items.len(),
    decreases items.len(),
{
    reveal_strlit("pending");
    reveal_strlit("in_progress");
    reveal_strlit("completed");
    assert("pending"@.len() != "in_progress"@.len());
    assert("pending"@.len() != "completed"@.len());
    assert("completed"@.len() != "in_progress"@.len());
    if items.len() > 0 {
        let front = items.drop_last();
        assert forall|i: int| 0 <= i < front.len() implies is_status(
            (#[trigger] front[i]).status,
        ) by {
            assert(front[i] == items[i]);
        }
        assert(is_status(items.last().status));
        law_counts_add_up(front);
    }
}

} // verus!
