//! The conversation as the model sees it.

use vstd::prelude::*;
use crate::text;

verus! {

/// Who a message is from.
#[derive(Clone, Copy, Debug, PartialEq, Eq, Structural)]
pub enum Role {
    System,
    User,
    Assistant,
    Tool,
}

/// A tool call that the model asked for.
#[derive(Clone, Debug)]
pub struct ToolCallRef {
    pub id: String,
    pub name: String,
    pub arguments: String,
}

/// What a tool call holds.
pub struct CallView {
    pub id: Seq<char>,
    pub name: Seq<char>,
    pub arguments: Seq<char>,
}

impl View for ToolCallRef {
    type V = CallView;

    open spec fn view(&self) -> CallView {
        CallView { id: self.id@, name: self.name@, arguments: self.arguments@ }
    }
}

/// What each tool call of a list holds.
pub open spec fn calls_view(v: Seq<ToolCallRef>) -> Seq<CallView> {
    v.map_values(|c: ToolCallRef| c@)
}

/// One message of the conversation.
#[derive(Clone, Debug)]
pub struct Message {
    pub role: Role,
    pub content: String,
    /// The tool calls of an assistant message.
    pub tool_calls: Option<Vec<ToolCallRef>>,
    /// The call that a tool message answers.
    pub tool_call_id: Option<String>,
}

/// What a message holds.
pub struct RecordView {
    pub role: Role,
    pub content: Seq<char>,
    pub tool_calls: Option<Seq<CallView>>,
    pub tool_call_id: Option<Seq<char>>,
}

impl View for Message {
    type V = RecordView;

    open spec fn view(&self) -> RecordView {
        RecordView {
            role: self.role,
            content: self.content@,
            tool_calls: match self.tool_calls {
                Some(v) => Some(calls_view(v@)),
                None => None,
            },
            tool_call_id: text::opt_text(self.tool_call_id),
        }
    }
}

/// What each message of a conversation holds.
pub open spec fn records(v: Seq<Message>) -> Seq<RecordView> {
    v.map_values(|m: Message| m@)
}

/// A message of plain content.
pub open spec fn record(role: Role, content: Seq<char>) -> RecordView {
    RecordView { role, content, tool_calls: None, tool_call_id: None }
}

impl Message {
    /// A message of plain content.
    pub fn new(role: Role, content: String) -> (r: Message)
        ensures
            r@ == record(role, content@),
    {
        Message { role, content, tool_calls: None, tool_call_id: None }
    }
}

/// Appends a message.
pub fn push_record(v: &mut Vec<Message>, m: Message)
    ensures
        records(final(v)@) == records(old(v)@).push(m@),
{
    let ghost before = records(v@);
    v.push(m);
    assert(records(v@) =~= before.push(m@));
}

/// Inserts a message at `i`.
pub fn insert_record(v: &mut Vec<Message>, i: usize, m: Message)
    requires
        i <= old(v)@.len(),
    ensures
        records(final(v)@) == records(old(v)@).insert(i as int, m@),
{
    let ghost before = records(v@);
    v.insert(i, m);
    assert(records(v@) =~= before.insert(i as int, m@));
}

/// The position behind the system messages at the start.
pub open spec fn system_block(v: Seq<RecordView>) -> int
    decreases v.len(),
{
    if v.len() == 0 || v[0].role != Role::System {
        0
    } else {
        1 + system_block(v.skip(1))
    }
}

/// The position behind the system messages at the start.
pub fn find_history(v: &Vec<Message>) -> (r: usize)
    ensures
        r == system_block(records(v@)),
        r <= v@.len(),
{
    let ghost all = records(v@);
    let mut i: usize = 0;
    assert(all.skip(0) =~= all);
    while i < v.len() && v[i].role == Role::System
        invariant
            i <= v@.len(),
            all == records(v@),
            i + system_block(all.skip(i as int)) == system_block(all),
        decreases v@.len() - i,
    {
        assert(all.skip(i as int)[0] == v@[i as int]@);
        assert(all.skip(i as int).skip(1) =~= all.skip(i + 1));
        i = i + 1;
    }
    proof {
        if i < v@.len() {
            assert(all.skip(i as int)[0] == v@[i as int]@);
        }
    }
    i
}

/// The conversation with a system message at the end of the system messages
/// at the start.
pub open spec fn before_history(v: Seq<RecordView>, m: RecordView) -> Seq<RecordView> {
    v.insert(system_block(v), m)
}

/// Inserts a message behind the system messages at the start.
pub fn insert_before_history(v: &mut Vec<Message>, m: Message)
    ensures
        records(final(v)@) == before_history(records(old(v)@), m@),
{
    let i: usize = find_history(v);
    insert_record(v, i, m);
}

/// The conversation without the system messages that begin with `marker`.
pub open spec fn without_marked(v: Seq<RecordView>, marker: Seq<char>) -> Seq<RecordView>
    decreases v.len(),
{
    if v.len() == 0 {
        v
    } else {
        let rest = without_marked(v.drop_last(), marker);
        if is_marked(v.last(), marker) {
            rest
        } else {
            rest.push(v.last())
        }
    }
}

/// Whether a message is a system message that begins with `marker`.
pub open spec fn is_marked(m: RecordView, marker: Seq<char>) -> bool {
    m.role == Role::System && text::begins_with(m.content, marker)
}

/// Whether a message is a system message that begins with `marker`.
pub fn has_marker(m: &Message, marker: &str) -> (r: bool)
    ensures
        r == is_marked(m@, marker@),
{
    m.role == Role::System && text::starts_with(m.content.as_str(), marker)
}

fn copy_call(c: &ToolCallRef) -> (r: ToolCallRef)
    ensures
        r@ == c@,
{
    ToolCallRef { id: c.id.clone(), name: c.name.clone(), arguments: c.arguments.clone() }
}

/// A copy of a message.
pub fn copy_message(m: &Message) -> (r: Message)
    ensures
        r@ == m@,
{
    let tool_calls = match &m.tool_calls {
        Some(v) => {
            let mut out: Vec<ToolCallRef> = Vec::new();
            let mut i: usize = 0;
            while i < v.len()
                invariant
                    i <= v@.len(),
                    calls_view(out@) == calls_view(v@).take(i as int),
                decreases v@.len() - i,
            {
                let c = copy_call(&v[i]);
                assert(c@ == calls_view(v@)[i as int]);
                let ghost before = calls_view(out@);
                out.push(c);
                i = i + 1;
                assert(calls_view(out@) =~= before.push(c@));
                assert(calls_view(out@) =~= calls_view(v@).take(i as int));
            }
            assert(calls_view(v@).take(i as int) =~= calls_view(v@));
            Some(out)
        },
        None => None,
    };
    Message {
        role: m.role,
        content: m.content.clone(),
        tool_calls,
        tool_call_id: text::clone_opt(&m.tool_call_id),
    }
}

/// Removes the system messages that begin with `marker`.
pub fn remove_marked(v: &mut Vec<Message>, marker: &str)
    ensures
        records(final(v)@) == without_marked(records(old(v)@), marker@),
{
    let ghost all = records(v@);
    let mut kept: Vec<Message> = Vec::new();
    let mut i: usize = 0;
    assert(records(kept@) =~= without_marked(all.take(0), marker@));
    while i < v.len()
        invariant
            i <= v@.len(),
            all == records(v@),
            records(kept@) == without_marked(all.take(i as int), marker@),
        decreases v@.len() - i,
    {
        assert(all.take(i + 1).drop_last() =~= all.take(i as int));
        assert(all.take(i + 1).last() == v@[i as int]@);
        if !has_marker(&v[i], marker) {
            let m = copy_message(&v[i]);
            push_record(&mut kept, m);
        }
        i = i + 1;
    }
    assert(all.take(i as int) =~= all);
    *v = kept;
}

// ── Laws ────────────────────────────────────────────────────────────────

proof fn lemma_without_marked_gone(v: Seq<RecordView>, marker: Seq<char>)
    ensures
        forall|i: int|
            0 <= i < without_marked(v, marker).len() ==> !is_marked(
                #[trigger] without_marked(v, marker)[i],
                marker,
            ),
        without_marked(v, marker).len() <= v.len(),
    decreases v.len(),
{
    if v.len() > 0 {
        lemma_without_marked_gone(v.drop_last(), marker);
        let rest = without_marked(v.drop_last(), marker);
        let all = without_marked(v, marker);
        assert forall|i: int| 0 <= i < all.len() implies !is_marked(#[trigger] all[i], marker) by {
            if i < rest.len() {
                assert(all[i] == rest[i]);
            }
        }
    }
}

/// No marked message is left.
pub proof fn law_marked_are_gone(v: Seq<RecordView>, marker: Seq<char>, i: int)
    requires
        0 <= i < without_marked(v, marker).len(),
    ensures
        !is_marked(without_marked(v, marker)[i], marker),
{
    lemma_without_marked_gone(v, marker);
}

/// A conversation without marked messages stays as it is.
pub proof fn law_unmarked_are_kept(v: Seq<RecordView>, marker: Seq<char>)
    requires
        forall|i: int| 0 <= i < v.len() ==> !is_marked(#[trigger] v[i], marker),
    ensures
        without_marked(v, marker) == v,
    decreases v.len(),
{
    if v.len() > 0 {
        let front = v.drop_last();
        assert forall|i: int| 0 <= i < front.len() implies !is_marked(#[trigger] front[i], marker) by {
            assert(front[i] == v[i]);
        }
        law_unmarked_are_kept(front, marker);
        assert(v.last() == v[v.len() - 1]);
        assert(front.push(v.last()) =~= v);
    }
}

/// Removing marked messages splits over a conversation in two parts.
pub proof fn lemma_without_marked_add(a: Seq<RecordView>, b: Seq<RecordView>, marker: Seq<char>)
    ensures
        without_marked(a + b, marker) == without_marked(a, marker) + without_marked(b, marker),
    decreases b.len(),
{
    if b.len() == 0 {
        assert(a + b =~= a);
        assert(without_marked(a, marker) + without_marked(b, marker) =~= without_marked(a, marker));
    } else {
        assert((a + b).drop_last() =~= a + b.drop_last());
        lemma_without_marked_add(a, b.drop_last(), marker);
        assert(without_marked(a + b, marker) =~= without_marked(a, marker) + without_marked(
            b,
            marker,
        ));
    }
}

/// A marked message that was inserted anywhere is removed without a trace.
pub proof fn law_marked_come_and_go(
    v: Seq<RecordView>,
    k: int,
    m: RecordView,
    marker: Seq<char>,
)
    requires
        0 <= k <= v.len(),
        is_marked(m, marker),
    ensures
        without_marked(v.insert(k, m), marker) == without_marked(v, marker),
{
    let a = v.take(k);
    let b = v.skip(k);
    assert(a + b =~= v);
    assert(v.insert(k, m) =~= a + (seq![m] + b));
    lemma_without_marked_add(a, b, marker);
    lemma_without_marked_add(a, seq![m] + b, marker);
    lemma_without_marked_add(seq![m], b, marker);
    reveal_with_fuel(without_marked, 2);
    assert(seq![m].drop_last() =~= Seq::<RecordView>::empty());
    assert(without_marked(seq![m], marker) =~= Seq::<RecordView>::empty());
    assert(Seq::<RecordView>::empty() + without_marked(b, marker) =~= without_marked(b, marker));
}

pub proof fn lemma_system_block(v: Seq<RecordView>)
    ensures
        0 <= system_block(v) <= v.len(),
        forall|i: int| 0 <= i < system_block(v) ==> (#[trigger] v[i]).role == Role::System,
        system_block(v) < v.len() ==> v[system_block(v)].role != Role::System,
    decreases v.len(),
{
    if v.len() > 0 && v[0].role == Role::System {
        lemma_system_block(v.skip(1));
        assert forall|i: int| 0 <= i < system_block(v) implies (#[trigger] v[i]).role
            == Role::System by {
            if i > 0 {
                assert(v[i] == v.skip(1)[i - 1]);
            }
        }
    }
}

/// The inserted message stands behind every system message at the start, and
/// in front of the history.
pub proof fn law_inserted_before_history(v: Seq<RecordView>, m: RecordView)
    ensures
        ({
            let k = system_block(v);
            let w = before_history(v, m);
            &&& w.len() == v.len() + 1
            &&& w[k] == m
            &&& forall|i: int| 0 <= i < k ==> (#[trigger] w[i]).role == Role::System && w[i] == v[i]
            &&& forall|i: int| k <= i < v.len() ==> w[i + 1] == #[trigger] v[i]
        }),
{
    lemma_system_block(v);
}

} // verus!
