//! Compacting a conversation: the request for a summary, and what becomes of
//! the reply.

use vstd::prelude::*;
use crate::memory::{self, Message, RecordView, Role};
use crate::text;

verus! {

/// Why a conversation was not compacted.
#[derive(Clone, Debug)]
pub enum MemoryError {
    /// There is no old message.
    NothingToCompact,
    /// The model gave no summary.
    SummariserFailed(String),
}

/// What a failed compaction says.
pub enum MemoryErrorView {
    NothingToCompact,
    SummariserFailed(Seq<char>),
}

impl View for MemoryError {
    type V = MemoryErrorView;

    open spec fn view(&self) -> MemoryErrorView {
        match self {
            MemoryError::NothingToCompact => MemoryErrorView::NothingToCompact,
            MemoryError::SummariserFailed(m) => MemoryErrorView::SummariserFailed(m@),
        }
    }
}

/// What a compaction comes to.
pub open spec fn outcome_view(r: Result<String, MemoryError>) -> Result<
    Seq<char>,
    MemoryErrorView,
> {
    match r {
        Ok(s) => Ok(s@),
        Err(e) => Err(e@),
    }
}

/// How a role is called in a transcript.
pub open spec fn label(role: Role) -> Seq<char> {
    match role {
        Role::System => "System"@,
        Role::User => "User"@,
        Role::Assistant => "Assistant"@,
        Role::Tool => "Tool"@,
    }
}

/// How a role is called in a transcript.
pub fn role_label(role: Role) -> (r: &'static str)
    ensures
        r@ == label(role),
{
    match role {
        Role::System => "System",
        Role::User => "User",
        Role::Assistant => "Assistant",
        Role::Tool => "Tool",
    }
}

/// A message in a transcript.
pub open spec fn transcript_entry(m: RecordView) -> Seq<char> {
    "["@ + label(m.role) + "]: "@ + m.content
}

/// The messages, one after the other, with a blank line between them.
pub open spec fn transcript(ms: Seq<RecordView>) -> Seq<char> {
    text::joined(ms.map_values(|m: RecordView| transcript_entry(m)), "\n\n"@)
}

/// What asks the model for a summary.
pub open spec fn summary_prompt(ms: Seq<RecordView>) -> Seq<char> {
    "Summarise the following conversation history concisely. Preserve key facts, decisions, and context. Output only the summary, no preamble:\n\n"@
        + transcript(ms)
}

/// The request for a summary of the old messages; refused where there are
/// none.
pub fn summary_request(old: &Vec<Message>) -> (r: Result<String, MemoryError>)
    ensures
        outcome_view(r) == (if old@.len() == 0 {
            Err::<Seq<char>, MemoryErrorView>(MemoryErrorView::NothingToCompact)
        } else {
            Ok(summary_prompt(memory::records(old@)))
        }),
{
    if old.len() == 0 {
        return Err(MemoryError::NothingToCompact);
    }
    let ghost all = memory::records(old@);
    let ghost want = all.map_values(|m: RecordView| transcript_entry(m));
    let mut parts: Vec<String> = Vec::new();
    let mut i: usize = 0;
    assert(text::texts(parts@) =~= want.take(0));
    while i < old.len()
        invariant
            i <= old@.len(),
            all == memory::records(old@),
            want == all.map_values(|m: RecordView| transcript_entry(m)),
            text::texts(parts@) == want.take(i as int),
        decreases old@.len() - i,
    {
        let m = &old[i];
        assert(all[i as int] == m@);
        let entry = text::cat4("[", role_label(m.role), "]: ", m.content.as_str());
        assert(entry@ == want[i as int]);
        text::push_text(&mut parts, entry);
        i = i + 1;
        assert(text::texts(parts@) =~= want.take(i as int));
    }
    assert(want.take(i as int) =~= want);
    let transcript = text::join(&parts, "\n\n");
    Ok(
        text::cat2(
            "Summarise the following conversation history concisely. Preserve key facts, decisions, and context. Output only the summary, no preamble:\n\n",
            transcript.as_str(),
        ),
    )
}

/// What the model's reply comes to: its text, nothing where it has none, or
/// what went wrong.
pub open spec fn summary_of(reply: Result<Option<String>, String>) -> Result<
    Seq<char>,
    MemoryErrorView,
> {
    match reply {
        Ok(Some(s)) => Ok(s@),
        Ok(None) => Ok(""@),
        Err(e) => Err(MemoryErrorView::SummariserFailed("LLM call failed: "@ + e@)),
    }
}

/// The summary that takes the place of the old messages. `reply` is the
/// content of the first choice of the model's reply, or what went wrong.
pub fn take_summary(reply: Result<Option<String>, String>) -> (r: Result<String, MemoryError>)
    ensures
        outcome_view(r) == summary_of(reply),
{
    match reply {
        Ok(Some(s)) => Ok(s),
        Ok(None) => Ok("".to_owned()),
        Err(e) => Err(
            MemoryError::SummariserFailed(text::cat2("LLM call failed: ", e.as_str())),
        ),
    }
}

} // verus!
