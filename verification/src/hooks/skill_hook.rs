//! The messages that show the loaded skills to the model.

use vstd::prelude::*;
use crate::memory::{self, insert_before_history, remove_marked, Message, RecordView, Role};
use crate::text;
use crate::tui::app::{self, ActiveSkill};

verus! {

/// How the message of a skill begins.
pub const SKILL_MARKER_PREFIX: &'static str = "[SKILL:";

/// Keeps one message per loaded skill.
#[derive(Clone, Copy, Debug, PartialEq, Eq, Structural)]
pub struct SkillHook;

/// The message of a skill.
pub open spec fn skill_message(name: Seq<char>, content: Seq<char>) -> RecordView {
    memory::record(Role::System, SKILL_MARKER_PREFIX@ + " "@ + name + "]\n\n"@ + content)
}

/// The conversation with the messages of skills behind the system messages
/// at the start.
pub open spec fn with_skills(v: Seq<RecordView>, active: Seq<(Seq<char>, Seq<char>)>) -> Seq<
    RecordView,
>
    decreases active.len(),
{
    if active.len() == 0 {
        v
    } else {
        memory::before_history(
            with_skills(v, active.drop_last()),
            skill_message(active.last().0, active.last().1),
        )
    }
}

/// The conversation with exactly the messages of the loaded skills.
pub open spec fn synced(v: Seq<RecordView>, active: Seq<(Seq<char>, Seq<char>)>) -> Seq<RecordView> {
    with_skills(memory::without_marked(v, SKILL_MARKER_PREFIX@), active)
}

impl SkillHook {
    /// Brings the messages in line with the loaded skills, before the model
    /// is called.
    pub fn on_llm_start(&self, active: &Vec<ActiveSkill>, messages: &mut Vec<Message>)
        ensures
            memory::records(final(messages)@) == synced(
                memory::records(old(messages)@),
                app::active_view(active@),
            ),
    {
        let ghost before = memory::records(messages@);
        let ghost all = app::active_view(active@);
        remove_marked(messages, SKILL_MARKER_PREFIX);
        let ghost base = memory::records(messages@);
        let mut i: usize = 0;
        assert(all.take(0) =~= Seq::<(Seq<char>, Seq<char>)>::empty());
        while i < active.len()
            invariant
                i <= active@.len(),
                all == app::active_view(active@),
                memory::records(messages@) == with_skills(base, all.take(i as int)),
            decreases active@.len() - i,
        {
            assert(all.take(i + 1).drop_last() =~= all.take(i as int));
            assert(all.take(i + 1).last() == (active@[i as int].name@, active@[i as int].content@));
            let content = text::cat5(
                SKILL_MARKER_PREFIX,
                " ",
                active[i].name.as_str(),
                "]\n\n",
                active[i].content.as_str(),
            );
            insert_before_history(messages, Message::new(Role::System, content));
            i = i + 1;
        }
        assert(all.take(i as int) =~= all);
    }
}

// ── Laws ────────────────────────────────────────────────────────────────

proof fn lemma_marked(name: Seq<char>, content: Seq<char>)
    ensures
        memory::is_marked(skill_message(name, content), SKILL_MARKER_PREFIX@),
{
    let m = skill_message(name, content);
    let p = SKILL_MARKER_PREFIX@;
    assert(m.content.subrange(0, p.len() as int) =~= p);
}

proof fn lemma_with_skills_removed(v: Seq<RecordView>, active: Seq<(Seq<char>, Seq<char>)>)
    ensures
        memory::without_marked(with_skills(v, active), SKILL_MARKER_PREFIX@)
            == memory::without_marked(v, SKILL_MARKER_PREFIX@),
        with_skills(v, active).len() == v.len() + active.len(),
    decreases active.len(),
{
    if active.len() > 0 {
        let front = with_skills(v, active.drop_last());
        lemma_with_skills_removed(v, active.drop_last());
        lemma_marked(active.last().0, active.last().1);
        let m = skill_message(active.last().0, active.last().1);
        memory::lemma_system_block(front);
        memory::law_marked_come_and_go(
            front,
            memory::system_block(front),
            m,
            SKILL_MARKER_PREFIX@,
        );
    }
}

/// The other messages are kept as they are and in order, and there is one
/// message more for each loaded skill.
pub proof fn law_other_messages_are_kept(
    v: Seq<RecordView>,
    active: Seq<(Seq<char>, Seq<char>)>,
)
    ensures
        memory::without_marked(synced(v, active), SKILL_MARKER_PREFIX@) == memory::without_marked(
            v,
            SKILL_MARKER_PREFIX@,
        ),
        synced(v, active).len() == memory::without_marked(v, SKILL_MARKER_PREFIX@).len()
            + active.len(),
{
    let base = memory::without_marked(v, SKILL_MARKER_PREFIX@);
    lemma_with_skills_removed(base, active);
    assert forall|i: int| 0 <= i < base.len() implies !memory::is_marked(
        #[trigger] base[i],
        SKILL_MARKER_PREFIX@,
    ) by {
        memory::law_marked_are_gone(v, SKILL_MARKER_PREFIX@, i);
    }
    memory::law_unmarked_are_kept(base, SKILL_MARKER_PREFIX@);
}

/// Bringing the messages in line again changes nothing: no message piles up.
pub proof fn law_syncing_again_changes_nothing(
    v: Seq<RecordView>,
    active: Seq<(Seq<char>, Seq<char>)>,
)
    ensures
        synced(synced(v, active), active) == synced(v, active),
{
    law_other_messages_are_kept(v, active);
}

} // verus!
