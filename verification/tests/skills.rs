//! The messages of loaded skills.

use loomis::hooks::skill_hook::{SkillHook, SKILL_MARKER_PREFIX};
use loomis::memory::{Message, Role};
use loomis::tui::app::ActiveSkill;

fn skill(name: &str, content: &str) -> ActiveSkill {
    ActiveSkill { name: name.to_string(), content: content.to_string() }
}

fn system(content: &str) -> Message {
    Message::new(Role::System, content.to_string())
}

fn is_skill_message(m: &Message) -> bool {
    m.role == Role::System && m.content.starts_with(SKILL_MARKER_PREFIX)
}

#[test]
fn test_injects_skill_message_when_active() {
    let mut messages: Vec<Message> = Vec::new();
    SkillHook.on_llm_start(&vec![skill("my-skill", "Skill instructions.")], &mut messages);

    let skill_msg = messages.iter().find(|m| is_skill_message(m));
    assert!(skill_msg.is_some(), "expected [SKILL: ...] System message");
    let content = &skill_msg.unwrap().content;
    assert!(content.contains("[SKILL: my-skill]"), "should contain marker with skill name");
    assert!(content.contains("Skill instructions."), "should contain skill content");
}

#[test]
fn test_removes_skill_message_when_empty() {
    let mut messages = vec![system(&format!("{SKILL_MARKER_PREFIX} old-skill]\n\nOld content."))];
    SkillHook.on_llm_start(&Vec::new(), &mut messages);
    let skill_count = messages.iter().filter(|m| is_skill_message(m)).count();
    assert_eq!(skill_count, 0, "[SKILL: ...] messages should be removed");
}

#[test]
fn test_replaces_existing_skill_message() {
    let mut messages = vec![system(&format!("{SKILL_MARKER_PREFIX} my-skill]\n\nOld content."))];
    SkillHook.on_llm_start(&vec![skill("my-skill", "Updated content.")], &mut messages);

    let skill_count = messages.iter().filter(|m| is_skill_message(m)).count();
    assert_eq!(skill_count, 1, "should still have exactly one [SKILL: ...] message");
    let skill_msg = messages.iter().find(|m| is_skill_message(m)).unwrap();
    assert!(
        skill_msg.content.contains("Updated content."),
        "should contain new content, got: {}",
        skill_msg.content
    );
    assert!(!skill_msg.content.contains("Old content"), "should NOT contain old content");
}

#[test]
fn test_preserves_non_skill_system_messages() {
    let mut messages = vec![system("Normal system prompt")];
    SkillHook.on_llm_start(&vec![skill("my-skill", "Skill content.")], &mut messages);
    assert!(
        messages.iter().any(|m| m.role == Role::System && m.content == "Normal system prompt"),
        "non-skill System message should be preserved"
    );
}

#[test]
fn test_multiple_active_skills() {
    let mut messages: Vec<Message> = Vec::new();
    let active = vec![skill("skill-a", "Content A."), skill("skill-b", "Content B.")];
    SkillHook.on_llm_start(&active, &mut messages);

    let skill_count = messages.iter().filter(|m| is_skill_message(m)).count();
    assert_eq!(skill_count, 2, "expected two [SKILL: ...] messages");
    assert!(
        messages.iter().any(|m| m.content.contains("[SKILL: skill-a]")),
        "should contain skill-a"
    );
    assert!(
        messages.iter().any(|m| m.content.contains("[SKILL: skill-b]")),
        "should contain skill-b"
    );
}
