//! The messages that a conversation starts with.

use loomis::hooks::system_prompt_hook::{
    build_environment_context, build_system_prompt, detect_git_info, detect_shell,
    detect_unix_version, detect_windows_version, project_rules_files, try_load_project_rules,
    CommandOutput, Environment, RulesFile, SystemPromptHook, NO_SKILLS, PROJECT_RULES_MAX_BYTES,
    SYSPROMPT_MARKER,
};
use loomis::memory::{Message, Role};
use loomis::tui::app::Skill;

fn make_hook() -> SystemPromptHook {
    SystemPromptHook::new(
        "Tools:\n{tool_list}\nSkills:\n{skill_list}".to_string(),
        vec!["read".to_string(), "write".to_string()],
        Vec::new(),
    )
}

fn environment() -> Environment {
    Environment {
        os: "linux".to_string(),
        arch: "x86_64".to_string(),
        os_version: "Linux 6".to_string(),
        shell: "/bin/sh".to_string(),
        workspace: "/ws".to_string(),
        date: "2026-07-09T12:34:56Z".to_string(),
        git: Some("main".to_string()),
    }
}

fn file(name: &str, content: Option<&str>) -> RulesFile {
    RulesFile { name: name.to_string(), content: content.map(|s| s.to_string()) }
}

fn output(success: bool, stdout: &[u8]) -> Option<CommandOutput> {
    Some(CommandOutput { success, stdout: stdout.to_vec() })
}

fn marked(messages: &[Message]) -> usize {
    messages.iter().filter(|m| m.content.starts_with(SYSPROMPT_MARKER)).count()
}

#[test]
fn seeds_marked_system_prompts_on_empty_memory() {
    let mut messages: Vec<Message> = Vec::new();
    make_hook().on_run_start(&mut messages, &environment(), &Vec::new());

    assert!(!messages.is_empty(), "expected system prompts to be seeded");
    for m in messages.iter() {
        assert_eq!(m.role, Role::System);
        assert!(
            m.content.starts_with(SYSPROMPT_MARKER),
            "every seeded message must start with {SYSPROMPT_MARKER}"
        );
    }
}

#[test]
fn skips_when_marker_already_present() {
    let mut messages = vec![
        Message::new(Role::System, format!("{SYSPROMPT_MARKER}\n\nLoaded main prompt")),
        Message::new(Role::System, "unrelated system message".to_string()),
        Message::new(Role::User, "previous user message".to_string()),
    ];
    let before: Vec<String> = messages.iter().map(|m| m.content.clone()).collect();

    make_hook().on_run_start(&mut messages, &environment(), &Vec::new());

    let after: Vec<String> = messages.iter().map(|m| m.content.clone()).collect();
    assert_eq!(
        before, after,
        "on_run_start must be a no-op when [SYSPROMPT] is already present"
    );
}

#[test]
fn repeated_calls_do_not_accumulate() {
    let hook = make_hook();
    let mut messages: Vec<Message> = Vec::new();
    hook.on_run_start(&mut messages, &environment(), &Vec::new());
    let first_count = marked(&messages);
    assert!(first_count >= 2, "expected at least two core system prompts");

    hook.on_run_start(&mut messages, &environment(), &Vec::new());
    hook.on_run_start(&mut messages, &environment(), &Vec::new());
    assert_eq!(
        marked(&messages),
        first_count,
        "repeated on_run_start must not add more system prompts"
    );
}

#[test]
fn rules_make_a_third_message() {
    let mut messages: Vec<Message> = Vec::new();
    let files = vec![file("LOOMIS.md", Some("Be kind."))];
    make_hook().on_run_start(&mut messages, &environment(), &files);
    assert_eq!(messages.len(), 3);
    assert!(messages[2].content.ends_with("## Project Rules (LOOMIS.md)\n\nBe kind."));
}

#[test]
fn the_first_file_with_rules_wins() {
    assert_eq!(try_load_project_rules(&Vec::new()), None);
    let files = vec![
        file("LOOMIS.md", Some("  \n")),
        file("AGENTS.md", None),
        file("OTHER.md", Some("Third.")),
    ];
    assert_eq!(
        try_load_project_rules(&files).unwrap(),
        "## Project Rules (OTHER.md)\n\nThird."
    );
    let names = project_rules_files(&vec!["OTHER.md".to_string()]);
    assert_eq!(names, vec!["LOOMIS.md", "AGENTS.md", "OTHER.md"]);
}

#[test]
fn long_rules_are_cut_at_a_character() {
    let long = "\u{4e2d}".repeat(PROJECT_RULES_MAX_BYTES);
    let files = vec![file("LOOMIS.md", Some(long.as_str()))];
    let rules = try_load_project_rules(&files).unwrap();
    assert!(rules.contains("[Truncated from 10000 bytes — original file is 30000 bytes]"));
    assert_eq!(rules.matches('\u{4e2d}').count(), 3333);
}

#[test]
fn the_prompt_names_tools_and_skills() {
    let tools = vec!["read".to_string(), "write".to_string()];
    let bare = build_system_prompt("{tool_list}|{skill_list}", &tools, &Vec::new());
    assert!(bare.contains("read") && bare.contains("write"), "got {bare}");
    assert!(bare.ends_with(NO_SKILLS), "got {bare}");
    let skills = vec![Skill {
        name: "review".to_string(),
        description: "Review code.".to_string(),
        content: "Body.".to_string(),
    }];
    let full = build_system_prompt("{skill_list}", &tools, &skills);
    assert!(full.contains("review") && full.contains("Review code."), "got {full}");
}

#[test]
fn the_environment_is_a_list() {
    assert_eq!(
        build_environment_context(&environment()),
        "## Environment\n\n- Platform: linux (x86_64)\n- OS version: Linux 6\n- Shell: /bin/sh\n- Workspace: /ws\n- Date: 2026-07-09T12:34:56Z\n- Git: main"
    );
}

#[test]
fn outputs_of_commands_are_read_leniently() {
    assert_eq!(detect_unix_version(&output(true, b" Linux 6.1 \n"), "linux", "arm"), "Linux 6.1");
    assert_eq!(detect_unix_version(&None, "linux", "arm"), "linux arm");
    assert_eq!(detect_unix_version(&output(true, b"a\xffb"), "linux", "arm"), "a\u{fffd}b");
    let outputs = vec![output(false, b"no"), output(true, b" \n"), output(true, b"Windows 11")];
    assert_eq!(detect_windows_version(&outputs, "windows"), "Windows 11");
    assert_eq!(detect_git_info(&None, &None), None);
    assert!(detect_git_info(&output(true, b"main\n"), &output(true, b"")).unwrap().contains("main"));
    assert_eq!(detect_shell(false, false, &Some("/bin/zsh".to_string())), "/bin/zsh");
    assert_eq!(detect_shell(true, true, &None), "Git Bash (MSYS2 / MinGW)");
    assert_eq!(detect_shell(false, true, &None), "cmd");
    assert_eq!(detect_shell(false, false, &None), "unknown");
}
