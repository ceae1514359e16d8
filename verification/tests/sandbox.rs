//! Quotas, the audit trail, environments, and the sandbox around tool calls.

use loomis::hooks::sandbox_hook::{Decision, SandboxHook};
use loomis::hooks::shell_approval::DangerousCommandApprovalHook;
use loomis::hooks::RunOutcome;
use loomis::memory::ToolCallRef;
use loomis::sandbox::audit_logger::{AuditEntry, AuditLogger, MAX_RING};
use loomis::sandbox::config::SandboxConfig;
use loomis::sandbox::env_sanitizer::{is_safe_key, sanitize, EnvVar};
use loomis::sandbox::resource_tracker::ResourceTracker;
use loomis::sandbox::shell_filter::ShellFilter;
use loomis::tui::messages::InterventionResponse;

fn texts(v: &[&str]) -> Vec<String> {
    v.iter().map(|s| s.to_string()).collect()
}

fn config() -> SandboxConfig {
    SandboxConfig {
        auto_approve_prefixes: texts(&["echo"]),
        deny_patterns: texts(&[r"\bsudo\b"]),
        allowed_binaries: Vec::new(),
        max_total_operations: 3,
        max_concurrent_shells: 1,
        audit_enabled: true,
    }
}

fn hook(config: &SandboxConfig) -> SandboxHook {
    SandboxHook::new(
        ShellFilter::from_config(config),
        ResourceTracker::new(config),
        AuditLogger::new(config),
    )
}

fn call(name: &str, arguments: &str) -> ToolCallRef {
    ToolCallRef {
        id: "c1".to_string(),
        name: name.to_string(),
        arguments: arguments.to_string(),
    }
}

fn shell(command: &str) -> ToolCallRef {
    call("shell", &format!(r#"{{"command":"{command}"}}"#))
}

fn answer(chosen: Option<usize>) -> Option<InterventionResponse> {
    Some(InterventionResponse { chosen, custom_text: None })
}

fn entry(n: usize) -> AuditEntry {
    AuditEntry {
        timestamp: "now".to_string(),
        session_id: "s".to_string(),
        tool: "ls".to_string(),
        command: n.to_string(),
        verdict: "allowed".to_string(),
        outcome: String::new(),
    }
}

fn var(key: &str, value: &str) -> EnvVar {
    EnvVar { key: key.to_string(), value: value.to_string() }
}

fn pairs(v: &[EnvVar]) -> Vec<(&str, &str)> {
    v.iter().map(|e| (e.key.as_str(), e.value.as_str())).collect()
}

// ── Quotas ──────────────────────────────────────────────────────────────

#[test]
fn operations_are_limited_per_session() {
    let mut tracker = ResourceTracker::new(&config());
    for _ in 0..3 {
        assert!(tracker.check("a", "ls").is_ok());
        tracker.record("a", "ls");
    }
    assert_eq!(
        tracker.check("a", "ls").unwrap_err(),
        "session quota exceeded: 3 total operations"
    );
    assert!(tracker.check("b", "ls").is_ok());
}

#[test]
fn shells_are_limited_at_a_time() {
    let mut tracker = ResourceTracker::new(&config());
    assert!(tracker.check("a", "shell").is_ok());
    assert_eq!(tracker.check("a", "shell").unwrap_err(), "too many concurrent shells (max 1)");
    tracker.record("a", "shell");
    assert!(tracker.check("a", "shell").is_ok());
}

#[test]
fn a_withdrawn_shell_leaves_no_trace() {
    let mut tracker = ResourceTracker::new(&config());
    for _ in 0..10 {
        assert!(tracker.check("a", "shell").is_ok());
        tracker.cancel("a", "shell");
    }
    assert!(tracker.check("a", "shell").is_ok());
}

// ── The trail ───────────────────────────────────────────────────────────

#[test]
fn the_newest_records_are_kept() {
    let mut logger = AuditLogger::new(&config());
    for i in 0..MAX_RING + 5 {
        assert!(logger.log(entry(i)).is_some());
    }
    let recent = logger.recent(MAX_RING + 5);
    assert_eq!(recent.len(), MAX_RING);
    assert_eq!(recent[0].command, (MAX_RING + 4).to_string());
    assert_eq!(logger.recent(2).len(), 2);
}

#[test]
fn nothing_is_recorded_where_auditing_is_off() {
    let mut settings = config();
    settings.audit_enabled = false;
    let mut logger = AuditLogger::new(&settings);
    assert!(logger.log(entry(1)).is_none());
    assert!(logger.recent(10).is_empty());
}

// ── Environments ────────────────────────────────────────────────────────

#[test]
fn only_safe_variables_are_passed_on() {
    assert!(is_safe_key("PATH", false));
    assert!(!is_safe_key("DEEPSEEK_API", false));
    let vars = vec![var("PATH", "/usr/bin"), var("DEEPSEEK_API", "x"), var("HOME", "/h")];
    let kept = sanitize(&vars, &None, false, true);
    assert_eq!(pairs(&kept), vec![("PATH", "/usr/bin"), ("HOME", "/h")]);
}

#[test]
fn without_sanitizing_the_environment_stays() {
    let vars = vec![var("DEEPSEEK_API", "x"), var("PATH", "/usr/bin")];
    let kept = sanitize(&vars, &Some("/ws/bin".to_string()), false, false);
    assert_eq!(pairs(&kept), vec![("DEEPSEEK_API", "x"), ("PATH", "/usr/bin")]);
}

#[test]
fn the_workspace_comes_first_in_the_path() {
    let bin = Some("/ws/bin".to_string());
    let kept = sanitize(&vec![var("PATH", "/usr/bin")], &bin, false, true);
    assert_eq!(pairs(&kept), vec![("PATH", "/ws/bin:/usr/bin")]);
    let kept = sanitize(&Vec::new(), &bin, false, true);
    assert_eq!(pairs(&kept), vec![("PATH", "/ws/bin")]);
}

#[test]
fn on_windows_the_case_of_a_variable_does_not_count() {
    assert!(is_safe_key("Path", true));
    assert!(!is_safe_key("Path", false));
    assert!(!is_safe_key("Deepseek_Api", true));
    let vars = vec![var("Path", r"C:\tools"), var("SystemRoot", r"C:\Windows")];
    let bin = Some(r"C:\ws\bin".to_string());
    let kept = sanitize(&vars, &bin, true, true);
    assert_eq!(
        pairs(&kept),
        vec![("PATH", r"C:\ws\bin;C:\tools"), ("SYSTEMROOT", r"C:\Windows")]
    );
    let kept = sanitize(&vars, &None, false, true);
    assert!(kept.is_empty());
}

// ── Calls ───────────────────────────────────────────────────────────────

#[test]
fn approved_commands_run_and_are_recorded() {
    let mut hook = hook(&config());
    let (decision, record) = hook.before_tool_call("s", &shell("echo hi"), "t1");
    assert!(matches!(decision, Decision::Allowed));
    let record = record.unwrap();
    assert_eq!(record.command, "echo hi");
    assert_eq!(record.verdict, "auto_approved");
    assert!(hook.after_tool_call("s", &shell("echo hi"), "hi", "t2").is_none());
}

#[test]
fn blocked_commands_are_refused_without_a_question() {
    let mut hook = hook(&config());
    for _ in 0..5 {
        let (decision, record) = hook.before_tool_call("s", &shell("sudo ls"), "t");
        match decision {
            Decision::Refused(r) => {
                assert_eq!(r.name, "shell");
                assert!(r.reason.starts_with("Blocked by sandbox: "));
            }
            _ => panic!("expected a refusal"),
        }
        assert_eq!(record.unwrap().verdict, "blocked");
    }
    let (decision, _) = hook.before_tool_call("s", &shell("echo hi"), "t");
    assert!(matches!(decision, Decision::Allowed));
}

#[test]
fn unknown_commands_wait_for_the_user() {
    for (reply, approved) in [
        (answer(Some(0)), true),
        (answer(Some(2)), true),
        (answer(Some(1)), false),
        (answer(None), false),
        (None, false),
    ] {
        let mut hook = hook(&config());
        let (decision, record) = hook.before_tool_call("s", &shell("curl x"), "t");
        assert!(matches!(decision, Decision::AskUser(ref c) if c == "curl x"));
        assert!(record.is_none());
        let (verdict, record) = hook.on_approval("s", "curl x", &reply, "t");
        assert_eq!(verdict.is_ok(), approved);
        let expected = if approved { "user_approved" } else { "user_denied" };
        assert_eq!(record.unwrap().verdict, expected);
    }
    let request = hook(&config()).approval_request("r1", "curl x");
    assert_eq!(request.options, vec!["Approve", "Deny", "Other…"]);
}

#[test]
fn other_tools_are_recorded_once_they_ran() {
    let mut hook = hook(&config());
    let ls = call("ls", "{}");
    let (decision, record) = hook.before_tool_call("s", &ls, "t");
    assert!(matches!(decision, Decision::Allowed));
    assert!(record.is_none());
    let long = "x".repeat(101);
    let record = hook.after_tool_call("s", &ls, &long, "t").unwrap();
    assert_eq!(record.outcome, format!("{}...", "x".repeat(100)));
    let record = hook.on_tool_failed("s", &ls, "gone", "t").unwrap();
    assert_eq!(record.verdict, "tool_failed");
    let record = hook.on_run_finish("s", &RunOutcome::Cancelled, "t").unwrap();
    assert_eq!(record.outcome, "run outcome: cancelled");
}

#[test]
fn arguments_that_are_no_json_are_the_command() {
    let hook = DangerousCommandApprovalHook;
    assert_eq!(hook.request(&call("shell", "ls -l")), Some("ls -l".to_string()));
    assert_eq!(hook.request(&call("shell", "[1]")), Some(String::new()));
    assert_eq!(hook.request(&call("shell", r#"{"command":"pwd"}"#)), Some("pwd".to_string()));
    assert_eq!(hook.request(&call("ls", "{}")), None);
    assert!(hook.before_tool_call(&call("shell", "ls"), Some(true)).is_ok());
    assert!(hook.before_tool_call(&call("shell", "ls"), Some(false)).is_err());
    assert!(hook.before_tool_call(&call("shell", "ls"), None).is_err());
    assert!(hook.before_tool_call(&call("ls", "{}"), None).is_ok());
}

#[test]
fn usage_follows_the_history_of_calls() {
    let mut tracker = ResourceTracker::new(&config());
    // Nothing is recorded of a session that was never checked.
    for _ in 0..10 {
        tracker.record("a", "ls");
    }
    assert!(tracker.check("a", "shell").is_ok());
    // A refused check opens no shell, and other sessions are apart.
    assert!(tracker.check("a", "shell").is_err());
    assert!(tracker.check("b", "shell").is_ok());
    tracker.record("a", "shell");
    assert!(tracker.check("a", "shell").is_ok());
    assert!(tracker.check("b", "shell").is_err());
}
