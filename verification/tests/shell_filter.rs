//! The policy for shell commands.

use loomis::sandbox::config::SandboxConfig;
use loomis::sandbox::shell_filter::{extract_binary, CommandVerdict, ShellFilter};

fn texts(v: &[&str]) -> Vec<String> {
    v.iter().map(|s| s.to_string()).collect()
}

fn config() -> SandboxConfig {
    SandboxConfig {
        auto_approve_prefixes: texts(&["cargo", "git", "echo", "ls"]),
        deny_patterns: texts(&[r"rm\s+-rf\s+(/|~)", r"\bsudo\b", r"\bshutdown\b", "("]),
        allowed_binaries: Vec::new(),
        max_total_operations: 100,
        max_concurrent_shells: 5,
        audit_enabled: true,
    }
}

fn make_filter() -> ShellFilter {
    ShellFilter::from_config(&config())
}

#[test]
fn test_auto_approve_git_status() {
    let filter = make_filter();
    assert_eq!(filter.classify("git status"), CommandVerdict::AutoApproved);
}

#[test]
fn test_auto_approve_cargo_build() {
    let filter = make_filter();
    assert_eq!(
        filter.classify("cargo build --release"),
        CommandVerdict::AutoApproved
    );
}

#[test]
fn test_auto_approve_echo() {
    let filter = make_filter();
    assert_eq!(
        filter.classify("echo hello world"),
        CommandVerdict::AutoApproved
    );
}

#[test]
fn test_block_rm_rf_root() {
    let filter = make_filter();
    match filter.classify("rm -rf /") {
        CommandVerdict::Blocked { reason } => {
            assert!(reason.contains("deny-pattern"));
        }
        other => panic!("expected Blocked, got {other:?}"),
    }
}

#[test]
fn test_block_sudo() {
    let filter = make_filter();
    match filter.classify("sudo rm something") {
        CommandVerdict::Blocked { reason } => {
            assert!(reason.contains("deny-pattern"));
        }
        other => panic!("expected Blocked, got {other:?}"),
    }
}

#[test]
fn test_block_shutdown() {
    let filter = make_filter();
    match filter.classify("shutdown /s") {
        CommandVerdict::Blocked { .. } => {}
        other => panic!("expected Blocked, got {other:?}"),
    }
}

#[test]
fn test_requires_approval_unknown_command() {
    let filter = make_filter();
    assert_eq!(
        filter.classify("curl https://example.com"),
        CommandVerdict::RequiresApproval
    );
}

#[test]
fn test_strict_allowlist_mode() {
    let mut config = config();
    config.allowed_binaries = vec!["cargo".into(), "git".into()];
    let filter = ShellFilter::from_config(&config);

    // In allowlist — auto-approved (also in auto_approve list)
    assert_eq!(filter.classify("cargo build"), CommandVerdict::AutoApproved);

    // NOT in allowlist — blocked
    match filter.classify("python script.py") {
        CommandVerdict::Blocked { reason } => {
            assert!(reason.contains("not in the allowed-commands"));
        }
        other => panic!("expected Blocked, got {other:?}"),
    }
}

#[test]
fn test_quoted_binary() {
    let filter = make_filter();
    // A quoted command that isn't auto-approved should require approval
    let verdict = filter.classify("\"some tool\" arg");
    assert_eq!(verdict, CommandVerdict::RequiresApproval);
}

#[test]
fn patterns_that_do_not_compile_are_left_out() {
    assert_eq!(make_filter().deny_patterns.len(), 3);
    assert_eq!(make_filter().find_denial("sudo ls"), Some(1));
    assert_eq!(make_filter().find_denial("ls"), None);
}

#[test]
fn a_prefix_is_a_whole_word() {
    assert_eq!(make_filter().classify("gitk"), CommandVerdict::RequiresApproval);
    assert_eq!(make_filter().classify("git"), CommandVerdict::AutoApproved);
}

#[test]
fn a_denied_command_is_blocked_whatever_its_prefix() {
    match make_filter().classify("echo x && rm -rf /") {
        CommandVerdict::Blocked { .. } => {}
        other => panic!("expected Blocked, got {other:?}"),
    }
}

#[test]
fn the_binary_may_be_quoted() {
    assert_eq!(extract_binary("\"some tool\" arg"), "some tool");
    assert_eq!(extract_binary("  git status"), "git");
}
