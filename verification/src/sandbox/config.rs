//! The settings of the sandbox.

use vstd::prelude::*;

verus! {

/// What the sandbox is told of commands, quotas and the audit trail.
#[derive(Clone, Debug)]
pub struct SandboxConfig {
    /// First words that run without confirmation.
    pub auto_approve_prefixes: Vec<String>,
    /// Regular expressions of commands that never run.
    pub deny_patterns: Vec<String>,
    /// The only binaries that may run; any may where the list is empty.
    pub allowed_binaries: Vec<String>,
    /// How many operations a session may make.
    pub max_total_operations: usize,
    /// How many shells a session may have running.
    pub max_concurrent_shells: usize,
    /// Whether shell executions are recorded.
    pub audit_enabled: bool,
}

} // verus!
