//! The sandbox: which shell commands run, how many, with which environment,
//! and what is recorded of them.

pub mod audit_logger;
pub mod config;
pub mod env_sanitizer;
pub mod resource_tracker;
pub mod sandbox_laws;
pub mod shell_filter;
