//! Traces of runs, and the overlay that shows them.

use loomis::hooks::observability_hook::{cumulative_usage, ObservabilityHook, Usage, INPUT_BYTES};
use loomis::hooks::RunOutcome;
use loomis::memory::{Message, Role, ToolCallRef};
use loomis::tui::debug::{
    format_duration, format_tokens_short, format_trace_event, DebugOverlay, Figures, TraceEvent,
    MAX_DISPLAY_EVENTS,
};

fn call(id: &str) -> ToolCallRef {
    ToolCallRef { id: id.to_string(), name: "ls".to_string(), arguments: "{}".to_string() }
}

fn usage(total: u32) -> Usage {
    Usage { prompt_tokens: total - 1, completion_tokens: 1, total_tokens: total }
}

fn figures() -> Figures {
    Figures { seconds: "1.2".to_string(), tokens: "3.4".to_string() }
}

fn content(event: &TraceEvent) -> String {
    format_trace_event(event, &figures()).spans.iter().map(|s| s.content.as_str()).collect()
}

fn step(n: usize) -> TraceEvent {
    TraceEvent::StepStarted { step: n }
}

#[test]
fn a_run_is_counted_from_zero() {
    let mut hook = ObservabilityHook::new();
    hook.on_run_start("s1", "hi", 1_000);
    hook.on_step_start(1);
    hook.on_llm_start(3, 1_100);
    let reply = Message::new(Role::Assistant, "ok".to_string());
    match hook.on_llm_end(&reply, Some(usage(20)), 1_600) {
        TraceEvent::LlmCallFinished { step, duration, usage: used, .. } => {
            assert_eq!(step, 1);
            assert_eq!(duration, 500);
            assert_eq!(used, usage(20));
        }
        other => panic!("got {other:?}"),
    }
    assert_eq!(hook.metrics.steps, 1);
    assert_eq!(hook.metrics.llm_calls, 1);
    assert!(hook.metrics.run_started);
    match hook.on_run_finish(&RunOutcome::Cancelled, &vec![usage(20), usage(5)], None, 3_000) {
        TraceEvent::RunFinished { total_duration, total_steps, total_llm_calls, cumulative_usage, .. } => {
            assert_eq!(cumulative_usage.total_tokens, 25);
            assert_eq!(total_duration, 2_000);
            assert_eq!(total_steps, 1);
            assert_eq!(total_llm_calls, 1);
        }
        other => panic!("got {other:?}"),
    }
    hook.on_run_start("s1", "again", 9_000);
    assert_eq!(hook.metrics.steps, 0);
    assert_eq!(hook.metrics.llm_calls, 0);
}

#[test]
fn calls_are_timed_apart() {
    let mut hook = ObservabilityHook::new();
    hook.on_run_start("s1", "hi", 0);
    hook.before_tool_call(&call("a"), 100);
    hook.before_tool_call(&call("b"), 150);
    match hook.after_tool_call(&call("a"), "four", 300) {
        TraceEvent::ToolCallFinished {
            tool_call_id, duration, success, output_size_bytes, ..
        } => {
            assert_eq!(tool_call_id, "a");
            assert_eq!(duration, 200);
            assert!(success);
            assert_eq!(output_size_bytes, 4);
        }
        other => panic!("got {other:?}"),
    }
    match hook.on_tool_failed(&call("b"), 400) {
        TraceEvent::ToolCallFinished { duration, success, .. } => {
            assert_eq!(duration, 250);
            assert!(!success);
        }
        other => panic!("got {other:?}"),
    }
    assert_eq!(hook.metrics.tool_calls, 2);
    assert_eq!(hook.metrics.tool_errors, 1);
}

#[test]
fn long_inputs_are_cut_in_the_trace() {
    let mut hook = ObservabilityHook::new();
    let long = "\u{4e2d}".repeat(INPUT_BYTES);
    match hook.on_run_start("s1", &long, 0) {
        TraceEvent::RunStarted { session_id, user_input, .. } => {
            assert_eq!(session_id, "s1");
            assert_eq!(user_input, "\u{4e2d}".repeat(66) + "…");
        }
        other => panic!("got {other:?}"),
    }
    // A hundred characters of two bytes are kept; with one more they are cut.
    let full = "\u{e9}".repeat(100);
    for (input, kept) in [(full.clone(), full.clone()), (full.clone() + "1", full + "…")] {
        match hook.on_run_start("s1", &input, 0) {
            TraceEvent::RunStarted { user_input, .. } => assert_eq!(user_input, kept),
            other => panic!("got {other:?}"),
        }
    }
}

#[test]
fn retries_are_counted() {
    let mut hook = ObservabilityHook::new();
    hook.on_run_start("s1", "hi", 0);
    hook.on_step_start(4);
    hook.on_llm_start(2, 100);
    match hook.on_llm_error("429", 1, true, 130) {
        TraceEvent::LlmCallFailed { step, attempt, will_retry, duration, .. } => {
            assert_eq!((step, attempt, will_retry, duration), (4, 1, true, 30));
        }
        other => panic!("got {other:?}"),
    }
    hook.on_llm_error("429", 2, false, 140);
    assert_eq!(hook.metrics.llm_retries, 1);
}

#[test]
fn usage_adds_up() {
    let total = cumulative_usage(&vec![usage(20), usage(5)], None);
    assert_eq!(total.total_tokens, 25);
}

#[test]
fn numbers_are_short() {
    assert_eq!(format_duration(950, "0.9"), "950ms");
    assert_eq!(format_duration(1_234, "1.2"), "1.2s");
    assert_eq!(format_tokens_short(999, ""), "999");
    assert!(format_tokens_short(3_400, "3.4").starts_with("3.4"));
}

#[test]
fn every_event_has_a_line() {
    assert!(content(&step(3)).contains('3'));
    let started = TraceEvent::ToolCallStarted {
        tool_call_id: "c1".to_string(),
        tool_name: "grep".to_string(),
        step: 1,
    };
    assert!(content(&started).contains("grep"));
    let rejected = TraceEvent::ToolCallRejected {
        tool_call_id: "c2".to_string(),
        tool_name: "shell".to_string(),
        reason: "blocked".to_string(),
    };
    assert!(content(&rejected).contains("blocked"));
    let long = TraceEvent::RunStarted {
        session_id: "s1".to_string(),
        user_input: "\u{4e2d}".repeat(40),
        max_steps: 0,
        max_retries: 0,
    };
    assert!(content(&long).contains('…'));
}

#[test]
fn the_overlay_keeps_the_newest_events() {
    let mut overlay = DebugOverlay::new();
    assert!(overlay.is_empty());
    overlay.sync((0..MAX_DISPLAY_EVENTS + 10).map(step).collect());
    assert_eq!(overlay.len(), MAX_DISPLAY_EVENTS);
    assert!(matches!(overlay.events[0], TraceEvent::StepStarted { step: 10 }));
}

#[test]
fn the_overlay_scrolls_within_its_events() {
    let mut overlay = DebugOverlay::new();
    overlay.sync((0..5).map(step).collect());
    overlay.scroll_up(100);
    assert!(overlay.scroll_offset <= 5);
    overlay.scroll_down(100);
    assert_eq!(overlay.scroll_offset, 0);
    let figures: Vec<Figures> = (0..5).map(|_| figures()).collect();
    assert_eq!(overlay.lines(&figures, 8).len(), 10);
    assert!(overlay.title().contains('5'));
}
