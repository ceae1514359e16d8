//! Bursts of key events that are pastes.

use loomis::tui::event::{
    looks_like_paste_burst, paste_batch_to_text, KeyKind, TerminalEvent,
};
use loomis::tui::keyboard::{KeyCode, KeyEvent, KeyModifiers};

/// Builds a key event with no modifiers and the given kind.
fn key(code: KeyCode, kind: KeyKind) -> TerminalEvent {
    TerminalEvent::Key { key: KeyEvent::new(code, KeyModifiers::none()), kind }
}

/// Builds the event sequence one typed/pasted character produces on
/// Windows: a Press followed by a Release.
fn keystroke(code: KeyCode) -> Vec<TerminalEvent> {
    vec![
        key(code, KeyKind::Press),
        key(code, KeyKind::Release),
    ]
}

#[test]
fn test_multi_line_paste_burst_is_detected() {
    // Pasting "a\nb": three presses (a, Enter, b) interleaved with
    // releases — exactly what conhost/Windows Terminal injects.
    let mut batch = keystroke(KeyCode::Char('a'));
    batch.extend(keystroke(KeyCode::Enter));
    batch.extend(keystroke(KeyCode::Char('b')));

    assert!(looks_like_paste_burst(&batch));
    assert_eq!(paste_batch_to_text(&batch), "a\nb");
}

#[test]
fn test_lone_enter_is_not_a_paste() {
    // A human pressing Enter: below the burst threshold, so it stays
    // a normal submission.
    let batch = keystroke(KeyCode::Enter);
    assert!(!looks_like_paste_burst(&batch));
}

#[test]
fn test_fast_typist_rollover_is_not_a_paste() {
    // Two keys rolling over into one poll window (Enter + next char)
    // must not be mistaken for a paste — humans do this constantly.
    let mut batch = keystroke(KeyCode::Enter);
    batch.extend(keystroke(KeyCode::Char('x')));
    assert!(!looks_like_paste_burst(&batch));
}

#[test]
fn test_single_line_keystroke_burst_is_not_a_paste() {
    // A terminal-injected single-line paste has many presses but no
    // Enter — dispatch normally; the chars land in the input either way.
    let batch: Vec<TerminalEvent> = "hello"
        .chars()
        .flat_map(|c| keystroke(KeyCode::Char(c)))
        .collect();
    assert!(!looks_like_paste_burst(&batch));
}

#[test]
fn test_paste_text_skips_control_chars_and_releases() {
    let mut batch = vec![TerminalEvent::Key {
        key: KeyEvent::new(KeyCode::Char('c'), KeyModifiers::control()),
        kind: KeyKind::Press,
    }];
    batch.extend(keystroke(KeyCode::Char('x')));
    batch.extend(keystroke(KeyCode::Enter));

    assert!(looks_like_paste_burst(&batch));
    // Ctrl+C is a shortcut, not text; only 'x' and the newline survive.
    assert_eq!(paste_batch_to_text(&batch), "x\n");
}
