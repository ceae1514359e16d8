//! Pastes and their placeholders.

use loomis::tui::paste::{normalize_newlines, PasteStore};

#[test]
fn placeholder_includes_line_count_for_multi_line_paste() {
    let mut store = PasteStore::default();
    let placeholder = store.add_text("alpha\nbeta\ngamma".to_string());
    assert_eq!(placeholder, "[Pasted text #1 +3 lines]");
}

#[test]
fn placeholder_omits_line_count_for_single_line_paste() {
    let mut store = PasteStore::default();
    // add_text is normally only called for multi-line pastes, but the
    // label must stay correct if a caller passes single-line content.
    let placeholder = store.add_text("just one line".to_string());
    assert_eq!(placeholder, "[Pasted text #1]");
}

#[test]
fn block_ids_increment_across_pastes() {
    let mut store = PasteStore::default();
    let first = store.add_text("a\nb".to_string());
    let second = store.add_text("c\nd".to_string());
    assert_eq!(first, "[Pasted text #1 +2 lines]");
    assert_eq!(second, "[Pasted text #2 +2 lines]");
}

#[test]
fn expand_all_replaces_registered_placeholders() {
    let mut store = PasteStore::default();
    let placeholder = store.add_text("line one\nline two".to_string());
    let input = format!("please review:\n{placeholder}\nthanks");
    assert_eq!(
        store.expand_all(&input),
        "please review:\nline one\nline two\nthanks"
    );
}

#[test]
fn expand_all_handles_multiple_blocks() {
    let mut store = PasteStore::default();
    let first = store.add_text("1\n2".to_string());
    let second = store.add_text("a\nb\nc".to_string());
    let input = format!("{first} then {second}");
    assert_eq!(store.expand_all(&input), "1\n2 then a\nb\nc");
}

#[test]
fn expand_all_leaves_unregistered_literal_placeholders_untouched() {
    let store = PasteStore::default();
    // The user typed the placeholder text by hand; no block is
    // registered, so the text must pass through unchanged.
    let typed = "literal [Pasted text #1 +9 lines] typed by hand";
    assert_eq!(store.expand_all(typed), typed);
}

#[test]
fn placeholder_suffix_matches_only_at_the_end() {
    let mut store = PasteStore::default();
    let placeholder = store.add_text("x\ny".to_string());

    let cursor_at_end = format!("prefix {placeholder}");
    assert_eq!(
        store.placeholder_suffix(&cursor_at_end),
        Some(placeholder.clone())
    );

    // Text after the placeholder means the cursor is not right behind
    // it — Backspace should delete a plain character instead.
    let cursor_not_at_end = format!("{placeholder} trailing");
    assert_eq!(store.placeholder_suffix(&cursor_not_at_end), None);
}

#[test]
fn placeholder_suffix_ignores_partial_lookalikes() {
    let mut store = PasteStore::default();
    store.add_text("x\ny".to_string());
    // Same prefix but not the exact placeholder string.
    assert_eq!(store.placeholder_suffix("text [Pasted text #1"), None);
    assert_eq!(store.placeholder_suffix("[Pasted text #9 +2 lines]"), None);
}

#[test]
fn remove_by_placeholder_removes_exactly_one_block() {
    let mut store = PasteStore::default();
    let first = store.add_text("a\nb".to_string());
    let second = store.add_text("c\nd".to_string());

    assert!(store.remove_by_placeholder(&first));
    assert_eq!(store.len(), 1);
    // Second removal of the same placeholder is a no-op.
    assert!(!store.remove_by_placeholder(&first));
    assert!(store.remove_by_placeholder(&second));
    assert_eq!(store.len(), 0);
}

#[test]
fn clear_restarts_id_numbering() {
    let mut store = PasteStore::default();
    store.add_text("a\nb".to_string());
    store.clear();
    assert_eq!(store.len(), 0);
    let placeholder = store.add_text("c\nd".to_string());
    assert_eq!(placeholder, "[Pasted text #1 +2 lines]");
}

#[test]
fn normalize_newlines_converts_crlf_and_cr() {
    // Windows CRLF → LF
    assert_eq!(normalize_newlines("a\r\nb\r\nc"), "a\nb\nc");
    // Old Mac CR → LF
    assert_eq!(normalize_newlines("a\rb\rc"), "a\nb\nc");
    // Mixed CRLF + bare CR → all LF
    assert_eq!(normalize_newlines("a\r\nb\rc"), "a\nb\nc");
    // Unix LF passes through unchanged.
    assert_eq!(normalize_newlines("a\nb\nc"), "a\nb\nc");
}

#[test]
fn every_expansion_gives_the_pasted_text_back() {
    let mut store = PasteStore::default();
    let first = store.add_text("\u{e9}\n\u{4e2d}".to_string());
    let second = store.add_text("b\nc".to_string());
    assert_eq!(store.expand_all(&first), "\u{e9}\n\u{4e2d}");
    assert_eq!(store.expand_all(&second), "b\nc");
    assert_eq!(store.expand_all("plain"), "plain");
}

#[test]
fn a_trailing_newline_starts_no_line() {
    let mut store = PasteStore::default();
    assert_eq!(store.add_text("a\nb\n".to_string()), "[Pasted text #1 +2 lines]");
}

#[test]
fn numbers_count_the_pastes_since_the_last_clear() {
    let mut store = PasteStore::default();
    let mut seen: Vec<String> = Vec::new();
    for n in 1..=5 {
        let p = store.add_text(format!("a\n{n}"));
        assert_eq!(p, format!("[Pasted text #{n} +2 lines]"));
        assert!(!seen.contains(&p));
        assert_eq!(store.expand_all(&p), format!("a\n{n}"));
        assert_eq!(store.placeholder_suffix(&p), Some(p.clone()));
        if n % 2 == 0 {
            assert!(store.remove_by_placeholder(&p));
        }
        seen.push(p);
    }
    assert_eq!(store.len(), 3);
    for p in [&seen[0], &seen[2], &seen[4]] {
        assert_eq!(store.placeholder_suffix(p).as_ref(), Some(p));
    }
}
