//! The banner.

use loomis::tui::welcome::{
    clip_to_width, line_count, logo_rows, mascot_rows, render, COMPACT_THRESHOLD,
};
use unicode_width::UnicodeWidthStr;

#[test]
fn line_count_matches_render() {
    for width in [40, 71, 72, 80, 120] {
        let rendered = render("deepseek-chat", r"c:\workspace\loomis", width);
        assert_eq!(
            rendered.len(),
            line_count(width),
            "render/line_count mismatch at width {width}"
        );
    }
}

#[test]
fn mascot_rows_are_equal_display_width() {
    for row in mascot_rows() {
        assert_eq!(UnicodeWidthStr::width(row.as_str()), 9, "row {row:?} not 9 wide");
    }
}

#[test]
fn visual_preview() {
    for width in [100, 60] {
        println!("── width {width} ──");
        for line in render(
            "deepseek-chat",
            r"c:\Users\Administrator\RustroverProjects\loomis",
            width,
        ) {
            let s: String = line.spans.iter().map(|s| s.content.as_str()).collect();
            println!("{s}");
        }
    }
}

#[test]
fn compact_logo_used_below_threshold() {
    let lines = render("m", "w", COMPACT_THRESHOLD - 1);
    let first = lines[0].spans[0].content.as_str();
    assert!(first.contains('╔'), "expected compact logo, got {first:?}");
}

#[test]
fn a_long_path_is_clipped_to_the_columns_there_are() {
    assert_eq!(clip_to_width("short", 10), "short");
    let clipped = clip_to_width("abcdefghij", 5);
    assert!(clipped.contains('…'), "got {clipped:?}");
    assert_eq!(UnicodeWidthStr::width(clipped.as_str()), 5);
    // A heart drawn as an emoji takes two columns, though its first character
    // alone takes one.
    let clipped = clip_to_width("abc\u{2764}\u{fe0f}def", 5);
    assert!(UnicodeWidthStr::width(clipped.as_str()) <= 5, "got {clipped:?}");
}

#[test]
fn wide_screens_get_the_large_logo() {
    assert_eq!(logo_rows(COMPACT_THRESHOLD).len(), 6);
    assert_eq!(logo_rows(COMPACT_THRESHOLD - 1).len(), 3);
}
