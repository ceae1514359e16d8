//! Shortcuts on either kind of platform.

use loomis::tui::keyboard::{
    cancel_shortcut_label, copy_shortcut_label, has_shortcut_modifier, is_cancel_shortcut,
    is_copy_shortcut, is_paste_shortcut, paste_shortcut_label, KeyCode, KeyEvent, KeyModifiers,
    Platform,
};

const PLATFORMS: [Platform; 2] = [Platform::MacOs, Platform::Other];

/// Builds a key event for `char` with the given modifiers.
fn key_with(char: char, modifiers: KeyModifiers) -> KeyEvent {
    KeyEvent::new(KeyCode::Char(char), modifiers)
}

// ── Paste ────────────────────────────────────────────────────────

#[test]
fn test_paste_shortcut_always_accepts_ctrl_v() {
    for platform in PLATFORMS {
        // Ctrl+V must paste on every platform — the fallback binding.
        let key = key_with('v', KeyModifiers::control());
        assert!(is_paste_shortcut(&key, platform));
    }
}

#[test]
fn test_paste_shortcut_accepts_cmd_v_only_on_macos() {
    for platform in PLATFORMS {
        let mac = platform == Platform::MacOs;
        let key = key_with('v', KeyModifiers::command());
        assert_eq!(
            is_paste_shortcut(&key, platform),
            mac,
            "Cmd+V pastes on macOS only"
        );
    }
}

#[test]
fn test_paste_shortcut_rejects_other_keys_and_modifiers() {
    for platform in PLATFORMS {
        let wrong_key = key_with('c', KeyModifiers::control());
        assert!(!is_paste_shortcut(&wrong_key, platform), "Ctrl+C is not paste");

        let bare_v = key_with('v', KeyModifiers::none());
        assert!(
            !is_paste_shortcut(&bare_v, platform),
            "bare 'v' is typed text, not paste"
        );
    }
}

// ── Copy ─────────────────────────────────────────────────────────

#[test]
fn test_copy_shortcut_on_macos_uses_cmd() {
    for platform in PLATFORMS {
        let mac = platform == Platform::MacOs;
        let cmd_c = key_with('c', KeyModifiers::command());
        assert_eq!(
            is_copy_shortcut(&cmd_c, platform),
            mac,
            "Cmd+C copies on macOS only"
        );
    }
}

#[test]
fn test_copy_shortcut_off_macos_uses_ctrl() {
    for platform in PLATFORMS {
        let mac = platform == Platform::MacOs;
        let ctrl_c = key_with('c', KeyModifiers::control());
        assert_eq!(
            is_copy_shortcut(&ctrl_c, platform),
            !mac,
            "Ctrl+C copies on non-macOS only"
        );
    }
}

// ── Cancel ───────────────────────────────────────────────────────

#[test]
fn test_cancel_shortcut_is_always_ctrl_c() {
    let ctrl_c = key_with('c', KeyModifiers::control());
    assert!(
        is_cancel_shortcut(&ctrl_c),
        "Ctrl+C cancels on every platform"
    );

    let cmd_c = key_with('c', KeyModifiers::command());
    assert!(
        !is_cancel_shortcut(&cmd_c),
        "Cmd+C never cancels — it is the copy-only key"
    );
}

// ── Shortcut modifier ─────────────────────────────────────────────

#[test]
fn test_shortcut_modifier_accepts_ctrl_everywhere() {
    for platform in PLATFORMS {
        let ctrl_z = key_with('z', KeyModifiers::control());
        assert!(
            has_shortcut_modifier(&ctrl_z, platform),
            "Ctrl+letter is always a chord"
        );
    }
}

#[test]
fn test_shortcut_modifier_accepts_cmd_only_on_macos() {
    for platform in PLATFORMS {
        let mac = platform == Platform::MacOs;
        let cmd_z = key_with('z', KeyModifiers::command());
        assert_eq!(
            has_shortcut_modifier(&cmd_z, platform),
            mac,
            "Cmd+letter is a chord on macOS only — elsewhere it is plain text"
        );
    }
}

#[test]
fn test_shortcut_modifier_rejects_shift_and_bare_keys() {
    for platform in PLATFORMS {
        // Shift+letter is uppercase text, not a chord.
        let shift_z = key_with('z', KeyModifiers::shift());
        assert!(!has_shortcut_modifier(&shift_z, platform));

        let bare_z = key_with('z', KeyModifiers::none());
        assert!(!has_shortcut_modifier(&bare_z, platform));
    }
}

// ── Labels ───────────────────────────────────────────────────────

#[test]
fn test_labels_match_platform() {
    for platform in PLATFORMS {
        let mac = platform == Platform::MacOs;
        assert_eq!(cancel_shortcut_label(), "Ctrl+C");
        assert_eq!(copy_shortcut_label(platform), if mac { "Cmd+C" } else { "Ctrl+C" });
        assert_eq!(paste_shortcut_label(platform), if mac { "Cmd+V" } else { "Ctrl+V" });
    }
}
