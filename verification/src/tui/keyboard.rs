//! Keys, and the shortcuts that follow the platform's convention.

use vstd::prelude::*;

verus! {

/// The platform, as far as shortcuts differ.
#[derive(Clone, Copy, Debug, PartialEq, Eq, Structural)]
pub enum Platform {
    /// Copy and paste are on the command key.
    MacOs,
    /// Copy and paste are on the control key.
    Other,
}

/// A key.
#[derive(Clone, Copy, Debug, PartialEq, Eq, Structural)]
pub enum KeyCode {
    Char(char),
    Enter,
    Esc,
    Tab,
    Backspace,
    Delete,
    Up,
    Down,
    Left,
    Right,
    Home,
    End,
    PageUp,
    PageDown,
    F(u8),
    /// A key that has no meaning here.
    Other,
}

/// The modifiers that were held.
#[derive(Clone, Copy, Debug, PartialEq, Eq, Structural)]
pub struct KeyModifiers {
    pub shift: bool,
    pub control: bool,
    pub command: bool,
}

impl KeyModifiers {
    /// No modifier.
    #[verifier::allow_in_spec]
    pub fn none() -> KeyModifiers
        returns
            (KeyModifiers { shift: false, control: false, command: false }),
    {
        KeyModifiers { shift: false, control: false, command: false }
    }

    /// The control key alone.
    #[verifier::allow_in_spec]
    pub fn control() -> KeyModifiers
        returns
            (KeyModifiers { shift: false, control: true, command: false }),
    {
        KeyModifiers { shift: false, control: true, command: false }
    }

    /// The command key alone.
    #[verifier::allow_in_spec]
    pub fn command() -> KeyModifiers
        returns
            (KeyModifiers { shift: false, control: false, command: true }),
    {
        KeyModifiers { shift: false, control: false, command: true }
    }

    /// The shift key alone.
    #[verifier::allow_in_spec]
    pub fn shift() -> KeyModifiers
        returns
            (KeyModifiers { shift: true, control: false, command: false }),
    {
        KeyModifiers { shift: true, control: false, command: false }
    }
}

/// A key with its modifiers.
#[derive(Clone, Copy, Debug, PartialEq, Eq, Structural)]
pub struct KeyEvent {
    pub code: KeyCode,
    pub modifiers: KeyModifiers,
}

impl KeyEvent {
    /// The key `code` with `modifiers`.
    #[verifier::allow_in_spec]
    pub fn new(code: KeyCode, modifiers: KeyModifiers) -> KeyEvent
        returns
            (KeyEvent { code, modifiers }),
    {
        KeyEvent { code, modifiers }
    }
}

/// Whether `key` pastes: the control key with `v`, and on macOS the command
/// key with it too.
#[verifier::allow_in_spec]
pub fn is_paste_shortcut(key: &KeyEvent, platform: Platform) -> bool
    returns
        key.code == KeyCode::Char('v') && (key.modifiers.control || (platform == Platform::MacOs
            && key.modifiers.command)),
{
    key.code == KeyCode::Char('v') && (key.modifiers.control || (platform == Platform::MacOs
        && key.modifiers.command))
}

/// Whether `key` copies: `c` with the command key on macOS, with the control
/// key elsewhere.
#[verifier::allow_in_spec]
pub fn is_copy_shortcut(key: &KeyEvent, platform: Platform) -> bool
    returns
        key.code == KeyCode::Char('c') && (if platform == Platform::MacOs {
            key.modifiers.command
        } else {
            key.modifiers.control
        }),
{
    key.code == KeyCode::Char('c') && (if platform == Platform::MacOs {
        key.modifiers.command
    } else {
        key.modifiers.control
    })
}

/// Whether `key` cancels: the control key with `c`, everywhere.
#[verifier::allow_in_spec]
pub fn is_cancel_shortcut(key: &KeyEvent) -> bool
    returns
        key.code == KeyCode::Char('c') && key.modifiers.control,
{
    key.code == KeyCode::Char('c') && key.modifiers.control
}

/// Whether `key` is a chord and no typed text: the control key is held, or
/// on macOS the command key.
#[verifier::allow_in_spec]
pub fn has_shortcut_modifier(key: &KeyEvent, platform: Platform) -> bool
    returns
        key.modifiers.control || (platform == Platform::MacOs && key.modifiers.command),
{
    key.modifiers.control || (platform == Platform::MacOs && key.modifiers.command)
}

/// The label of the copy shortcut.
#[verifier::allow_in_spec]
pub fn copy_shortcut_label(platform: Platform) -> &'static str
    returns
        (if platform == Platform::MacOs {
            "Cmd+C"
        } else {
            "Ctrl+C"
        }),
{
    if platform == Platform::MacOs {
        "Cmd+C"
    } else {
        "Ctrl+C"
    }
}

/// The label of the paste shortcut.
#[verifier::allow_in_spec]
pub fn paste_shortcut_label(platform: Platform) -> &'static str
    returns
        (if platform == Platform::MacOs {
            "Cmd+V"
        } else {
            "Ctrl+V"
        }),
{
    if platform == Platform::MacOs {
        "Cmd+V"
    } else {
        "Ctrl+V"
    }
}

/// The label of the cancel shortcut.
#[verifier::allow_in_spec]
pub fn cancel_shortcut_label() -> &'static str
    returns
        "Ctrl+C",
{
    "Ctrl+C"
}

/// Every shortcut is a chord: no shortcut is ever typed text.
pub proof fn law_shortcuts_are_chords(key: KeyEvent, platform: Platform)
    ensures
        is_paste_shortcut(&key, platform) ==> has_shortcut_modifier(&key, platform),
        is_copy_shortcut(&key, platform) ==> has_shortcut_modifier(&key, platform),
        is_cancel_shortcut(&key) ==> has_shortcut_modifier(&key, platform),
{
}

/// One key copies and cancels, but on macOS, where no key does both unless
/// both modifiers are held.
pub proof fn law_copy_and_cancel(key: KeyEvent, platform: Platform)
    ensures
        platform == Platform::Other ==> is_copy_shortcut(&key, platform) == is_cancel_shortcut(
            &key,
        ),
        platform == Platform::MacOs && is_copy_shortcut(&key, platform) && is_cancel_shortcut(&key)
            ==> key.modifiers.control && key.modifiers.command,
{
}

} // verus!
