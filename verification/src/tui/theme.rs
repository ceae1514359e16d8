//! Semantic colours, icons and spinner frames of the interface.

use vstd::prelude::*;

verus! {

/// A terminal colour.
#[derive(Clone, Copy, Debug, PartialEq, Eq, Structural)]
pub enum Color {
    Black,
    Red,
    Green,
    Yellow,
    Magenta,
    Cyan,
    Gray,
    DarkGray,
    White,
    Rgb(u8, u8, u8),
}

/// How a span is drawn: colours and modifiers.
#[derive(Clone, Copy, Debug, PartialEq, Eq, Structural)]
pub struct Style {
    pub fg: Option<Color>,
    pub bg: Option<Color>,
    pub bold: bool,
    pub dim: bool,
    pub italic: bool,
}

impl Style {
    /// No colour and no modifier.
    #[verifier::allow_in_spec]
    pub fn plain() -> Style
        returns
            (Style { fg: None, bg: None, bold: false, dim: false, italic: false }),
    {
        Style { fg: None, bg: None, bold: false, dim: false, italic: false }
    }

    /// A foreground colour alone.
    #[verifier::allow_in_spec]
    pub fn fg(color: Color) -> Style
        returns
            (Style { fg: Some(color), bg: None, bold: false, dim: false, italic: false }),
    {
        Style { fg: Some(color), bg: None, bold: false, dim: false, italic: false }
    }

    /// The same style on the background `color`.
    #[verifier::allow_in_spec]
    pub fn on(self, color: Color) -> Style
        returns
            (Style { bg: Some(color), ..self }),
    {
        Style { bg: Some(color), ..self }
    }

    /// The same style in bold.
    #[verifier::allow_in_spec]
    pub fn bold(self) -> Style
        returns
            (Style { bold: true, ..self }),
    {
        Style { bold: true, ..self }
    }

    /// The same style, dimmed.
    #[verifier::allow_in_spec]
    pub fn dim(self) -> Style
        returns
            (Style { dim: true, ..self }),
    {
        Style { dim: true, ..self }
    }

    /// The same style in italics.
    #[verifier::allow_in_spec]
    pub fn italic(self) -> Style
        returns
            (Style { italic: true, ..self }),
    {
        Style { italic: true, ..self }
    }
}

// ── Semantic colours ────────────────────────────────────────────────────

/// Primary accent: user prompts, input border, links to actions.
pub const ACCENT: Color = Color::Cyan;

/// In progress: running tools, reasoning, interventions, plan mode.
pub const WARNING: Color = Color::Yellow;

/// Completed tools, answered interventions, shell prompts.
pub const SUCCESS: Color = Color::Green;

/// Failures of any kind.
pub const ERROR: Color = Color::Red;

/// System messages, intervention borders.
pub const INFO: Color = Color::Magenta;

/// Primary text on the chat background.
pub const TEXT_PRIMARY: Color = Color::White;

/// Timestamps, unselected options, placeholders.
pub const TEXT_SECONDARY: Color = Color::DarkGray;

/// Tool output previews.
pub const TEXT_OUTPUT: Color = Color::Gray;

/// The cursor's foreground where it is drawn as an inverted block.
pub const CURSOR_FG: Color = Color::Black;

/// Completion descriptions, status bar foreground.
#[verifier::allow_in_spec]
pub fn text_dim() -> Color
    returns
        Color::Rgb(180, 190, 200),
{
    Color::Rgb(180, 190, 200)
}

// ── Status bar ──────────────────────────────────────────────────────────

/// Status bar background.
#[verifier::allow_in_spec]
pub fn status_bg() -> Color
    returns
        Color::Rgb(30, 40, 50),
{
    Color::Rgb(30, 40, 50)
}

/// Status bar accent while the agent is streaming (amber).
#[verifier::allow_in_spec]
pub fn status_accent_streaming() -> Color
    returns
        Color::Rgb(255, 180, 50),
{
    Color::Rgb(255, 180, 50)
}

/// Status bar accent while idle (green).
#[verifier::allow_in_spec]
pub fn status_accent_idle() -> Color
    returns
        Color::Rgb(80, 200, 120),
{
    Color::Rgb(80, 200, 120)
}

// ── Borders ─────────────────────────────────────────────────────────────

/// Chat area border.
pub const BORDER: Color = Color::DarkGray;

/// Input border while idle.
pub const BORDER_INPUT: Color = ACCENT;

/// Input border while streaming.
pub const BORDER_INJECT: Color = WARNING;

/// Input border while an intervention is pending.
pub const BORDER_CHOOSE: Color = INFO;

/// Input border in plan mode.
pub const BORDER_PLAN: Color = WARNING;

/// Input border while a shell command awaits confirmation.
pub const BORDER_CONFIRM: Color = WARNING;

// ── Overlays and selection ──────────────────────────────────────────────

/// Background of the text selected with the mouse.
#[verifier::allow_in_spec]
pub fn selection_bg() -> Color
    returns
        Color::Rgb(50, 60, 90),
{
    Color::Rgb(50, 60, 90)
}

/// Background of popups.
#[verifier::allow_in_spec]
pub fn overlay_bg() -> Color
    returns
        Color::Rgb(20, 25, 35),
{
    Color::Rgb(20, 25, 35)
}

/// Scrollbar thumb.
pub const SCROLLBAR_THUMB: Color = Color::DarkGray;

/// Scrollbar track, drawn dimmed.
#[verifier::allow_in_spec]
pub fn scrollbar_track() -> Color
    returns
        Color::Rgb(60, 60, 60),
{
    Color::Rgb(60, 60, 60)
}

/// Headings and the logo.
#[verifier::allow_in_spec]
pub fn heading() -> Color
    returns
        Color::Rgb(100, 180, 255),
{
    Color::Rgb(100, 180, 255)
}

// ── Icons ───────────────────────────────────────────────────────────────

pub const ICON_USER: &'static str = "> ";

pub const ICON_SHELL: &'static str = "$ ";

pub const ICON_SUCCESS: &'static str = "✓ ";

pub const ICON_REJECTED: &'static str = "⊘ ";

pub const ICON_ERROR: &'static str = "✗ ";

pub const ICON_INFO: &'static str = "ℹ ";

pub const ICON_INTERVENTION: &'static str = "⚡ ";

pub const ICON_SELECTED: &'static str = "▶ ";

pub const SCROLL_THUMB: &'static str = "█";

pub const SCROLL_TRACK: &'static str = "│";

// ── Spinner ─────────────────────────────────────────────────────────────

/// The number of spinner frames.
pub const SPINNER_FRAME_COUNT: usize = 10;

/// Minimum milliseconds between two frames.
pub const SPINNER_INTERVAL_MS: u64 = 100;

/// The spinner frame for an animation index; the frames repeat.
pub open spec fn spinner(index: int) -> Seq<char> {
    let i = index % 10;
    if i == 0 {
        "⠋"@
    } else if i == 1 {
        "⠙"@
    } else if i == 2 {
        "⠹"@
    } else if i == 3 {
        "⠸"@
    } else if i == 4 {
        "⠼"@
    } else if i == 5 {
        "⠴"@
    } else if i == 6 {
        "⠦"@
    } else if i == 7 {
        "⠧"@
    } else if i == 8 {
        "⠇"@
    } else {
        "⠏"@
    }
}

/// The spinner frame for an animation index; the frames repeat.
pub fn spinner_frame(index: usize) -> (r: &'static str)
    ensures
        r@ == spinner(index as int),
{
    let i: usize = index % SPINNER_FRAME_COUNT;
    if i == 0 {
        "⠋"
    } else if i == 1 {
        "⠙"
    } else if i == 2 {
        "⠹"
    } else if i == 3 {
        "⠸"
    } else if i == 4 {
        "⠼"
    } else if i == 5 {
        "⠴"
    } else if i == 6 {
        "⠦"
    } else if i == 7 {
        "⠧"
    } else if i == 8 {
        "⠇"
    } else {
        "⠏"
    }
}

// ── Shared styles ───────────────────────────────────────────────────────

/// The dim style of the timestamp in front of a chat message.
#[verifier::allow_in_spec]
pub fn ts_style() -> Style
    returns
        Style::fg(TEXT_SECONDARY).dim(),
{
    Style::fg(TEXT_SECONDARY).dim()
}

/// The style of placeholders, hints and overlay footers.
#[verifier::allow_in_spec]
pub fn hint_style() -> Style
    returns
        Style::fg(TEXT_SECONDARY).dim(),
{
    Style::fg(TEXT_SECONDARY).dim()
}

} // verus!
