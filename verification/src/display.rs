//! What the display shows: the error taxonomy shared by all commands, and the
//! text engine with its fonts and animations.

use crate::display::text_display::{TextDisplay, TextDisplayView};
use vstd::prelude::*;

pub mod font;
pub mod glyphs;
pub mod row_text;
pub mod text_animations;
pub mod text_display;

verus! {

/// Why a command was not carried out. Each kind has one fixed message, which is
/// sent back to the host verbatim.
#[derive(Debug, Clone, Copy, PartialEq, Eq, Structural)]
pub enum DisplayError {
    OutOfBounds,
    IncorrectMode,
    InvalidSetting,
    InvalidCommand,
    DrawError,
}

impl DisplayError {
    /// The message of each kind, as a sequence of characters.
    pub open spec fn message_spec(self) -> Seq<char> {
        match self {
            DisplayError::OutOfBounds => "Index out of Bounds"@,
            DisplayError::IncorrectMode => "Incorrect Mode"@,
            DisplayError::InvalidSetting => "Invalid Setting"@,
            DisplayError::InvalidCommand => "Invalid Command"@,
            DisplayError::DrawError => "Drawing Error"@,
        }
    }

    /// The fixed ASCII message of this error.
    pub fn message(&self) -> (text: &'static str)
        ensures
            text@ == self.message_spec(),
    {
        match self {
            DisplayError::OutOfBounds => "Index out of Bounds",
            DisplayError::IncorrectMode => "Incorrect Mode",
            DisplayError::InvalidSetting => "Invalid Setting",
            DisplayError::InvalidCommand => "Invalid Command",
            DisplayError::DrawError => "Drawing Error",
        }
    }
}

/// What the display is used for: animated text, or drawing commands that go
/// straight to the panel.
#[derive(Debug)]
pub enum DisplayMode {
    TextMode(TextDisplay),
    DirectMode,
}

/// Mathematical model of the display mode.
pub enum DisplayModeView {
    TextMode(TextDisplayView),
    DirectMode,
}

impl DisplayModeView {
    pub open spec fn wf(self) -> bool {
        match self {
            DisplayModeView::TextMode(text) => text.wf(),
            DisplayModeView::DirectMode => true,
        }
    }
}

impl View for DisplayMode {
    type V = DisplayModeView;

    open spec fn view(&self) -> DisplayModeView {
        match self {
            DisplayMode::TextMode(text) => DisplayModeView::TextMode(text@),
            DisplayMode::DirectMode => DisplayModeView::DirectMode,
        }
    }
}

impl DisplayMode {
    pub open spec fn wf(&self) -> bool {
        self@.wf()
    }
}

} // verus!
