//! What can be wrong with what tmux and thumbs report.

use vstd::prelude::*;

verus! {

/// Why a step could not be completed.
#[derive(Clone, Copy, Debug, PartialEq, Eq, Structural)]
pub enum SwapError {
    /// A line of the pane listing lacks fields.
    PaneRow,
    /// No line of the pane listing is that of the active pane.
    ActivePane,
    /// The height of the active pane is not a number.
    PaneHeight,
    /// The width of the active pane is not a number.
    PaneWidth,
    /// The position of the copy-mode cursor is not a pair of numbers.
    CopyCursor,
    /// The scroll position of the active pane is not a number.
    PaneScroll,
    /// The history size of the active pane is not a number.
    HistorySize,
    /// The rows to capture are out of range.
    ScrollRange,
    /// The selection has no column that is a number.
    JumpColumn,
    /// The selection has no row that is a number.
    JumpRow,
    /// The row to move to is out of range.
    RowRange,
}

/// The message that belongs to an error.
pub open spec fn error_message(error: SwapError) -> Seq<char> {
    match error {
        SwapError::PaneRow => "Unable to read the pane listing"@,
        SwapError::ActivePane => "Unable to find active pane"@,
        SwapError::PaneHeight => "Unable to retrieve pane height"@,
        SwapError::PaneWidth => "Unable to retrieve pane width"@,
        SwapError::CopyCursor => "Unable to retrieve copy cursor position"@,
        SwapError::PaneScroll => "Unable to retrieve pane scroll"@,
        SwapError::HistorySize => "Unable to retrieve history size"@,
        SwapError::ScrollRange => "Pane scroll out of range"@,
        SwapError::JumpColumn => "Invalid jump column"@,
        SwapError::JumpRow => "Invalid jump row"@,
        SwapError::RowRange => "Jump row out of range"@,
    }
}

impl SwapError {
    /// The message to stop with.
    pub fn message(&self) -> (text: &'static str)
        ensures
            text@ == error_message(*self),
    {
        match self {
            SwapError::PaneRow => "Unable to read the pane listing",
            SwapError::ActivePane => "Unable to find active pane",
            SwapError::PaneHeight => "Unable to retrieve pane height",
            SwapError::PaneWidth => "Unable to retrieve pane width",
            SwapError::CopyCursor => "Unable to retrieve copy cursor position",
            SwapError::PaneScroll => "Unable to retrieve pane scroll",
            SwapError::HistorySize => "Unable to retrieve history size",
            SwapError::ScrollRange => "Pane scroll out of range",
            SwapError::JumpColumn => "Invalid jump column",
            SwapError::JumpRow => "Invalid jump row",
            SwapError::RowRange => "Jump row out of range",
        }
    }
}

} // verus!
