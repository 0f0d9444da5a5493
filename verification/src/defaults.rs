//! The commands that are run on a selection where the user gives none.

use vstd::prelude::*;

verus! {

/// For a hint.
pub const DEFAULT_COMMAND: &'static str = "tmux set-buffer -- \"{}\" && tmux display-message \"Copied {}\"";

/// For a hint that is picked in upper case.
pub const DEFAULT_UPCASE_COMMAND: &'static str = "tmux set-buffer -- \"{}\" && tmux paste-buffer && tmux display-message \"Copied {}\"";

/// For several hints.
pub const DEFAULT_MULTI_COMMAND: &'static str = "tmux set-buffer -- \"{}\" && tmux paste-buffer && tmux display-message \"Multi copied {}\"";

/// For a link that is picked in upper case: it is copied, and opened where the system
/// is macOS.
pub fn default_url_command(macos: bool) -> (command: &'static str)
    ensures
        command@ == (if macos {
            "tmux set-buffer -- \"{}\" && open \"{}\""@
        } else {
            "tmux set-buffer -- \"{}\""@
        }),
{
    if macos {
        "tmux set-buffer -- \"{}\" && open \"{}\""
    } else {
        "tmux set-buffer -- \"{}\""
    }
}

} // verus!
