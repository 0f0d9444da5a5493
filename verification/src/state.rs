//! The state of a session as texts and numbers, and what its steps do to it.

use crate::capture::{capture_path, debug_path, lock_path, provide_commands};
use crate::clipboard::copy_text;
use crate::commands::{
    copy_mode_command, cursor_command, delete_selection_command, display_command,
    line_start_command, list_panes_command, read_selection_command, resize_window_command,
    script_command, selection_command, show_options_command, swap_panes_command,
    thumbs_window_command, wait_command, zoom_command, Command, TMP_FILE,
};
use crate::error::SwapError;
use crate::number::{decimal, parsed_i32};
use crate::options::listing_texts;
use crate::pane::{active_pane, parsed_cursor, parsed_position};
use crate::quote::shell_quoted;
use crate::selection::{choice, command_for, is_blank, jump_target, ChoiceText};
use crate::shell::{ran, replies, Exchange};
use crate::text::{joined, trimmed_end, Text};
use vstd::prelude::*;

verus! {

/// The state of a session. `log` is what was run so far.
#[verifier::ext_equal]
pub struct SwapperState {
    pub log: Seq<Exchange>,
    pub dir: Text,
    pub command: Text,
    pub upcase_command: Text,
    pub multi_command: Text,
    pub url_command: Text,
    pub jump: bool,
    pub character: Option<Text>,
    pub backward: bool,
    pub osc52: bool,
    pub active_pane_id: Option<Text>,
    pub active_pane_in_mode: bool,
    pub active_pane_cursor: Option<(i32, i32)>,
    pub active_pane_width: Option<i32>,
    pub active_pane_height: Option<i32>,
    pub active_pane_scroll_position: Option<i32>,
    pub active_pane_history_size: Option<i32>,
    pub active_pane_zoomed: Option<bool>,
    pub active_pane_captured_content: Option<Text>,
    pub thumbs_pane_id: Option<Text>,
    pub content: Option<Text>,
    pub ready_signal: Text,
    pub signal: Text,
    pub process_id: u32,
}

/// What a step runs, given the replies, and how it ends: with a state (but for the
/// record), or with an error.
pub struct Plan {
    pub commands: Seq<Command>,
    pub outcome: Result<SwapperState, SwapError>,
}

/// A step from one state to another went as planned. After an error the state is
/// what it was, but for the record.
pub open spec fn follows(
    before: SwapperState,
    after: SwapperState,
    result: Result<(), SwapError>,
    plan: Plan,
) -> bool {
    &&& ran(before.log, after.log, plan.commands)
    &&& match plan.outcome {
        Ok(state) => result == Ok::<(), SwapError>(()) && after == (SwapperState {
            log: after.log,
            ..state
        }),
        Err(e) => result == Err::<(), SwapError>(e) && after == (SwapperState {
            log: after.log,
            ..before
        }),
    }
}

/// A step ran exactly these commands, and changed nothing but the record.
pub open spec fn only_ran(
    before: SwapperState,
    after: SwapperState,
    commands: Seq<Command>,
) -> bool {
    &&& ran(before.log, after.log, commands)
    &&& after == (SwapperState { log: after.log, ..before })
}

/// What the copy mode says of its cursor.
pub open spec fn cursor_format() -> Text {
    "#{copy_cursor_x}:#{copy_cursor_y}"@
}

/// What the copy mode says of its cursor and its view.
pub open spec fn position_format() -> Text {
    "#{copy_cursor_x}:#{copy_cursor_y}:#{scroll_position}"@
}

/// A pane with these fields is in a mode.
pub open spec fn in_mode(pane: Seq<Text>) -> bool {
    pane[1] == "1"@
}

/// The width field of a pane; zero where it is missing.
pub open spec fn width_field(pane: Seq<Text>) -> Text {
    if pane.len() > 6 {
        pane[6]
    } else {
        "0"@
    }
}

/// What was found out about the active pane. What was not asked for is missing.
#[verifier::ext_equal]
pub struct PaneText {
    pub id: Text,
    /// It is in a mode now.
    pub in_mode: bool,
    pub width: i32,
    pub height: i32,
    pub zoomed: bool,
    pub cursor: Option<(i32, i32)>,
    pub capture: Option<Text>,
    pub scroll: Option<i32>,
    pub history: Option<i32>,
}

/// The commands that find out about the active pane, given the replies to them, and
/// what they find. For a jump the pane is put into copy mode, unless it is in a mode
/// already; then the capture file is provided.
pub open spec fn pane_plan(jump: bool, process: u32, r: Seq<Text>) -> (
    Seq<Command>,
    Result<PaneText, SwapError>,
) {
    let listed = seq![list_panes_command()];
    match active_pane(r[0]) {
        Err(e) => (listed, Err(e)),
        Ok(pane) => {
            let (more, found) = detail_plan(jump, process, pane, r.skip(1));
            (listed + more, found)
        },
    }
}

/// The commands that follow when the fields of the active pane are known.
pub open spec fn detail_plan(jump: bool, process: u32, pane: Seq<Text>, r: Seq<Text>) -> (
    Seq<Command>,
    Result<PaneText, SwapError>,
) {
    if parsed_i32(pane[2]) is None {
        (Seq::empty(), Err(SwapError::PaneHeight))
    } else if jump {
        let prepared = prepare_commands(process, pane, r);
        let asked = prepared + seq![display_command(pane[0], cursor_format())];
        match parsed_cursor(r[prepared.len() as int]) {
            None => (asked, Err(SwapError::CopyCursor)),
            Some(cursor) => {
                let capture = if in_mode(pane) {
                    Some(capture_path(pane[0]))
                } else {
                    None
                };
                size_plan(pane, true, Some(cursor), capture, asked, r)
            },
        }
    } else {
        size_plan(pane, in_mode(pane), None, None, Seq::empty(), r)
    }
}

/// What a jump does before it asks for the cursor.
pub open spec fn prepare_commands(process: u32, pane: Seq<Text>, r: Seq<Text>) -> Seq<Command> {
    if in_mode(pane) {
        provide_commands(pane[0], process, r)
    } else {
        seq![copy_mode_command(pane[0])]
    }
}

/// The end of finding out about the active pane: its width, and its view if it is in
/// a mode now.
pub open spec fn size_plan(
    pane: Seq<Text>,
    in_mode_now: bool,
    cursor: Option<(i32, i32)>,
    capture: Option<Text>,
    commands: Seq<Command>,
    r: Seq<Text>,
) -> (Seq<Command>, Result<PaneText, SwapError>) {
    let (more, view) = if in_mode_now {
        view_plan(pane, r.skip(commands.len() as int))
    } else {
        (Seq::empty(), Ok((None, None)))
    };
    match parsed_i32(width_field(pane)) {
        None => (commands, Err(SwapError::PaneWidth)),
        Some(width) => (
            commands + more,
            match view {
                Err(e) => Err(e),
                Ok((scroll, history)) => Ok(
                    PaneText {
                        id: pane[0],
                        in_mode: in_mode_now,
                        width,
                        height: parsed_i32(pane[2])->0,
                        zoomed: pane[4] == "1"@,
                        cursor,
                        capture,
                        scroll,
                        history,
                    },
                ),
            },
        ),
    }
}

/// Reads the scroll position and the size of the history of a pane that is in a mode
/// now. Of one that was in a mode before, the scroll position is in the listing and
/// the size of the history is asked for. Of one that was just put into copy mode,
/// only the scroll position is asked for.
pub open spec fn view_plan(pane: Seq<Text>, r: Seq<Text>) -> (
    Seq<Command>,
    Result<(Option<i32>, Option<i32>), SwapError>,
) {
    if in_mode(pane) {
        if parsed_i32(pane[3]) is None {
            (Seq::empty(), Err(SwapError::PaneScroll))
        } else {
            (
                seq![display_command(pane[0], "#{history_size}"@)],
                if parsed_i32(r[0]) is None {
                    Err(SwapError::HistorySize)
                } else {
                    Ok((parsed_i32(pane[3]), parsed_i32(r[0])))
                },
            )
        }
    } else {
        (
            seq![display_command(pane[0], "#{scroll_position}"@)],
            if parsed_i32(r[0]) is None {
                Err(SwapError::PaneScroll)
            } else {
                Ok((parsed_i32(r[0]), None))
            },
        )
    }
}

/// The new value where there is one, else the old one.
pub open spec fn updated<T>(new: Option<T>, old_value: Option<T>) -> Option<T> {
    if new is Some {
        new
    } else {
        old_value
    }
}

/// A state with what was found out about the active pane.
pub open spec fn noted(s: SwapperState, pane: PaneText) -> SwapperState {
    SwapperState {
        active_pane_id: Some(pane.id),
        active_pane_in_mode: pane.in_mode,
        active_pane_cursor: updated(pane.cursor, s.active_pane_cursor),
        active_pane_width: Some(pane.width),
        active_pane_height: Some(pane.height),
        active_pane_scroll_position: updated(pane.scroll, s.active_pane_scroll_position),
        active_pane_history_size: updated(pane.history, s.active_pane_history_size),
        active_pane_zoomed: Some(pane.zoomed),
        active_pane_captured_content: updated(pane.capture, s.active_pane_captured_content),
        ..s
    }
}

/// Finds the active pane and takes note of it.
pub open spec fn capture_plan(s: SwapperState, r: Seq<Text>) -> Plan {
    let (commands, found) = pane_plan(s.jump, s.process_id, r);
    Plan {
        commands,
        outcome: match found {
            Ok(pane) => Ok(noted(s, pane)),
            Err(e) => Err(e),
        },
    }
}

/// The step that `capture_active_pane` takes.
pub open spec fn captured(
    before: SwapperState,
    after: SwapperState,
    result: Result<(), SwapError>,
) -> bool {
    follows(before, after, result, capture_plan(before, replies(before.log, after.log)))
}

/// The first and the last row to capture are numbers that tmux can take.
pub open spec fn rows_fit(height: i32, scroll: i32) -> bool {
    &&& i32::MIN <= -scroll <= i32::MAX
    &&& i32::MIN <= height - scroll <= i32::MAX
    &&& i32::MIN <= height - scroll - 1 <= i32::MAX
}

/// Which rows to capture: those that the view shows, if it is known.
pub open spec fn scroll_text(height: Option<i32>, scroll: Option<i32>) -> Text {
    match (height, scroll) {
        (Some(height), Some(scroll)) => " -S "@ + decimal(-scroll) + " -E "@ + decimal(
            height - scroll - 1,
        ),
        _ => ""@,
    }
}

/// What thumbs is told of a jump.
pub open spec fn jump_text(s: SwapperState) -> Text {
    if !s.jump {
        ""@
    } else {
        let backward = if s.backward {
            " --backward"@
        } else {
            ""@
        };
        match s.character {
            Some(character) => {
                let (x, y) = s.active_pane_cursor->0;
                " --jump"@ + (" --character "@ + shell_quoted(character)) + backward + (
                " --start-x "@ + decimal(x as int) + " --start-y "@ + decimal(y as int))
            },
            None => " --jump"@ + backward,
        }
    }
}

/// What zooms the active pane again, if it was zoomed.
pub open spec fn zoom_text(s: SwapperState) -> Text {
    if s.active_pane_zoomed->0 {
        "tmux resize-pane -t "@ + s.active_pane_id->0 + " -Z;"@
    } else {
        ""@
    }
}

/// How many lines thumbs gets at most.
pub open spec fn tail_height(s: SwapperState) -> int {
    match s.active_pane_height {
        Some(height) => height as int,
        None => i32::MAX as int,
    }
}

/// The part of the script from the limit on the lines up to the signal that thumbs
/// is finished.
pub open spec fn thumbs_text(s: SwapperState, args: Seq<Text>) -> Text {
    " | tail -n "@ + decimal(tail_height(s)) + " | "@ + s.dir
        + "/target/release/thumbs --ready-signal "@ + s.ready_signal
        + " -f '%U:%P:%X:%Y:%H' -t "@ + TMP_FILE@ + " "@ + joined(args, " "@) + jump_text(s)
        + "; tmux swap-pane -t "@ + s.active_pane_id->0 + "; "@ + zoom_text(s)
        + " tmux wait-for -S "@ + s.signal
}

/// A jump on a pane with a capture file.
pub open spec fn uses_capture(s: SwapperState) -> bool {
    s.jump && s.active_pane_captured_content is Some
}

/// The script that the window of thumbs runs: the content of the pane, from the
/// capture file if there is one, goes through thumbs. The lock of a capture file is
/// removed at the end, the file is kept.
pub open spec fn pane_script(s: SwapperState, args: Seq<Text>) -> Text {
    if uses_capture(s) {
        "cat "@ + s.active_pane_captured_content->0 + thumbs_text(s, args) + "; rmdir "@
            + lock_path(s.active_pane_id->0) + " 2>/dev/null || true"@
    } else {
        "tmux capture-pane "@ + (if s.jump {
            "-p"@
        } else {
            "-J -p"@
        }) + " -t "@ + s.active_pane_id->0 + scroll_text(
            s.active_pane_height,
            s.active_pane_scroll_position,
        ) + thumbs_text(s, args)
    }
}

/// The note that the capture file is used.
pub open spec fn capture_note(s: SwapperState) -> Command {
    script_command(
        "echo 'Using pre-captured file: "@ + s.active_pane_captured_content->0 + "' >> "@
            + debug_path(s.process_id),
    )
}

/// What has to be known of a session before thumbs is started.
pub open spec fn ready_for_thumbs(s: SwapperState) -> bool {
    &&& s.active_pane_id is Some
    &&& s.active_pane_zoomed is Some
    &&& s.jump && s.character is Some ==> s.active_pane_cursor is Some
}

/// Reads the options and starts thumbs in a window of its own.
pub open spec fn thumbs_plan(s: SwapperState, r: Seq<Text>) -> Plan {
    let asked = seq![show_options_command()];
    if s.active_pane_height is Some && s.active_pane_scroll_position is Some && !rows_fit(
        s.active_pane_height->0,
        s.active_pane_scroll_position->0,
    ) {
        Plan { commands: asked, outcome: Err(SwapError::ScrollRange) }
    } else {
        let noted = if uses_capture(s) {
            asked.push(capture_note(s))
        } else {
            asked
        };
        Plan {
            commands: noted.push(thumbs_window_command(pane_script(s, listing_texts(r[0])))),
            outcome: Ok(SwapperState { thumbs_pane_id: Some(r[noted.len() as int]), ..s }),
        }
    }
}

/// The step that `execute_thumbs` takes.
pub open spec fn thumbs_started(
    before: SwapperState,
    after: SwapperState,
    result: Result<(), SwapError>,
) -> bool {
    follows(before, after, result, thumbs_plan(before, replies(before.log, after.log)))
}

/// The row of the screen on which a row of the captured view stands now.
pub open spec fn row_now(s: SwapperState, y: int, scroll_now: int) -> int {
    y + (scroll_now - captured_scroll(s))
}

/// The scroll position of the captured view.
pub open spec fn captured_scroll(s: SwapperState) -> int {
    match s.active_pane_scroll_position {
        Some(scroll) => scroll as int,
        None => 0,
    }
}

/// The rows that a move goes through are numbers that tmux can take.
pub open spec fn move_fits(s: SwapperState, y: int, row: int, scroll_now: int) -> bool {
    &&& i32::MIN <= scroll_now - captured_scroll(s) <= i32::MAX
    &&& i32::MIN <= row_now(s, y, scroll_now) <= i32::MAX
    &&& -i32::MAX <= row_now(s, y, scroll_now) - row <= i32::MAX
}

/// The commands that move the copy-mode cursor from a row to another.
pub open spec fn row_commands(pane: Text, from: int, to: int) -> Seq<Command> {
    if to > from {
        seq![cursor_command(pane, to - from, "cursor-down"@)]
    } else if to < from {
        seq![cursor_command(pane, from - to, "cursor-up"@)]
    } else {
        Seq::empty()
    }
}

/// The commands that move the copy-mode cursor to a column.
pub open spec fn column_commands(pane: Text, x: int) -> Seq<Command> {
    if x > 0 {
        seq![line_start_command(pane), cursor_command(pane, x, "cursor-right"@)]
    } else {
        seq![line_start_command(pane)]
    }
}

/// Moves the copy-mode cursor to a place of the captured view, wherever that stands
/// on the screen now.
pub open spec fn move_plan(s: SwapperState, x: int, y: int, r: Seq<Text>) -> Plan {
    let pane = s.active_pane_id->0;
    let asked = seq![display_command(pane, position_format())];
    let (row, scroll_now) = parsed_position(r[0]);
    if move_fits(s, y, row as int, scroll_now as int) {
        Plan {
            commands: asked + row_commands(
                pane,
                row as int,
                row_now(s, y, scroll_now as int),
            ) + column_commands(pane, x),
            outcome: Ok(s),
        }
    } else {
        Plan { commands: asked, outcome: Err(SwapError::RowRange) }
    }
}

/// The text and the user's command of a selection, outside of jumps.
pub open spec fn final_step(s: SwapperState) -> Option<(Text, Text)> {
    match choice(s.content->0) {
        ChoiceText::Nothing => None,
        ChoiceText::One(pick) => Some(
            (
                trimmed_end(pick.text),
                command_for(
                    pick.upcase,
                    pick.pattern,
                    s.command,
                    s.upcase_command,
                    s.url_command,
                ),
            ),
        ),
        ChoiceText::Many(text) => Some((text, s.multi_command)),
    }
}

/// The sequence that the terminal is sent before the selection is acted upon.
pub open spec fn clipboard_step(s: SwapperState) -> Option<Text> {
    if !s.osc52 || s.jump || is_blank(s.content->0) {
        None
    } else {
        match choice(s.content->0) {
            ChoiceText::One(pick) => Some(copy_text(pick.text)),
            _ => None,
        }
    }
}

/// Does what the selection asks for: a jump, or the user's command on what was
/// selected.
pub open spec fn selection_plan(s: SwapperState, r: Seq<Text>) -> Plan {
    if is_blank(s.content->0) {
        Plan { commands: Seq::empty(), outcome: Ok(s) }
    } else if s.jump {
        match jump_target(s.content->0) {
            Ok((x, y)) => move_plan(s, x as int, y as int, r),
            Err(e) => Plan { commands: Seq::empty(), outcome: Err(e) },
        }
    } else {
        Plan {
            commands: match final_step(s) {
                Some((text, command)) => seq![selection_command(text, command)],
                None => Seq::empty(),
            },
            outcome: Ok(s),
        }
    }
}

/// The commands from the start of thumbs to the end of the selection: thumbs is
/// shown when it is ready, and hides itself when it is finished.
pub open spec fn show_commands(s: SwapperState) -> Seq<Command> {
    seq![
        resize_window_command(
            s.thumbs_pane_id->0,
            s.active_pane_width->0 as int,
            s.active_pane_height->0 as int,
        ),
        wait_command(s.ready_signal),
        swap_panes_command(s.active_pane_id->0, s.thumbs_pane_id->0),
    ] + (if s.active_pane_zoomed->0 {
        seq![zoom_command(s.thumbs_pane_id->0)]
    } else {
        Seq::empty()
    }) + seq![wait_command(s.signal), read_selection_command(), delete_selection_command()]
}

/// Thumbs was shown and hidden again, and what was selected is known.
pub open spec fn shown(before: SwapperState, after: SwapperState) -> bool {
    &&& ran(before.log, after.log, show_commands(before))
    &&& after == (SwapperState {
        log: after.log,
        content: Some(
            replies(before.log, after.log)[show_commands(before).len() - 2],
        ),
        ..before
    })
}

/// The step that `select` takes: the active pane is captured, thumbs is started, shown
/// and hidden again. It ends with the first error.
pub open spec fn selected(
    before: SwapperState,
    after: SwapperState,
    result: Result<(), SwapError>,
) -> bool {
    ||| result is Err && captured(before, after, result)
    ||| result is Err && exists|a: SwapperState|
        captured(before, a, Ok(())) && #[trigger] thumbs_started(a, after, result)
    ||| result is Ok && exists|a: SwapperState, b: SwapperState|
        captured(before, a, Ok(())) && #[trigger] thumbs_started(a, b, Ok(())) && #[trigger] shown(
            b,
            after,
        )
}

} // verus!
