//! What starting thumbs comes to: the commands that are run, and the script of its window,
//! piece by piece.

use crate::capture::{debug_path, lock_path};
use crate::commands::{
    delete_selection_command, law_named_panes_stay, read_selection_command, resize_window_command,
    script_command, show_options_command, thumbs_window_command, wait_command,
};
use crate::error::SwapError;
use crate::number::decimal;
use crate::options::listing_texts;
use crate::quote::shell_quoted;
use crate::shell::{law_record_grows, ran, replies};
use crate::state::{
    captured, jump_text, pane_script, scroll_text, selected, show_commands, shown, tail_height,
    thumbs_plan, thumbs_started, thumbs_text, zoom_text, SwapperState,
};
use crate::text::{joined, Text};
use crate::waits::{
    holds, lemma_nothing_more, lemma_regroup, lemma_script_holds, lemma_told_is_held,
};
use vstd::prelude::*;

verus! {

/// The rows of the view fit: the first and the last one, counted from the first row of the
/// screen, and their number.
pub open spec fn view_fits(height: Option<i32>, scroll: Option<i32>) -> bool {
    height is Some && scroll is Some ==> {
        &&& -(scroll->0) <= i32::MAX
        &&& i32::MIN <= height->0 - scroll->0 <= i32::MAX
        &&& i32::MIN <= height->0 - scroll->0 - 1
    }
}

/// Thumbs is started by asking for the options and opening a window for it, whose pane is
/// the one that tmux names. A jump that reads the capture file notes that in between.
pub proof fn law_thumbs_is_started(
    before: SwapperState,
    after: SwapperState,
    result: Result<(), SwapError>,
    file: Text,
)
    requires
        thumbs_started(before, after, result),
        view_fits(before.active_pane_height, before.active_pane_scroll_position),
    ensures
        result == Ok::<(), SwapError>(()),
        ({
            let r = replies(before.log, after.log);
            let script = pane_script(before, listing_texts(r[0]));
            let noted = before.jump && before.active_pane_captured_content == Some(file);
            let plain = !before.jump || before.active_pane_captured_content is None;
            &&& noted ==> ran(
                before.log,
                after.log,
                seq![
                    show_options_command(),
                    script_command(
                        "echo 'Using pre-captured file: "@ + file + "' >> "@ + debug_path(
                            before.process_id,
                        ),
                    ),
                    thumbs_window_command(script),
                ],
            )
            &&& plain ==> ran(
                before.log,
                after.log,
                seq![show_options_command(), thumbs_window_command(script)],
            )
            &&& after == (SwapperState {
                log: after.log,
                thumbs_pane_id: Some(r.last()),
                ..before
            })
        }),
{
    let r = replies(before.log, after.log);
    let plan = thumbs_plan(before, r);
    let script = pane_script(before, listing_texts(r[0]));
    law_record_grows(before.log, after.log, plan.commands, 0);
    if before.jump && before.active_pane_captured_content == Some(file) {
        assert(plan.commands =~= seq![
            show_options_command(),
            script_command(
                "echo 'Using pre-captured file: "@ + file + "' >> "@ + debug_path(
                    before.process_id,
                ),
            ),
            thumbs_window_command(script),
        ]);
    } else if !before.jump || before.active_pane_captured_content is None {
        assert(plan.commands =~= seq![show_options_command(), thumbs_window_command(script)]);
    }
}

/// A view whose rows do not fit is an error: only the options are asked for.
pub proof fn law_view_out_of_range_is_refused(
    before: SwapperState,
    after: SwapperState,
    result: Result<(), SwapError>,
)
    requires
        thumbs_started(before, after, result),
        !view_fits(before.active_pane_height, before.active_pane_scroll_position),
    ensures
        result == Err::<(), SwapError>(SwapError::ScrollRange),
        ran(before.log, after.log, seq![show_options_command()]),
        after == (SwapperState { log: after.log, ..before }),
{
}

proof fn lemma_jump_part(s: SwapperState)
    ensures
        ({
            let (x, y) = s.active_pane_cursor->0;
            let place = " --start-x "@ + decimal(x as int) + " --start-y "@ + decimal(y as int);
            jump_text(s) == (match (s.jump, s.character, s.backward) {
                (false, _, _) => ""@,
                (true, None, false) => " --jump"@,
                (true, None, true) => " --jump --backward"@,
                (true, Some(c), false) => " --jump --character "@ + shell_quoted(c) + place,
                (true, Some(c), true) => " --jump --character "@ + shell_quoted(c)
                    + " --backward"@ + place,
            })
        }),
{
    reveal_strlit(" --jump");
    reveal_strlit(" --character ");
    reveal_strlit(" --backward");
    reveal_strlit(" --jump --backward");
    reveal_strlit(" --jump --character ");
    reveal_strlit("");
    assert(" --jump"@ + " --backward"@ =~= " --jump --backward"@);
    assert(" --jump"@ + " --character "@ =~= " --jump --character "@);
    match s.character {
        Some(c) => {
            let quoted = shell_quoted(c);
            lemma_regroup(" --jump"@, " --character "@, quoted);
            lemma_nothing_more(" --jump --character "@ + quoted);
        },
        None => {
            lemma_nothing_more(" --jump"@);
        },
    }
}

proof fn lemma_content()
    ensures
        "tmux capture-pane "@ + "-p"@ + " -t "@ == "tmux capture-pane -p -t "@,
        "tmux capture-pane "@ + "-J -p"@ + " -t "@ == "tmux capture-pane -J -p -t "@,
{
    reveal_strlit("tmux capture-pane ");
    reveal_strlit("-p");
    reveal_strlit("-J -p");
    reveal_strlit(" -t ");
    reveal_strlit("tmux capture-pane -p -t ");
    reveal_strlit("tmux capture-pane -J -p -t ");
    assert("tmux capture-pane "@ + "-p"@ + " -t "@ =~= "tmux capture-pane -p -t "@);
    assert("tmux capture-pane "@ + "-J -p"@ + " -t "@ =~= "tmux capture-pane -J -p -t "@);
}

/// The script of the window of thumbs, from its start to its end: the content of the pane,
/// as many lines of it as the pane is high, goes through thumbs, which gets the ready signal,
/// the file for the selection, the options and what it is told of a jump. Then the panes are
/// exchanged again, the pane is zoomed again, the finished signal is sent, and the lock is
/// removed.
pub proof fn law_script_from_start_to_end(s: SwapperState, args: Seq<Text>, id: Text)
    requires
        s.active_pane_id == Some(id),
        s.active_pane_zoomed is Some,
    ensures
        ({
            let view = match (s.active_pane_height, s.active_pane_scroll_position) {
                (Some(height), Some(scroll)) => " -S "@ + decimal(-scroll) + " -E "@ + decimal(
                    height - scroll - 1,
                ),
                _ => ""@,
            };
            let content = match (s.jump, s.active_pane_captured_content) {
                (true, Some(file)) => "cat "@ + file,
                (true, None) => "tmux capture-pane -p -t "@ + id + view,
                (false, _) => "tmux capture-pane -J -p -t "@ + id + view,
            };
            let height = match s.active_pane_height {
                Some(height) => decimal(height as int),
                None => decimal(i32::MAX as int),
            };
            let (x, y) = s.active_pane_cursor->0;
            let place = " --start-x "@ + decimal(x as int) + " --start-y "@ + decimal(y as int);
            let jump = match (s.jump, s.character, s.backward) {
                (false, _, _) => ""@,
                (true, None, false) => " --jump"@,
                (true, None, true) => " --jump --backward"@,
                (true, Some(c), false) => " --jump --character "@ + shell_quoted(c) + place,
                (true, Some(c), true) => " --jump --character "@ + shell_quoted(c)
                    + " --backward"@ + place,
            };
            let zoom = if s.active_pane_zoomed == Some(true) {
                "tmux resize-pane -t "@ + id + " -Z;"@
            } else {
                ""@
            };
            let cleanup = if s.jump && s.active_pane_captured_content is Some {
                "; rmdir "@ + lock_path(id) + " 2>/dev/null || true"@
            } else {
                ""@
            };
            pane_script(s, args) == content + " | tail -n "@ + height + " | "@ + s.dir
                + "/target/release/thumbs --ready-signal "@ + s.ready_signal
                + " -f '%U:%P:%X:%Y:%H' -t "@ + "/tmp/thumbs-last"@ + " "@ + joined(args, " "@)
                + jump + "; tmux swap-pane -t "@ + id + "; "@ + zoom + " tmux wait-for -S "@
                + s.signal + cleanup
        }),
{
    let view = scroll_text(s.active_pane_height, s.active_pane_scroll_position);
    let content = match (s.jump, s.active_pane_captured_content) {
        (true, Some(file)) => "cat "@ + file,
        (true, None) => "tmux capture-pane -p -t "@ + id + view,
        (false, _) => "tmux capture-pane -J -p -t "@ + id + view,
    };
    lemma_script_pieces(s, args, content, jump_text(s), zoom_text(s));
    lemma_jump_part(s);
}

proof fn lemma_script_pieces(
    s: SwapperState,
    args: Seq<Text>,
    content: Text,
    jump: Text,
    zoom: Text,
)
    requires
        s.active_pane_id is Some,
        content == (match (s.jump, s.active_pane_captured_content) {
            (true, Some(file)) => "cat "@ + file,
            (true, None) => "tmux capture-pane -p -t "@ + s.active_pane_id->0 + scroll_text(
                s.active_pane_height,
                s.active_pane_scroll_position,
            ),
            (false, _) => "tmux capture-pane -J -p -t "@ + s.active_pane_id->0 + scroll_text(
                s.active_pane_height,
                s.active_pane_scroll_position,
            ),
        }),
        jump == jump_text(s),
        zoom == zoom_text(s),
    ensures
        ({
            let cleanup = if s.jump && s.active_pane_captured_content is Some {
                "; rmdir "@ + lock_path(s.active_pane_id->0) + " 2>/dev/null || true"@
            } else {
                ""@
            };
            pane_script(s, args) == content + " | tail -n "@ + decimal(tail_height(s)) + " | "@
                + s.dir + "/target/release/thumbs --ready-signal "@ + s.ready_signal
                + " -f '%U:%P:%X:%Y:%H' -t "@ + "/tmp/thumbs-last"@ + " "@ + joined(args, " "@)
                + jump + "; tmux swap-pane -t "@ + s.active_pane_id->0 + "; "@ + zoom
                + " tmux wait-for -S "@ + s.signal + cleanup
        }),
{
    let id = s.active_pane_id->0;
    let height = decimal(tail_height(s));
    lemma_content();
    let a1 = " | tail -n "@;
    let a2 = a1 + height;
    let a3 = a2 + " | "@;
    let a4 = a3 + s.dir;
    let a5 = a4 + "/target/release/thumbs --ready-signal "@;
    let a6 = a5 + s.ready_signal;
    let a7 = a6 + " -f '%U:%P:%X:%Y:%H' -t "@;
    let a8 = a7 + "/tmp/thumbs-last"@;
    let a9 = a8 + " "@;
    let a10 = a9 + joined(args, " "@);
    let a11 = a10 + jump;
    let a12 = a11 + "; tmux swap-pane -t "@;
    let a13 = a12 + id;
    let a14 = a13 + "; "@;
    let a15 = a14 + zoom;
    let a16 = a15 + " tmux wait-for -S "@;
    lemma_regroup(content, a1, height);
    lemma_regroup(content, a2, " | "@);
    lemma_regroup(content, a3, s.dir);
    lemma_regroup(content, a4, "/target/release/thumbs --ready-signal "@);
    lemma_regroup(content, a5, s.ready_signal);
    lemma_regroup(content, a6, " -f '%U:%P:%X:%Y:%H' -t "@);
    lemma_regroup(content, a7, "/tmp/thumbs-last"@);
    lemma_regroup(content, a8, " "@);
    lemma_regroup(content, a9, joined(args, " "@));
    lemma_regroup(content, a10, jump);
    lemma_regroup(content, a11, "; tmux swap-pane -t "@);
    lemma_regroup(content, a12, id);
    lemma_regroup(content, a13, "; "@);
    lemma_regroup(content, a14, zoom);
    lemma_regroup(content, a15, " tmux wait-for -S "@);
    lemma_regroup(content, a16, s.signal);
    let thumbs = thumbs_text(s, args);
    assert(thumbs == a16 + s.signal);
    if s.jump && s.active_pane_captured_content is Some {
        lemma_regroup(content + thumbs, "; rmdir "@, lock_path(id));
        lemma_regroup(
            content + thumbs,
            "; rmdir "@ + lock_path(id),
            " 2>/dev/null || true"@,
        );
    } else {
        lemma_nothing_more(content + thumbs);
    }
}

/// A forward search for a character is told to thumbs as such: the flag of a jump, the
/// character and the place where it starts, and nothing more before the panes are exchanged.
pub proof fn law_forward_search_is_told(s: SwapperState, args: Seq<Text>, c: Text, x: i32, y: i32)
    requires
        s.active_pane_zoomed is Some,
        s.jump,
        s.character == Some(c),
        s.active_pane_cursor == Some((x, y)),
        !s.backward,
    ensures
        holds(
            pane_script(s, args),
            " --jump --character "@ + shell_quoted(c) + (" --start-x "@ + decimal(x as int)
                + " --start-y "@ + decimal(y as int)) + "; tmux swap-pane -t "@
                + s.active_pane_id->0,
        ),
{
    let part = jump_text(s) + "; tmux swap-pane -t "@ + s.active_pane_id->0;
    lemma_jump_part(s);
    lemma_told_is_held(s, args);
    lemma_script_holds(s, args, part);
}

/// A backward search for a character is told to thumbs as such.
pub proof fn law_backward_search_is_told(s: SwapperState, args: Seq<Text>, c: Text, x: i32, y: i32)
    requires
        s.active_pane_zoomed is Some,
        s.jump,
        s.character == Some(c),
        s.active_pane_cursor == Some((x, y)),
        s.backward,
    ensures
        holds(
            pane_script(s, args),
            " --jump --character "@ + shell_quoted(c) + " --backward"@ + (" --start-x "@ + decimal(
                x as int,
            ) + " --start-y "@ + decimal(y as int)) + "; tmux swap-pane -t "@
                + s.active_pane_id->0,
        ),
{
    let part = jump_text(s) + "; tmux swap-pane -t "@ + s.active_pane_id->0;
    lemma_jump_part(s);
    lemma_told_is_held(s, args);
    lemma_script_holds(s, args, part);
}

/// The whole of a selection after thumbs was started: its window gets the size of the pane,
/// it is shown when it is ready, zoomed if the pane was, and waited for; then the selection
/// is read and deleted. What was read is the content.
pub proof fn law_selection_runs_in_order(
    before: SwapperState,
    after: SwapperState,
    id: Text,
    thumbs: Text,
    width: i32,
    height: i32,
)
    requires
        shown(before, after),
        before.active_pane_id == Some(id),
        before.thumbs_pane_id == Some(thumbs),
        before.active_pane_width == Some(width),
        before.active_pane_height == Some(height),
        before.active_pane_zoomed is Some,
        id.len() > 0,
        thumbs.len() > 0,
    ensures
        ({
            let r = replies(before.log, after.log);
            let zoomed = before.active_pane_zoomed == Some(true);
            let first = seq![
                resize_window_command(thumbs, width as int, height as int),
                wait_command(before.ready_signal),
                seq!["tmux"@, "swap-pane"@, "-d"@, "-s"@, id, "-t"@, thumbs],
            ];
            let zoom = seq![seq!["tmux"@, "resize-pane"@, "-t"@, thumbs, "-Z"@]];
            let last = seq![
                wait_command(before.signal),
                read_selection_command(),
                delete_selection_command(),
            ];
            &&& zoomed ==> ran(before.log, after.log, first + zoom + last)
            &&& !zoomed ==> ran(before.log, after.log, first + last)
            &&& after == (SwapperState {
                log: after.log,
                content: Some(
                    r[if zoomed {
                        5int
                    } else {
                        4int
                    }],
                ),
                ..before
            })
        }),
{
    let first = seq![
        resize_window_command(thumbs, width as int, height as int),
        wait_command(before.ready_signal),
        seq!["tmux"@, "swap-pane"@, "-d"@, "-s"@, id, "-t"@, thumbs],
    ];
    let last = seq![
        wait_command(before.signal),
        read_selection_command(),
        delete_selection_command(),
    ];
    law_named_panes_stay(id, thumbs);
    let all = show_commands(before);
    if before.active_pane_zoomed == Some(true) {
        let zoom = seq![seq!["tmux"@, "resize-pane"@, "-t"@, thumbs, "-Z"@]];
        assert(all =~= first + zoom + last);
    } else {
        assert(all =~= first + last);
    }
}

/// Selecting is capturing, starting thumbs and showing it, in this order, and it succeeds
/// if the first two do. It ends with the first error, and then it has done no more.
pub proof fn law_selecting_goes_step_by_step(
    before: SwapperState,
    after: SwapperState,
    result: Result<(), SwapError>,
)
    requires
        selected(before, after, result),
    ensures
        result is Ok ==> exists|a: SwapperState, b: SwapperState|
            captured(before, a, Ok(())) && #[trigger] thumbs_started(a, b, Ok(()))
                && #[trigger] shown(b, after),
        result is Err ==> captured(before, after, result) || exists|a: SwapperState|
            captured(before, a, Ok(())) && #[trigger] thumbs_started(a, after, result),
{
}

} // verus!
