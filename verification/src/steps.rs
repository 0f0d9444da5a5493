//! What the steps of a session come to, said of the texts that they get, of the commands
//! that they run and of the state that they leave.

use crate::capture::{
    capture_path, check_text, debug_path, headline_text, law_capture_file_is_provided, lock_path,
    lock_text, provide_commands, report_text, store_text, wait_text, CaptureUse,
};
use crate::commands::{
    copy_mode_command, display_command, list_panes_command, script_command, Command,
};
use crate::error::SwapError;
use crate::number::{
    decimal, law_number_is_read_back, law_numbers_are_written_in_digits, parsed_i32,
};
use crate::pane::{
    active_pane, are_lines, are_others, fields, law_active_pane_is_found, law_active_pane_is_missed,
    law_fields_are_the_columns, law_short_line_is_refused, parsed_cursor,
};
use crate::shell::{law_record_grows, ran, replies};
use crate::state::{capture_plan, captured, detail_plan, PaneText, SwapperState};
use crate::text::{joined, trimmed, Text};
use vstd::prelude::*;

verus! {

/// A listing of panes in which line `k` is that of the active pane, with these columns.
pub open spec fn lists(listing: Text, rows: Seq<Text>, k: int, pane: Seq<Text>) -> bool {
    &&& listing == joined(rows, seq!['\n'])
    &&& are_lines(rows)
    &&& are_others(rows, k)
    &&& k < rows.len()
    &&& rows[k] == joined(pane, seq![':'])
    &&& pane.len() >= 6
    &&& forall|i: int| 0 <= i < pane.len() ==> !(#[trigger] pane[i]).contains(':')
    &&& pane[5] == "active"@
}

/// The seventh column is the width; a line without it is that of a pane without width.
pub open spec fn is_width(pane: Seq<Text>, width: i32) -> bool {
    if pane.len() > 6 {
        parsed_i32(pane[6]) == Some(width)
    } else {
        width == 0
    }
}

proof fn lemma_listed(listing: Text, rows: Seq<Text>, k: int, pane: Seq<Text>)
    requires
        lists(listing, rows, k, pane),
    ensures
        active_pane(listing) == Ok::<Seq<Text>, SwapError>(pane),
{
    law_fields_are_the_columns(pane);
    law_active_pane_is_found(rows, k);
}

proof fn lemma_zero()
    ensures
        parsed_i32("0"@) == Some(0i32),
{
    reveal_strlit("0");
    law_number_is_read_back(0);
    law_numbers_are_written_in_digits(0, 0);
    assert("0"@ =~= decimal(0));
}

/// The state after the active pane was found: its id, its size and its zoom are known,
/// and whether it is in a mode. Nothing else changes by that.
pub open spec fn with_pane(
    before: SwapperState,
    after: SwapperState,
    pane: Seq<Text>,
    width: i32,
    height: i32,
    in_a_mode: bool,
) -> SwapperState {
    SwapperState {
        log: after.log,
        active_pane_id: Some(pane[0]),
        active_pane_in_mode: in_a_mode,
        active_pane_width: Some(width),
        active_pane_height: Some(height),
        active_pane_zoomed: Some(pane[4] == "1"@),
        ..before
    }
}

/// A pane that is in no mode is captured by listing the panes, wherever in the listing it
/// stands.
pub proof fn law_live_pane_is_captured(
    before: SwapperState,
    after: SwapperState,
    result: Result<(), SwapError>,
    rows: Seq<Text>,
    k: int,
    pane: Seq<Text>,
    width: i32,
    height: i32,
)
    requires
        captured(before, after, result),
        !before.jump,
        lists(replies(before.log, after.log)[0], rows, k, pane),
        pane[1] != "1"@,
        parsed_i32(pane[2]) == Some(height),
        is_width(pane, width),
    ensures
        result == Ok::<(), SwapError>(()),
        ran(before.log, after.log, seq![list_panes_command()]),
        after == with_pane(before, after, pane, width, height, false),
{
    lemma_listed(replies(before.log, after.log)[0], rows, k, pane);
    lemma_zero();
    let plan = capture_plan(before, replies(before.log, after.log));
    assert(plan.commands =~= seq![list_panes_command()]);
}

/// Of a pane that is in a mode, the scroll position is in its line, and the size of the
/// history is asked for.
pub proof fn law_pane_in_a_mode_is_captured(
    before: SwapperState,
    after: SwapperState,
    result: Result<(), SwapError>,
    rows: Seq<Text>,
    k: int,
    pane: Seq<Text>,
    width: i32,
    height: i32,
    scroll: i32,
    history: i32,
)
    requires
        captured(before, after, result),
        !before.jump,
        lists(replies(before.log, after.log)[0], rows, k, pane),
        pane[1] == "1"@,
        parsed_i32(pane[2]) == Some(height),
        is_width(pane, width),
        parsed_i32(pane[3]) == Some(scroll),
        parsed_i32(replies(before.log, after.log)[1]) == Some(history),
    ensures
        result == Ok::<(), SwapError>(()),
        ran(
            before.log,
            after.log,
            seq![list_panes_command(), display_command(pane[0], "#{history_size}"@)],
        ),
        after == (SwapperState {
            active_pane_scroll_position: Some(scroll),
            active_pane_history_size: Some(history),
            ..with_pane(before, after, pane, width, height, true)
        }),
{
    let r = replies(before.log, after.log);
    lemma_listed(r[0], rows, k, pane);
    lemma_zero();
    let plan = capture_plan(before, r);
    law_record_grows(before.log, after.log, plan.commands, 0);
    assert(r.skip(1).skip(0)[0] == r[1]);
    assert(plan.commands =~= seq![
        list_panes_command(),
        display_command(pane[0], "#{history_size}"@),
    ]);
}

/// A jump on a pane that is in no mode puts it into copy mode. Where its cursor and its
/// view are is asked for after that.
pub proof fn law_live_pane_is_captured_for_a_jump(
    before: SwapperState,
    after: SwapperState,
    result: Result<(), SwapError>,
    rows: Seq<Text>,
    k: int,
    pane: Seq<Text>,
    width: i32,
    height: i32,
    x: i32,
    y: i32,
    scroll: i32,
)
    requires
        captured(before, after, result),
        before.jump,
        lists(replies(before.log, after.log)[0], rows, k, pane),
        pane[1] != "1"@,
        parsed_i32(pane[2]) == Some(height),
        is_width(pane, width),
        parsed_cursor(replies(before.log, after.log)[2]) == Some((x, y)),
        parsed_i32(replies(before.log, after.log)[3]) == Some(scroll),
    ensures
        result == Ok::<(), SwapError>(()),
        ran(
            before.log,
            after.log,
            seq![
                list_panes_command(),
                copy_mode_command(pane[0]),
                display_command(pane[0], "#{copy_cursor_x}:#{copy_cursor_y}"@),
                display_command(pane[0], "#{scroll_position}"@),
            ],
        ),
        after == (SwapperState {
            active_pane_cursor: Some((x, y)),
            active_pane_scroll_position: Some(scroll),
            ..with_pane(before, after, pane, width, height, true)
        }),
{
    let r = replies(before.log, after.log);
    lemma_listed(r[0], rows, k, pane);
    lemma_zero();
    let plan = capture_plan(before, r);
    law_record_grows(before.log, after.log, plan.commands, 0);
    assert(r.skip(1)[1] == r[2]);
    assert(r.skip(1).skip(2)[0] == r[3]);
    assert(plan.commands =~= seq![
        list_panes_command(),
        copy_mode_command(pane[0]),
        display_command(pane[0], "#{copy_cursor_x}:#{copy_cursor_y}"@),
        display_command(pane[0], "#{scroll_position}"@),
    ]);
}

/// What provides the capture file of a pane, given what the checks of the file and of the
/// lock say.
pub open spec fn provision(pane: Text, process: u32, recent: bool, locked: bool) -> Seq<Command> {
    let file = capture_path(pane);
    let check = script_command(check_text(file));
    let take = script_command(lock_text(lock_path(pane)));
    if recent {
        seq![check, capture_report(CaptureUse::Reused, pane, process)]
    } else if locked {
        seq![
            check,
            take,
            script_command(store_text(pane, file)),
            capture_report(CaptureUse::Written, pane, process),
        ]
    } else {
        seq![
            check,
            take,
            script_command(wait_text(file)),
            capture_report(CaptureUse::Waited, pane, process),
        ]
    }
}

/// The note on what was done with a capture file.
pub open spec fn capture_report(usage: CaptureUse, pane: Text, process: u32) -> Command {
    let file = capture_path(pane);
    script_command(report_text(headline_text(usage, process, file), file, debug_path(process)))
}

/// A jump on a pane that is in a mode provides its capture file and remembers it. The
/// scroll position is that of the listing.
pub proof fn law_pane_in_a_mode_is_captured_for_a_jump(
    before: SwapperState,
    after: SwapperState,
    result: Result<(), SwapError>,
    rows: Seq<Text>,
    k: int,
    pane: Seq<Text>,
    width: i32,
    height: i32,
    x: i32,
    y: i32,
    scroll: i32,
    history: i32,
)
    requires
        captured(before, after, result),
        before.jump,
        ({
            let r = replies(before.log, after.log);
            let n: int = if trimmed(r[1]) == "recent"@ {
                2
            } else {
                4
            };
            &&& lists(r[0], rows, k, pane)
            &&& parsed_cursor(r[n + 1]) == Some((x, y))
            &&& parsed_i32(r[n + 2]) == Some(history)
        }),
        pane[1] == "1"@,
        parsed_i32(pane[2]) == Some(height),
        is_width(pane, width),
        parsed_i32(pane[3]) == Some(scroll),
    ensures
        result == Ok::<(), SwapError>(()),
        ran(
            before.log,
            after.log,
            seq![list_panes_command()] + provision(
                pane[0],
                before.process_id,
                trimmed(replies(before.log, after.log)[1]) == "recent"@,
                trimmed(replies(before.log, after.log)[2]) == "locked"@,
            ) + seq![
                display_command(pane[0], "#{copy_cursor_x}:#{copy_cursor_y}"@),
                display_command(pane[0], "#{history_size}"@),
            ],
        ),
        after == (SwapperState {
            active_pane_cursor: Some((x, y)),
            active_pane_scroll_position: Some(scroll),
            active_pane_history_size: Some(history),
            active_pane_captured_content: Some(capture_path(pane[0])),
            ..with_pane(before, after, pane, width, height, true)
        }),
{
    let r = replies(before.log, after.log);
    let rest = r.skip(1);
    lemma_listed(r[0], rows, k, pane);
    let plan = capture_plan(before, r);
    law_record_grows(before.log, after.log, plan.commands, 0);
    lemma_rest(before, r, pane, width);
    lemma_mode_plan(before.process_id, pane, rest, width, height, (x, y), scroll, history);
    let provided = provision(
        pane[0],
        before.process_id,
        trimmed(r[1]) == "recent"@,
        trimmed(r[2]) == "locked"@,
    );
    assert(plan.commands =~= seq![list_panes_command()] + provided + seq![
        display_command(pane[0], "#{copy_cursor_x}:#{copy_cursor_y}"@),
        display_command(pane[0], "#{history_size}"@),
    ]);
}

/// There are as many replies as a jump on a pane in a mode needs.
proof fn lemma_rest(before: SwapperState, r: Seq<Text>, pane: Seq<Text>, width: i32)
    requires
        before.jump,
        is_width(pane, width),
        parsed_i32(pane[3]) is Some,
        parsed_cursor(r[if trimmed(r[1]) == "recent"@ {
            3int
        } else {
            5int
        }]) is Some,
        active_pane(r[0]) == Ok::<Seq<Text>, SwapError>(pane),
        pane[1] == "1"@,
        parsed_i32(pane[2]) is Some,
        r.len() == capture_plan(before, r).commands.len(),
    ensures
        r.skip(1)[0] == r[1],
        r.skip(1)[1] == r[2],
        trimmed(r[1]) == "recent"@ ==> r.skip(1)[2] == r[3] && r.skip(1).skip(3)[0] == r[4],
        trimmed(r[1]) != "recent"@ ==> r.skip(1)[4] == r[5] && r.skip(1).skip(5)[0] == r[6],
{
    let n = provide_commands(pane[0], before.process_id, r.skip(1)).len() as int;
    law_capture_file_is_provided(pane[0], before.process_id, r.skip(1));
    lemma_zero();
    assert(r.len() >= 2 + n);
    assert(r.skip(1)[0] == r[1]);
    assert(r.skip(1)[n] == r[n + 1]);
    assert(r.len() == 3 + n);
}

proof fn lemma_mode_plan(
    process: u32,
    pane: Seq<Text>,
    rest: Seq<Text>,
    width: i32,
    height: i32,
    cursor: (i32, i32),
    scroll: i32,
    history: i32,
)
    requires
        pane[1] == "1"@,
        parsed_i32(pane[2]) == Some(height),
        is_width(pane, width),
        parsed_i32(pane[3]) == Some(scroll),
        ({
            let n: int = if trimmed(rest[0]) == "recent"@ {
                2
            } else {
                4
            };
            &&& parsed_cursor(rest[n]) == Some(cursor)
            &&& parsed_i32(rest.skip(n + 1)[0]) == Some(history)
        }),
    ensures
        ({
            let (commands, found) = detail_plan(true, process, pane, rest);
            &&& commands == provision(
                pane[0],
                process,
                trimmed(rest[0]) == "recent"@,
                trimmed(rest[1]) == "locked"@,
            ) + seq![display_command(pane[0], "#{copy_cursor_x}:#{copy_cursor_y}"@)] + seq![
                display_command(pane[0], "#{history_size}"@),
            ]
            &&& found == Ok::<PaneText, SwapError>(
                PaneText {
                    id: pane[0],
                    in_mode: true,
                    width,
                    height,
                    zoomed: pane[4] == "1"@,
                    cursor: Some(cursor),
                    capture: Some(capture_path(pane[0])),
                    scroll: Some(scroll),
                    history: Some(history),
                },
            )
        }),
{
    lemma_zero();
    law_capture_file_is_provided(pane[0], process, rest);
    let provided = provision(
        pane[0],
        process,
        trimmed(rest[0]) == "recent"@,
        trimmed(rest[1]) == "locked"@,
    );
    assert(provide_commands(pane[0], process, rest) =~= provided);
}

/// A listing that lacks fields or an active pane, or an active pane without a height that
/// is a number, ends the capture after the listing.
pub proof fn law_bad_listing_is_refused(
    before: SwapperState,
    after: SwapperState,
    result: Result<(), SwapError>,
    rows: Seq<Text>,
    k: int,
    pane: Seq<Text>,
)
    requires
        captured(before, after, result),
        replies(before.log, after.log)[0] == joined(rows, seq!['\n']),
        are_lines(rows),
        are_others(rows, k),
        ({
            ||| k == rows.len()
            ||| fields(rows[k]).len() < 6
            ||| lists(replies(before.log, after.log)[0], rows, k, pane) && parsed_i32(
                pane[2],
            ) is None
        }),
    ensures
        result == Err::<(), SwapError>(
            if k == rows.len() {
                SwapError::ActivePane
            } else if fields(rows[k]).len() < 6 {
                SwapError::PaneRow
            } else {
                SwapError::PaneHeight
            },
        ),
        ran(before.log, after.log, seq![list_panes_command()]),
        after == (SwapperState { log: after.log, ..before }),
{
    let r = replies(before.log, after.log);
    let plan = capture_plan(before, r);
    law_record_grows(before.log, after.log, plan.commands, 0);
    if k == rows.len() {
        law_active_pane_is_missed(rows);
    } else if fields(rows[k]).len() < 6 {
        law_short_line_is_refused(rows, k);
    } else {
        lemma_listed(r[0], rows, k, pane);
    }
    assert(plan.commands =~= seq![list_panes_command()]);
}

/// What the copy mode says of a pane has to be numbers, and so have its width and, in a
/// mode, its scroll position; else the capture ends with an error that says which.
#[verifier::spinoff_prover]
#[verifier::rlimit(30)]
pub proof fn law_bad_pane_is_refused(
    before: SwapperState,
    after: SwapperState,
    result: Result<(), SwapError>,
    rows: Seq<Text>,
    k: int,
    pane: Seq<Text>,
)
    requires
        captured(before, after, result),
        lists(replies(before.log, after.log)[0], rows, k, pane),
        parsed_i32(pane[2]) is Some,
    ensures
        ({
            let r = replies(before.log, after.log);
            let in_a_mode = pane[1] == "1"@;
            let wide = pane.len() <= 6 || parsed_i32(pane[6]) is Some;
            let n: int = if !before.jump {
                0
            } else if !in_a_mode {
                2
            } else if trimmed(r[1]) == "recent"@ {
                3
            } else {
                5
            };
            let error = if before.jump && parsed_cursor(r[n]) is None {
                Some(SwapError::CopyCursor)
            } else if !wide {
                Some(SwapError::PaneWidth)
            } else if in_a_mode && parsed_i32(pane[3]) is None {
                Some(SwapError::PaneScroll)
            } else if in_a_mode && parsed_i32(r[n + 1]) is None {
                Some(SwapError::HistorySize)
            } else if !in_a_mode && before.jump && parsed_i32(r[n + 1]) is None {
                Some(SwapError::PaneScroll)
            } else {
                None
            };
            match error {
                Some(e) => result == Err::<(), SwapError>(e) && after == (SwapperState {
                    log: after.log,
                    ..before
                }),
                None => result == Ok::<(), SwapError>(()),
            }
        }),
{
    let r = replies(before.log, after.log);
    let rest = r.skip(1);
    let plan = capture_plan(before, r);
    law_record_grows(before.log, after.log, plan.commands, 0);
    lemma_listed(r[0], rows, k, pane);
    lemma_zero();
    law_capture_file_is_provided(pane[0], before.process_id, rest);
    if before.jump {
        assert(rest[0] == r[1]);
        let n: int = if pane[1] != "1"@ {
            1
        } else if trimmed(r[1]) == "recent"@ {
            2
        } else {
            4
        };
        assert(rest[n] == r[n + 1]);
        assert(r.len() > n + 2 ==> rest.skip(n + 1)[0] == r[n + 2]);
    } else {
        assert(r.len() > 1 ==> rest.skip(0)[0] == r[1]);
    }
}

} // verus!
