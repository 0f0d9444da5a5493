//! What acting upon a selection comes to, said of the hints that were selected and of the
//! commands that are run.

use crate::clipboard::copy_text;
use crate::commands::{
    cursor_command, display_command, law_cursor_moves_as_often, line_start_command,
    selection_command, Command,
};
use crate::error::SwapError;
use crate::laws::{
    law_hint_is_acted_upon, law_selection_is_read_back, law_selections_are_read_back,
    lemma_line_is_not_blank, lemma_not_blank, lemma_target_is_not_blank, line_of, on_one_line,
    separable, Hint,
};
use crate::number::{decimal, law_number_is_read_back, parsed_i32};
use crate::pane::{law_full_position_report_is_read, parsed_position};
use crate::selection::{is_blank, item_fields, item_texts, items};
use crate::state::{clipboard_step, move_plan, selection_plan, SwapperState};
use crate::text::{
    is_white_space, joined, law_joined_texts_come_back, law_limited_texts_come_back,
    law_white_space_is_trimmed_off_both, lemma_one_piece, trimmed_end, Text,
};
use vstd::prelude::*;

verus! {

/// The lines that report some hints.
pub open spec fn report_of(hints: Seq<Hint>) -> Text {
    joined(Seq::new(hints.len(), |i: int| line_of(hints[i])), seq!['\n'])
}

/// The hints can be reported.
pub open spec fn reportable(hints: Seq<Hint>) -> bool {
    forall|i: int|
        0 <= i < hints.len() ==> separable(#[trigger] hints[i]) && on_one_line(hints[i])
}

/// A single hint is acted upon by its case and its pattern: with the command for links if
/// it was picked in upper case and its pattern is one of links, with the command for upper
/// case if it was picked in upper case else, and with the ordinary command if it was not.
pub proof fn law_single_hint_chooses_the_command(s: SwapperState, hint: Hint, r: Seq<Text>)
    requires
        !s.jump,
        s.content == Some(line_of(hint)),
        separable(hint),
        on_one_line(hint),
    ensures
        ({
            let upper = trimmed_end(hint.upcase) == "true"@;
            let link = hint.pattern == "url"@ || hint.pattern == "markdown_url"@ || hint.pattern
                == "url_custom"@;
            let text = trimmed_end(hint.text);
            let commands = selection_plan(s, r).commands;
            &&& !upper ==> commands == seq![selection_command(text, s.command)]
            &&& upper && !link ==> commands == seq![selection_command(text, s.upcase_command)]
            &&& upper && link ==> commands == seq![selection_command(text, s.url_command)]
        }),
        selection_plan(s, r).outcome == Ok::<SwapperState, SwapError>(s),
{
    law_hint_is_acted_upon(s, hint, r);
}

proof fn lemma_report_is_not_blank(hints: Seq<Hint>)
    requires
        hints.len() > 0,
    ensures
        !is_blank(report_of(hints)),
    decreases hints.len(),
{
    let lines = Seq::new(hints.len(), |i: int| line_of(hints[i]));
    let content = report_of(hints);
    let last = hints.last();
    let i = (content.len() - line_of(last).len() + last.upcase.len()) as int;
    assert(lines.last() == line_of(last));
    assert(content.skip(content.len() - line_of(last).len()) =~= line_of(last));
    assert(line_of(last)[last.upcase.len() as int] == ':');
    assert(content[i] == content.skip(content.len() - line_of(last).len())[last.upcase.len() as int]);
    lemma_not_blank(content, i);
}

/// Several hints are acted upon together, whatever their cases and their patterns: the
/// command for several hints is run once, on their texts with a blank between each two.
pub proof fn law_several_hints_run_the_multi_command(
    s: SwapperState,
    hints: Seq<Hint>,
    r: Seq<Text>,
)
    requires
        !s.jump,
        hints.len() > 1,
        reportable(hints),
        s.content == Some(report_of(hints)),
    ensures
        selection_plan(s, r).commands == seq![
            selection_command(
                joined(Seq::new(hints.len(), |i: int| hints[i].text), " "@),
                s.multi_command,
            ),
        ],
        selection_plan(s, r).outcome == Ok::<SwapperState, SwapError>(s),
{
    lemma_report_is_not_blank(hints);
    law_selections_are_read_back(hints);
}

/// A single hint is copied if that was asked for, whatever its case and its pattern: the
/// sequence for its text, as it was selected.
pub proof fn law_single_hint_is_copied(s: SwapperState, hint: Hint)
    requires
        s.osc52,
        !s.jump,
        s.content == Some(line_of(hint)),
        separable(hint),
        on_one_line(hint),
    ensures
        clipboard_step(s) == Some(copy_text(hint.text)),
{
    lemma_line_is_not_blank(hint);
    law_selection_is_read_back(hint);
}

/// Nothing is copied if that was not asked for, on a jump, or for several hints.
pub proof fn law_else_nothing_is_copied(s: SwapperState, hints: Seq<Hint>)
    requires
        !s.osc52 || s.jump || (hints.len() > 1 && reportable(hints) && s.content == Some(
            report_of(hints),
        )),
    ensures
        clipboard_step(s) is None,
{
    if s.osc52 && !s.jump {
        law_selections_are_read_back(hints);
    }
}

/// White space alone is no selection: nothing is run and nothing is copied.
pub proof fn law_white_space_selects_nothing(s: SwapperState, white: Text, r: Seq<Text>)
    requires
        s.content == Some(white),
        forall|i: int| 0 <= i < white.len() ==> is_white_space(#[trigger] white[i]),
    ensures
        selection_plan(s, r).commands == Seq::<Command>::empty(),
        selection_plan(s, r).outcome == Ok::<SwapperState, SwapError>(s),
        clipboard_step(s) is None,
{
    let none = Seq::<char>::empty();
    law_white_space_is_trimmed_off_both(white, none, none);
    assert(white + none + none =~= white);
}

/// A line with these fields.
pub open spec fn line_with(parts: Seq<Text>) -> Text {
    joined(parts, seq![':'])
}

/// One line with at most five fields, of which the first four hold no colon.
pub open spec fn is_line(parts: Seq<Text>) -> bool {
    &&& 0 < parts.len() <= 5
    &&& forall|i: int| 0 <= i < parts.len() && i < 4 ==> !(#[trigger] parts[i]).contains(':')
    &&& !line_with(parts).contains('\n')
}

proof fn lemma_line_is_split(parts: Seq<Text>)
    requires
        is_line(parts),
    ensures
        item_fields(line_with(parts)) == parts,
        items(line_with(parts)) == seq![line_with(parts)],
{
    law_limited_texts_come_back(parts, ':', 5);
    lemma_one_piece(line_with(parts), '\n', None);
}

/// A single line that lacks fields runs nothing and copies nothing.
pub proof fn law_short_line_runs_nothing(s: SwapperState, parts: Seq<Text>, r: Seq<Text>)
    requires
        !s.jump,
        is_line(parts),
        parts.len() < 5,
        s.content == Some(line_with(parts)),
    ensures
        selection_plan(s, r).commands == Seq::<Command>::empty(),
        selection_plan(s, r).outcome == Ok::<SwapperState, SwapError>(s),
        clipboard_step(s) is None,
{
    lemma_line_is_split(parts);
}

/// Of each of several lines the last field counts, whether the line lacks fields or not.
pub proof fn law_last_fields_are_joined(
    s: SwapperState,
    lines: Seq<Seq<Text>>,
    content: Text,
    r: Seq<Text>,
)
    requires
        !s.jump,
        lines.len() > 1,
        forall|i: int| 0 <= i < lines.len() ==> is_line(#[trigger] lines[i]),
        content == joined(Seq::new(lines.len(), |i: int| line_with(lines[i])), seq!['\n']),
        s.content == Some(content),
        exists|i: int| 0 <= i < content.len() && !is_white_space(#[trigger] content[i]),
    ensures
        selection_plan(s, r).commands == seq![
            selection_command(
                joined(Seq::new(lines.len(), |i: int| lines[i].last()), " "@),
                s.multi_command,
            ),
        ],
        clipboard_step(s) is None,
{
    let rows = Seq::new(lines.len(), |i: int| line_with(lines[i]));
    let lasts = Seq::new(lines.len(), |i: int| lines[i].last());
    let i = choose|i: int| 0 <= i < content.len() && !is_white_space(#[trigger] content[i]);
    lemma_not_blank(content, i);
    assert forall|i: int| 0 <= i < rows.len() implies !(#[trigger] rows[i]).contains('\n') by {
        assert(is_line(lines[i]));
    }
    law_joined_texts_come_back(rows, '\n');
    assert forall|i: int| 0 <= i < rows.len() implies #[trigger] item_texts(rows)[i] == lasts[i] by {
        assert(is_line(lines[i]));
        lemma_line_is_split(lines[i]);
    }
    assert(item_texts(rows) =~= lasts);
}

/// The lines of a selection whose first line is given.
pub open spec fn starting_with(first: Text, more: Seq<Text>) -> Text {
    joined(seq![first] + more, seq!['\n'])
}

proof fn lemma_first_line(parts: Seq<Text>, more: Seq<Text>)
    requires
        is_line(parts),
        forall|i: int| 0 <= i < more.len() ==> !(#[trigger] more[i]).contains('\n'),
    ensures
        items(starting_with(line_with(parts), more))[0] == line_with(parts),
        item_fields(items(starting_with(line_with(parts), more))[0]) == parts,
{
    let rows = seq![line_with(parts)] + more;
    assert forall|i: int| 0 <= i < rows.len() implies !(#[trigger] rows[i]).contains('\n') by {
        if i > 0 {
            assert(rows[i] == more[i - 1]);
        }
    }
    law_joined_texts_come_back(rows, '\n');
    lemma_line_is_split(parts);
}

/// A jump goes by the first line, whatever other lines there are: to the column and the row
/// in its third and its fourth field.
pub proof fn law_first_line_is_jumped_to(
    s: SwapperState,
    parts: Seq<Text>,
    more: Seq<Text>,
    x: i32,
    y: i32,
    r: Seq<Text>,
)
    requires
        s.jump,
        is_line(parts),
        parts.len() > 3,
        forall|i: int| 0 <= i < more.len() ==> !(#[trigger] more[i]).contains('\n'),
        s.content == Some(starting_with(line_with(parts), more)),
        parsed_i32(parts[2]) == Some(x),
        parsed_i32(parts[3]) == Some(y),
    ensures
        selection_plan(s, r) == move_plan(s, x as int, y as int, r),
        clipboard_step(s) is None,
{
    lemma_first_line(parts, more);
    lemma_target_is_not_blank(s.content->0);
}

/// A first line without a column or without a row that is a number is no place to jump to:
/// nothing is run, and the error says what is missing.
pub proof fn law_line_without_a_place_is_refused(
    s: SwapperState,
    parts: Seq<Text>,
    more: Seq<Text>,
    r: Seq<Text>,
)
    requires
        s.jump,
        is_line(parts),
        forall|i: int| 0 <= i < more.len() ==> !(#[trigger] more[i]).contains('\n'),
        s.content == Some(starting_with(line_with(parts), more)),
        exists|i: int| 0 <= i < s.content->0.len() && !is_white_space(#[trigger] s.content->0[i]),
        parts.len() < 3 || parsed_i32(parts[2]) is None || parts.len() < 4 || parsed_i32(
            parts[3],
        ) is None,
    ensures
        selection_plan(s, r).commands == Seq::<Command>::empty(),
        selection_plan(s, r).outcome == Err::<SwapperState, SwapError>(
            if parts.len() < 3 || parsed_i32(parts[2]) is None {
                SwapError::JumpColumn
            } else {
                SwapError::JumpRow
            },
        ),
{
    let content = s.content->0;
    let i = choose|i: int| 0 <= i < content.len() && !is_white_space(#[trigger] content[i]);
    lemma_not_blank(content, i);
    lemma_first_line(parts, more);
}

/// How many steps a command moves the copy-mode cursor of a pane in a direction.
pub open spec fn steps(command: Command, pane: Text, direction: Text) -> int {
    if command.len() == 7 && command[4] == pane && command[6] == direction && parsed_i32(
        command[5],
    ) is Some {
        parsed_i32(command[5])->0 as int
    } else {
        0
    }
}

/// How many steps some commands move the copy-mode cursor of a pane in a direction.
pub open spec fn all_steps(commands: Seq<Command>, pane: Text, direction: Text) -> int
    decreases commands.len(),
{
    if commands.len() == 0 {
        0
    } else {
        all_steps(commands.drop_last(), pane, direction) + steps(commands.last(), pane, direction)
    }
}

/// What the copy mode says of its cursor and its view.
pub open spec fn position_report(column: i32, row: i32, scroll: i32) -> Text {
    decimal(column as int) + seq![':'] + decimal(row as int)
        + seq![':'] + decimal(scroll as int)
}

proof fn lemma_position(column: i32, row: i32, scroll: i32)
    ensures
        parsed_position(position_report(column, row, scroll)) == (row, scroll),
{
    let none = Seq::<char>::empty();
    let c = decimal(column as int);
    let y = decimal(row as int);
    let p = decimal(scroll as int);
    law_number_is_read_back(column);
    law_number_is_read_back(row);
    law_number_is_read_back(scroll);
    law_full_position_report_is_read(none, c, y, p, none, row, scroll);
    let list = seq![c, y, p];
    assert(list.drop_last() =~= seq![c, y]);
    assert(seq![c, y].drop_last() =~= seq![c]);
    assert(joined(seq![c, y], seq![':']) == joined(seq![c], seq![':']) + seq![':'] + y);
    assert(joined(list, seq![':']) =~= position_report(column, row, scroll));
    assert(none + joined(list, seq![':']) + none =~= position_report(column, row, scroll));
}

proof fn lemma_directions_differ()
    ensures
        "cursor-down"@ != "cursor-up"@,
        "cursor-down"@ != "cursor-right"@,
        "cursor-up"@ != "cursor-right"@,
        "cursor-left"@ != "cursor-down"@,
        "cursor-left"@ != "cursor-up"@,
        "cursor-left"@ != "cursor-right"@,
{
    reveal_strlit("cursor-down");
    reveal_strlit("cursor-up");
    reveal_strlit("cursor-right");
    reveal_strlit("cursor-left");
    assert("cursor-down"@[7] == 'd');
    assert("cursor-up"@[7] == 'u');
    assert("cursor-right"@[7] == 'r');
    assert("cursor-left"@[7] == 'l');
}

/// The moves of a jump to a column and a row add up: up and down to the row on which the
/// selected line stands now, that is the row of the hint moved on by as much as the view
/// was scrolled since the capture, and right to the column, from the start of the line. With
/// the view where it was, the cursor ends on the row of the hint. Nothing else that is known
/// of the session makes a difference.
pub proof fn law_moves_add_up(
    s: SwapperState,
    x: i32,
    y: i32,
    column: i32,
    from: i32,
    now: i32,
    then: i32,
    r: Seq<Text>,
)
    requires
        s.active_pane_scroll_position == Some(then) || (s.active_pane_scroll_position is None
            && then == 0),
        r[0] == position_report(column, from, now),
        i32::MIN <= now - then <= i32::MAX,
        i32::MIN <= y + now - then <= i32::MAX,
        -i32::MAX <= y + now - then - from <= i32::MAX,
    ensures
        ({
            let pane = s.active_pane_id->0;
            let commands = move_plan(s, x as int, y as int, r).commands;
            &&& all_steps(commands, pane, "cursor-down"@) - all_steps(
                commands,
                pane,
                "cursor-up"@,
            ) == y + now - then - from
            &&& all_steps(commands, pane, "cursor-right"@) == (if x > 0 {
                x as int
            } else {
                0
            })
            &&& all_steps(commands, pane, "cursor-left"@) == 0
            &&& now == then ==> from + all_steps(
                commands,
                pane,
                "cursor-down"@,
            ) - all_steps(commands, pane, "cursor-up"@) == y
        }),
        move_plan(s, x as int, y as int, r).outcome == Ok::<SwapperState, SwapError>(s),
{
    lemma_position(column, from, now);
    lemma_moves(s, x, y, from, now, then, r);
    lemma_directions_differ();
    let pane = s.active_pane_id->0;
    let delta = y + now - then - from;
    let commands = move_plan(s, x as int, y as int, r).commands;
    let ask = display_command(pane, "#{copy_cursor_x}:#{copy_cursor_y}:#{scroll_position}"@);
    let start = line_start_command(pane);
    let down = cursor_command(pane, delta, "cursor-down"@);
    let up = cursor_command(pane, -delta, "cursor-up"@);
    let right = cursor_command(pane, x as int, "cursor-right"@);
    if delta > 0 {
        law_cursor_moves_as_often(pane, delta as i32, "cursor-down"@);
    } else if delta < 0 {
        law_cursor_moves_as_often(pane, (-delta) as i32, "cursor-up"@);
    }
    law_cursor_moves_as_often(pane, x, "cursor-right"@);
    let rows = if delta > 0 {
        seq![ask, down]
    } else if delta < 0 {
        seq![ask, up]
    } else {
        seq![ask]
    };
    let started = rows.push(start);
    assert(commands =~= if x > 0 {
        started.push(right)
    } else {
        started
    });
    assert forall|direction: Text| #![auto]
        all_steps(started, pane, direction) == (if delta > 0 {
            steps(down, pane, direction)
        } else if delta < 0 {
            steps(up, pane, direction)
        } else {
            0
        }) by {
        lemma_steps_of(ask, pane, direction);
        if delta != 0 {
            let move_it = rows.last();
            lemma_steps_push(seq![ask], move_it, pane, direction);
            assert(seq![ask].push(move_it) =~= rows);
        }
        lemma_steps_push(rows, start, pane, direction);
    }
    if x > 0 {
        assert forall|direction: Text| #![auto]
            all_steps(started.push(right), pane, direction) == all_steps(started, pane, direction)
                + steps(right, pane, direction) by {
            lemma_steps_push(started, right, pane, direction);
        }
    }
}

proof fn lemma_steps_of(command: Command, pane: Text, direction: Text)
    ensures
        all_steps(seq![command], pane, direction) == steps(command, pane, direction),
{
    let none = Seq::<Command>::empty();
    lemma_steps_push(none, command, pane, direction);
    assert(none.push(command) =~= seq![command]);
}

proof fn lemma_steps_push(commands: Seq<Command>, command: Command, pane: Text, direction: Text)
    ensures
        all_steps(commands.push(command), pane, direction) == all_steps(commands, pane, direction)
            + steps(command, pane, direction),
{
    assert(commands.push(command).drop_last() =~= commands);
}

/// The commands of a jump, in order: the position is asked for, the cursor is moved to the
/// row, to the start of the line, and from there to the column.
proof fn lemma_moves(
    s: SwapperState,
    x: i32,
    y: i32,
    from: i32,
    now: i32,
    then: i32,
    r: Seq<Text>,
)
    requires
        s.active_pane_scroll_position == Some(then) || (s.active_pane_scroll_position is None
            && then == 0),
        parsed_position(r[0]) == (from, now),
        i32::MIN <= now - then <= i32::MAX,
        i32::MIN <= y + now - then <= i32::MAX,
        -i32::MAX <= y + now - then - from <= i32::MAX,
    ensures
        ({
            let pane = s.active_pane_id->0;
            let delta = y + now - then - from;
            move_plan(s, x as int, y as int, r).commands == seq![
                display_command(pane, "#{copy_cursor_x}:#{copy_cursor_y}:#{scroll_position}"@),
            ] + (if delta > 0 {
                seq![cursor_command(pane, delta, "cursor-down"@)]
            } else if delta < 0 {
                seq![cursor_command(pane, -delta, "cursor-up"@)]
            } else {
                Seq::empty()
            }) + seq![line_start_command(pane)] + (if x > 0 {
                seq![cursor_command(pane, x as int, "cursor-right"@)]
            } else {
                Seq::empty()
            })
        }),
        move_plan(s, x as int, y as int, r).outcome == Ok::<SwapperState, SwapError>(s),
{
}

/// A jump asks where the cursor is before it moves it, moves it to the row first, and goes
/// to the start of the line before it goes to the column.
pub proof fn law_moves_are_in_order(
    s: SwapperState,
    x: i32,
    y: i32,
    from: i32,
    now: i32,
    then: i32,
    r: Seq<Text>,
)
    requires
        s.active_pane_scroll_position == Some(then) || (s.active_pane_scroll_position is None
            && then == 0),
        parsed_position(r[0]) == (from, now),
        i32::MIN <= now - then <= i32::MAX,
        i32::MIN <= y + now - then <= i32::MAX,
        -i32::MAX <= y + now - then - from <= i32::MAX,
    ensures
        ({
            let pane = s.active_pane_id->0;
            let commands = move_plan(s, x as int, y as int, r).commands;
            let n: int = if y + now - then == from {
                1
            } else {
                2
            };
            &&& commands.len() == n + (if x > 0 {
                2int
            } else {
                1
            })
            &&& commands[0] == display_command(
                pane,
                "#{copy_cursor_x}:#{copy_cursor_y}:#{scroll_position}"@,
            )
            &&& y + now - then > from ==> steps(commands[1], pane, "cursor-down"@) == y + now - then
                - from
            &&& y + now - then < from ==> steps(commands[1], pane, "cursor-up"@) == from - (y + now
                - then)
            &&& commands[n] == line_start_command(pane)
            &&& x > 0 ==> steps(commands[n + 1], pane, "cursor-right"@) == x
        }),
{
    lemma_moves(s, x, y, from, now, then, r);
    let delta = y + now - then - from;
    if delta > 0 {
        law_cursor_moves_as_often(s.active_pane_id->0, delta as i32, "cursor-down"@);
    } else if delta < 0 {
        law_cursor_moves_as_often(s.active_pane_id->0, (-delta) as i32, "cursor-up"@);
    }
    law_cursor_moves_as_often(s.active_pane_id->0, x, "cursor-right"@);
}

/// A jump to a row that is out of range ends with an error after the position was asked
/// for.
pub proof fn law_far_rows_are_refused(
    s: SwapperState,
    x: i32,
    y: i32,
    from: i32,
    now: i32,
    then: i32,
    r: Seq<Text>,
)
    requires
        s.active_pane_scroll_position == Some(then) || (s.active_pane_scroll_position is None
            && then == 0),
        parsed_position(r[0]) == (from, now),
        !(i32::MIN <= now - then <= i32::MAX) || !(i32::MIN <= y + now - then
            <= i32::MAX) || !(-i32::MAX <= y + now - then - from <= i32::MAX),
    ensures
        move_plan(s, x as int, y as int, r).commands == seq![
            display_command(
                s.active_pane_id->0,
                "#{copy_cursor_x}:#{copy_cursor_y}:#{scroll_position}"@,
            ),
        ],
        move_plan(s, x as int, y as int, r).outcome == Err::<SwapperState, SwapError>(
            SwapError::RowRange,
        ),
{
}

} // verus!
