//! What holds of a session as a whole.

use crate::capture::{
    capture_path, check_text, debug_path, headline_text, lock_path, lock_text, pane_tag,
    provide_commands, report_text, store_text, wait_text, CaptureUse,
};
use crate::commands::{
    copy_mode_command, cursor_command, delete_selection_command, display_command,
    law_named_panes_stay, line_start_command, list_panes_command, read_selection_command,
    script_command, selection_command, swap_panes_command, wait_command, with_reference,
    zoom_command, Command,
};
use crate::error::SwapError;
use crate::number::{
    decimal, decimal_digits, is_digit, law_decimals_differ, law_number_is_read_back,
    lemma_decimal_digits,
};
use crate::options::{lemma_lines_add, lines_texts};
use crate::pane::{active_fields, active_pane, fields, parsed_position};
use crate::selection::{
    choice, command_for, is_blank, item_fields, item_texts, items, jump_target, ChoiceText,
    PickText,
};
use crate::shell::{ran, replies};
use crate::state::{
    capture_plan, captured, captured_scroll, clipboard_step, cursor_format, follows, in_mode,
    move_fits, move_plan, pane_script, position_format, ready_for_thumbs, row_now, selected,
    selection_plan, show_commands, thumbs_started, thumbs_text, uses_capture, SwapperState,
};
use crate::swapper::signal_text;
use crate::text::{
    begins_with, is_white_space, joined, law_joined_texts_come_back, lemma_one_piece,
    lemma_piece_grows, lemma_piece_starts, lemma_replaced_is_gone, lemma_some_piece, pieces,
    trimmed, trimmed_end, Text,
};
use vstd::prelude::*;

verus! {

/// A hint that thumbs reports as selected.
#[verifier::ext_equal]
pub struct Hint {
    pub upcase: Text,
    pub pattern: Text,
    pub x: Text,
    pub y: Text,
    pub text: Text,
}

/// The line of a selection that reports a hint.
pub open spec fn line_of(hint: Hint) -> Text {
    hint.upcase + seq![':'] + hint.pattern + seq![':'] + hint.x + seq![':'] + hint.y + seq![':']
        + hint.text
}

/// The fields before the text hold no colon.
pub open spec fn separable(hint: Hint) -> bool {
    &&& !hint.upcase.contains(':')
    &&& !hint.pattern.contains(':')
    &&& !hint.x.contains(':')
    &&& !hint.y.contains(':')
}

/// The hint is reported on one line.
pub open spec fn on_one_line(hint: Hint) -> bool {
    !line_of(hint).contains('\n')
}

/// What is said of a single hint that was selected.
pub open spec fn pick_of(hint: Hint) -> PickText {
    PickText {
        upcase: trimmed_end(hint.upcase) == "true"@,
        pattern: hint.pattern,
        text: hint.text,
    }
}

proof fn lemma_field(s: Text, field: Text, before: Seq<Text>)
    requires
        item_fields(s) == before,
        1 <= before.len() < 5,
        before.len() == 4 || !field.contains(':'),
    ensures
        item_fields(s + seq![':'] + field) == before.push(field),
{
    lemma_piece_starts(s, ':', Some(5));
    lemma_piece_grows(s + seq![':'], field, ':', Some(5));
    let started = before.push(Seq::<char>::empty());
    assert(started.drop_last() =~= before);
    assert(Seq::<char>::empty() + field =~= field);
}

/// The five fields of the line of a hint are read back. The text may hold any
/// character, colons too.
pub proof fn law_hint_is_read_back(hint: Hint)
    requires
        separable(hint),
    ensures
        item_fields(line_of(hint)) == seq![
            hint.upcase,
            hint.pattern,
            hint.x,
            hint.y,
            hint.text,
        ],
{
    let c = seq![':'];
    let one = seq![hint.upcase];
    let two = one.push(hint.pattern);
    let three = two.push(hint.x);
    let four = three.push(hint.y);
    lemma_one_piece(hint.upcase, ':', Some(5));
    lemma_field(hint.upcase, hint.pattern, one);
    lemma_field(hint.upcase + c + hint.pattern, hint.x, two);
    lemma_field(hint.upcase + c + hint.pattern + c + hint.x, hint.y, three);
    lemma_field(hint.upcase + c + hint.pattern + c + hint.x + c + hint.y, hint.text, four);
    assert(four.push(hint.text) =~= seq![
        hint.upcase,
        hint.pattern,
        hint.x,
        hint.y,
        hint.text,
    ]);
}

/// A selection of one hint is read back.
pub proof fn law_selection_is_read_back(hint: Hint)
    requires
        separable(hint),
        on_one_line(hint),
    ensures
        choice(line_of(hint)) == ChoiceText::One(pick_of(hint)),
{
    let line = line_of(hint);
    lemma_one_piece(line, '\n', None);
    assert(items(line)[0] == line);
    law_hint_is_read_back(hint);
}

/// Of a selection of several hints the texts are read back, with a blank between each
/// two neighbours.
pub proof fn law_selections_are_read_back(hints: Seq<Hint>)
    requires
        hints.len() > 1,
        forall|i: int|
            0 <= i < hints.len() ==> separable(#[trigger] hints[i]) && on_one_line(hints[i]),
    ensures
        choice(joined(Seq::new(hints.len(), |i: int| line_of(hints[i])), seq!['\n']))
            == ChoiceText::Many(joined(Seq::new(hints.len(), |i: int| hints[i].text), " "@)),
{
    let lines = Seq::new(hints.len(), |i: int| line_of(hints[i]));
    let selected_texts = Seq::new(hints.len(), |i: int| hints[i].text);
    assert forall|i: int| 0 <= i < lines.len() implies !(#[trigger] lines[i]).contains('\n') by {
        assert(on_one_line(hints[i]));
    }
    law_joined_texts_come_back(lines, '\n');
    assert forall|i: int| 0 <= i < lines.len() implies #[trigger] item_texts(lines)[i]
        == selected_texts[i] by {
        assert(separable(hints[i]));
        law_hint_is_read_back(hints[i]);
    }
    assert(item_texts(lines) =~= selected_texts);
}

/// A text with a character that is no white space is not trimmed away.
pub proof fn lemma_not_blank(s: Text, i: int)
    requires
        0 <= i < s.len(),
        !is_white_space(s[i]),
    ensures
        trimmed_end(s).len() > 0,
        trimmed(s).len() > 0,
    decreases s.len(),
{
    if is_white_space(s.last()) {
        lemma_not_blank(s.drop_last(), i);
    }
    if is_white_space(s[0]) {
        lemma_not_blank(s.skip(1), i - 1);
    }
}

pub proof fn lemma_line_is_not_blank(hint: Hint)
    ensures
        !is_blank(line_of(hint)),
{
    let i = hint.upcase.len() as int;
    assert(line_of(hint)[i] == ':');
    lemma_not_blank(line_of(hint), i);
}

/// Outside of jumps, the user's command is run on the text of the selected hint,
/// without the white space at its end: the command for links, for upper case or for any
/// hint.
pub proof fn law_hint_is_acted_upon(s: SwapperState, hint: Hint, r: Seq<Text>)
    requires
        !s.jump,
        s.content == Some(line_of(hint)),
        separable(hint),
        on_one_line(hint),
    ensures
        selection_plan(s, r).outcome == Ok::<SwapperState, SwapError>(s),
        selection_plan(s, r).commands == seq![
            selection_command(
                trimmed_end(hint.text),
                command_for(
                    trimmed_end(hint.upcase) == "true"@,
                    hint.pattern,
                    s.command,
                    s.upcase_command,
                    s.url_command,
                ),
            ),
        ],
{
    lemma_line_is_not_blank(hint);
    law_selection_is_read_back(hint);
}

proof fn lemma_decimal_has_no_mark(n: int, c: char)
    requires
        c != '-',
        !is_digit(c),
    ensures
        !decimal(n).contains(c),
{
    if n < 0 {
        let digits = decimal_digits((-n) as nat);
        lemma_decimal_digits((-n) as nat);
        assert forall|i: int| 0 <= i < decimal(n).len() implies decimal(n)[i] != c by {
            if i > 0 {
                assert(decimal(n)[i] == digits[i - 1]);
                assert(is_digit(digits[i - 1]));
            }
        }
    } else {
        lemma_decimal_digits(n as nat);
        assert forall|i: int| 0 <= i < decimal(n).len() implies decimal(n)[i] != c by {
            assert(is_digit(decimal(n)[i]));
        }
    }
}

/// A jump moves the cursor to the column and the row of the selected hint.
pub proof fn law_hint_is_jumped_to(s: SwapperState, hint: Hint, x: i32, y: i32, r: Seq<Text>)
    requires
        s.jump,
        s.content == Some(line_of(hint)),
        !hint.upcase.contains(':'),
        !hint.pattern.contains(':'),
        hint.x == decimal(x as int),
        hint.y == decimal(y as int),
        on_one_line(hint),
    ensures
        jump_target(line_of(hint)) == Ok::<(i32, i32), SwapError>((x, y)),
        selection_plan(s, r) == move_plan(s, x as int, y as int, r),
{
    let line = line_of(hint);
    lemma_decimal_has_no_mark(x as int, ':');
    lemma_decimal_has_no_mark(y as int, ':');
    lemma_one_piece(line, '\n', None);
    assert(items(line)[0] == line);
    law_hint_is_read_back(hint);
    law_number_is_read_back(x);
    law_number_is_read_back(y);
    lemma_line_is_not_blank(hint);
}

/// Where nothing was selected, nothing is run and nothing changes.
pub proof fn law_blank_selection_does_nothing(s: SwapperState, r: Seq<Text>)
    requires
        s.content is Some,
        is_blank(s.content->0),
    ensures
        selection_plan(s, r).commands == Seq::<Command>::empty(),
        selection_plan(s, r).outcome == Ok::<SwapperState, SwapError>(s),
{
}

/// The selected text is never a part of what the shell reads as a script: it is an
/// argument of its own, as it is, and the other arguments do not depend on it.
pub proof fn law_text_is_not_spliced(text: Text, other: Text, command: Text)
    ensures
        selection_command(text, command)[4] == text,
        selection_command(text, command).len() == 6,
        forall|i: int|
            0 <= i < 6 && i != 4 ==> selection_command(text, command)[i] == selection_command(
                other,
                command,
            )[i],
{
}

proof fn lemma_no_placeholder(command: Text)
    ensures
        forall|i: int|
            0 <= i < with_reference(command).len() - 1 ==> !(#[trigger] with_reference(command)[i]
                == '{' && with_reference(command)[i + 1] == '}'),
        command.len() > 0 && with_reference(command)[0] == '}' ==> command[0] == '}',
        command.len() > 0 ==> with_reference(command).len() > 0,
    decreases command.len(),
{
    reveal_strlit("{}");
    reveal_strlit("${THUMB}");
    let pat = "{}"@;
    let to = "${THUMB}"@;
    let new = with_reference(command);
    if command.len() >= 2 {
        if command.take(2) == pat {
            let rest = with_reference(command.skip(2));
            lemma_no_placeholder(command.skip(2));
            assert(new == to + rest);
            assert forall|i: int| 0 <= i < new.len() - 1 implies !(#[trigger] new[i] == '{' && new[i
                + 1] == '}') by {
                if i >= 8 {
                    assert(new[i] == rest[i - 8]);
                    assert(new[i + 1] == rest[i - 8 + 1]);
                }
            }
        } else {
            let rest = with_reference(command.skip(1));
            lemma_no_placeholder(command.skip(1));
            assert(new == seq![command[0]] + rest);
            assert forall|i: int| 0 <= i < new.len() - 1 implies !(#[trigger] new[i] == '{' && new[i
                + 1] == '}') by {
                if i > 0 {
                    assert(new[i] == rest[i - 1]);
                    assert(new[i + 1] == rest[i - 1 + 1]);
                } else if new[0] == '{' && new[1] == '}' {
                    assert(rest[0] == '}');
                    assert(command.skip(1)[0] == '}');
                    assert(command.take(2) =~= pat);
                }
            }
        }
    }
}

/// No `{}` is left in the command that the shell evaluates.
pub proof fn law_no_placeholder_is_left(command: Text, i: int)
    requires
        0 <= i < with_reference(command).len() - 1,
    ensures
        !(with_reference(command)[i] == '{' && with_reference(command)[i + 1] == '}'),
{
    lemma_no_placeholder(command);
}

proof fn lemma_signal_parts(prefix: Text, s1: u64, p1: u32, s2: u64, p2: u32)
    requires
        signal_text(prefix, s1, p1) == signal_text(prefix, s2, p2),
    ensures
        decimal(s1 as int).len() == decimal(s2 as int).len(),
{
    reveal_strlit("-");
    let a = signal_text(prefix, s1, p1);
    let b = signal_text(prefix, s2, p2);
    let d1 = decimal(s1 as int);
    let d2 = decimal(s2 as int);
    lemma_decimal_digits(s1 as nat);
    lemma_decimal_digits(s2 as nat);
    if d1.len() < d2.len() {
        assert(a[(prefix.len() + d1.len()) as int] == '-');
        assert(b[(prefix.len() + d1.len()) as int] == d2[d1.len() as int]);
        assert(is_digit(d2[d1.len() as int]));
    } else if d2.len() < d1.len() {
        assert(b[(prefix.len() + d2.len()) as int] == '-');
        assert(a[(prefix.len() + d2.len()) as int] == d1[d2.len() as int]);
        assert(is_digit(d1[d2.len() as int]));
    }
}

/// The signals of two sessions differ, unless they were started in the same second by
/// processes with the same id.
pub proof fn law_signal_names_the_session(prefix: Text, s1: u64, p1: u32, s2: u64, p2: u32)
    requires
        signal_text(prefix, s1, p1) == signal_text(prefix, s2, p2),
    ensures
        s1 == s2,
        p1 == p2,
{
    reveal_strlit("-");
    lemma_signal_parts(prefix, s1, p1, s2, p2);
    let a = signal_text(prefix, s1, p1);
    let b = signal_text(prefix, s2, p2);
    let d1 = decimal(s1 as int);
    let d2 = decimal(s2 as int);
    let n = (prefix.len() + d1.len()) as int;
    assert(a.subrange(prefix.len() as int, n) =~= d1);
    assert(b.subrange(prefix.len() as int, n) =~= d2);
    assert(a.skip(n + 1) =~= decimal(p1 as int));
    assert(b.skip(n + 1) =~= decimal(p2 as int));
    law_decimals_differ(s1 as nat, s2 as nat);
    law_decimals_differ(p1 as nat, p2 as nat);
}

/// A signal is named after the second in which the session started and after its process.
pub proof fn law_signal_holds_time_and_process(prefix: Text, started: u64, process_id: u32)
    ensures
        signal_text(prefix, started, process_id) == prefix + decimal(started as int) + seq!['-']
            + decimal(process_id as int),
{
    reveal_strlit("-");
    assert("-"@ =~= seq!['-']);
}

/// Being ready and being finished are different signals.
pub proof fn law_signals_differ(started: u64, process_id: u32)
    ensures
        signal_text("thumbs-ready-"@, started, process_id) != signal_text(
            "thumbs-finished-"@,
            started,
            process_id,
        ),
{
    reveal_strlit("thumbs-ready-");
    reveal_strlit("thumbs-finished-");
    assert(signal_text("thumbs-ready-"@, started, process_id)[7] == 'r');
    assert(signal_text("thumbs-finished-"@, started, process_id)[7] == 'f');
}

/// When the active pane is captured, all is known that the steps after it need; after
/// a jump it is in a mode, and where its cursor and its view are is known.
pub proof fn law_capture_readies_the_session(before: SwapperState, after: SwapperState)
    requires
        captured(before, after, Ok(())),
    ensures
        ready_for_thumbs(after),
        after.active_pane_width is Some,
        after.active_pane_height is Some,
        before.jump ==> after.active_pane_in_mode && after.active_pane_cursor is Some,
        after.active_pane_in_mode ==> after.active_pane_scroll_position is Some,
{
}

proof fn lemma_no_active_row(rows: Seq<Text>)
    requires
        forall|i: int|
            0 <= i < rows.len() ==> fields(#[trigger] rows[i]).len() >= 6 && fields(rows[i])[5]
                != "active"@,
    ensures
        active_fields(rows) == Err::<Seq<Text>, SwapError>(SwapError::ActivePane),
    decreases rows.len(),
{
    if rows.len() > 0 {
        assert(fields(rows[0])[5] != "active"@);
        assert forall|i: int| 0 <= i < rows.skip(1).len() implies fields(
            #[trigger] rows.skip(1)[i],
        ).len() >= 6 && fields(rows.skip(1)[i])[5] != "active"@ by {
            assert(rows.skip(1)[i] == rows[i + 1]);
        }
        lemma_no_active_row(rows.skip(1));
    }
}

/// Where no pane is the active one, the panes are listed and nothing else is run; the
/// step ends with an error, and the state stays as it was.
pub proof fn law_without_an_active_pane(
    before: SwapperState,
    after: SwapperState,
    result: Result<(), SwapError>,
    rows: Seq<Text>,
)
    requires
        captured(before, after, result),
        rows == pieces(replies(before.log, after.log)[0], '\n', None),
        forall|i: int|
            0 <= i < rows.len() ==> fields(#[trigger] rows[i]).len() >= 6 && fields(rows[i])[5]
                != "active"@,
    ensures
        result == Err::<(), SwapError>(SwapError::ActivePane),
        ran(before.log, after.log, seq![list_panes_command()]),
        after == (SwapperState { log: after.log, ..before }),
{
    lemma_no_active_row(rows);
}

/// A jump on a pane that is in no mode lists the panes, puts the active one into copy
/// mode, and asks for the cursor and the scroll position. It provides no capture file.
pub proof fn law_jump_on_a_live_pane(before: SwapperState, after: SwapperState, pane: Seq<Text>)
    requires
        before.jump,
        captured(before, after, Ok(())),
        active_pane(replies(before.log, after.log)[0]) == Ok::<Seq<Text>, SwapError>(pane),
        !in_mode(pane),
    ensures
        ran(
            before.log,
            after.log,
            seq![
                list_panes_command(),
                copy_mode_command(pane[0]),
                display_command(pane[0], cursor_format()),
                display_command(pane[0], "#{scroll_position}"@),
            ],
        ),
        after.active_pane_captured_content == before.active_pane_captured_content,
{
    let r = replies(before.log, after.log);
    let plan = capture_plan(before, r);
    assert(plan.commands =~= seq![
        list_panes_command(),
        copy_mode_command(pane[0]),
        display_command(pane[0], cursor_format()),
        display_command(pane[0], "#{scroll_position}"@),
    ]);
}

/// A jump on a pane that is in a mode reads its capture file, and removes the lock of
/// that file at the end.
pub proof fn law_jump_uses_the_capture_file(
    before: SwapperState,
    after: SwapperState,
    pane: Seq<Text>,
    args: Seq<Text>,
)
    requires
        before.jump,
        captured(before, after, Ok(())),
        active_pane(replies(before.log, after.log)[0]) == Ok::<Seq<Text>, SwapError>(pane),
        in_mode(pane),
    ensures
        uses_capture(after),
        after.active_pane_id == Some(pane[0]),
        begins_with(pane_script(after, args), "cat "@ + capture_path(pane[0])),
        exists|script: Text|
            pane_script(after, args) == script + "; rmdir "@ + lock_path(pane[0])
                + " 2>/dev/null || true"@,
{
    let script = "cat "@ + after.active_pane_captured_content->0 + thumbs_text(
        after,
        args,
    );
    assert(pane_script(after, args) == script + "; rmdir "@ + lock_path(pane[0])
        + " 2>/dev/null || true"@);
    let start = "cat "@ + capture_path(pane[0]);
    assert(pane_script(after, args).take(start.len() as int) =~= start);
}

proof fn lemma_report_is_no_store(headline: Text, file: Text, debug: Text, pane: Text)
    ensures
        report_text(headline, file, debug) != store_text(pane, file),
{
    reveal_strlit("tmux capture-pane -p -e -t ");
    reveal_strlit("echo '");
    assert(store_text(pane, file)[0] == 't');
    assert(report_text(headline, file, debug)[0] == 'e');
}

proof fn lemma_script_is_no_store(pane: Text, file: Text, lock: Text)
    ensures
        check_text(file) != store_text(pane, file),
        lock_text(lock) != store_text(pane, file),
        wait_text(file) != store_text(pane, file),
{
    reveal_strlit("tmux capture-pane -p -e -t ");
    reveal_strlit("if [ -f ");
    reveal_strlit("mkdir ");
    reveal_strlit("for i in {1..50}; do [ -f ");
    assert(store_text(pane, file)[0] == 't');
    assert(check_text(file)[0] == 'i');
    assert(lock_text(lock)[0] == 'm');
    assert(wait_text(file)[0] == 'f');
}

/// A process that writes the capture file found it missing or old, and got the lock.
pub proof fn law_capture_is_written_under_the_lock(pane: Text, process: u32, r: Seq<Text>)
    requires
        provide_commands(pane, process, r).contains(
            script_command(store_text(pane, capture_path(pane))),
        ),
    ensures
        trimmed(r[0]) != "recent"@,
        provide_commands(pane, process, r)[1] == script_command(lock_text(lock_path(pane))),
        trimmed(r[1]) == "locked"@,
{
    let file = capture_path(pane);
    let debug = debug_path(process);
    let store = script_command(store_text(pane, file));
    let commands = provide_commands(pane, process, r);
    lemma_script_is_no_store(pane, file, lock_path(pane));
    assert(store[2] == store_text(pane, file));
    if trimmed(r[0]) == "recent"@ {
        let headline = headline_text(CaptureUse::Reused, process, file);
        lemma_report_is_no_store(headline, file, debug, pane);
        assert(commands[0][2] == check_text(file));
        assert(commands[1][2] == report_text(headline, file, debug));
        assert(false);
    } else if trimmed(r[1]) != "locked"@ {
        let headline = headline_text(CaptureUse::Waited, process, file);
        lemma_report_is_no_store(headline, file, debug, pane);
        assert(commands[0][2] == check_text(file));
        assert(commands[1][2] == lock_text(lock_path(pane)));
        assert(commands[2][2] == wait_text(file));
        assert(commands[3][2] == report_text(headline, file, debug));
        assert(false);
    }
}

/// The files of a pane have no `%` in their names, whatever the id of the pane.
pub proof fn law_tag_has_no_percent(pane: Text)
    ensures
        !pane_tag(pane).contains('%'),
{
    reveal_strlit("%");
    reveal_strlit("");
    assert("%"@ =~= seq!['%']);
    lemma_replaced_is_gone(pane, '%', ""@);
}

/// A jump captures the rows of the screen as they are; else wrapped lines are joined.
pub proof fn law_jump_keeps_wrapped_rows(s: SwapperState, args: Seq<Text>)
    requires
        !uses_capture(s),
    ensures
        s.jump ==> begins_with(pane_script(s, args), "tmux capture-pane -p -t "@),
        !s.jump ==> begins_with(pane_script(s, args), "tmux capture-pane -J -p -t "@),
{
    reveal_strlit("tmux capture-pane ");
    reveal_strlit("-p");
    reveal_strlit("-J -p");
    reveal_strlit(" -t ");
    reveal_strlit("tmux capture-pane -p -t ");
    reveal_strlit("tmux capture-pane -J -p -t ");
    if s.jump {
        let start = "tmux capture-pane -p -t "@;
        assert("tmux capture-pane "@ + "-p"@ + " -t "@ =~= start);
        assert(pane_script(s, args).take(start.len() as int) =~= start);
    } else {
        let start = "tmux capture-pane -J -p -t "@;
        assert("tmux capture-pane "@ + "-J -p"@ + " -t "@ =~= start);
        assert(pane_script(s, args).take(start.len() as int) =~= start);
    }
}

/// The row that a jump moves to shows the line that was selected, however far the view
/// was scrolled when it was captured and is scrolled now.
pub proof fn law_jump_lands_on_the_same_line(s: SwapperState, y: int, scroll_now: int)
    ensures
        row_now(s, y, scroll_now) - scroll_now == y - captured_scroll(s),
{
}

/// Only the row relative to the scroll position of the captured view matters: where both
/// are shifted by as much, a jump runs the same commands.
pub proof fn law_only_the_relative_row_matters(
    a: SwapperState,
    b: SwapperState,
    scroll: i32,
    k: int,
    x: int,
    y: int,
    r: Seq<Text>,
)
    requires
        a.active_pane_scroll_position == Some(scroll),
        i32::MIN <= scroll + k <= i32::MAX,
        b == (SwapperState { active_pane_scroll_position: Some((scroll + k) as i32), ..a }),
        ({
            let (row, scroll_now) = parsed_position(r[0]);
            &&& move_fits(a, y, row as int, scroll_now as int)
            &&& move_fits(b, y + k, row as int, scroll_now as int)
        }),
    ensures
        move_plan(a, x, y, r).commands == move_plan(b, x, y + k, r).commands,
        move_plan(a, x, y, r).outcome == Ok::<SwapperState, SwapError>(a),
        move_plan(b, x, y + k, r).outcome == Ok::<SwapperState, SwapError>(b),
{
}

/// A text without a character has no piece with it.
proof fn lemma_pieces_lack(s: Text, sep: char, limit: Option<nat>, c: char, i: int)
    requires
        !s.contains(c),
        0 <= i < pieces(s, sep, limit).len(),
    ensures
        !pieces(s, sep, limit)[i].contains(c),
    decreases s.len(),
{
    if s.len() > 0 {
        let start = s.drop_last();
        let before = pieces(start, sep, limit);
        let piece = pieces(s, sep, limit)[i];
        assert(s.contains(s.last()));
        assert(!start.contains(c)) by {
            assert forall|k: int| 0 <= k < start.len() implies start[k] != c by {
                assert(s.contains(s[k]));
            }
        }
        lemma_some_piece(start, sep, limit);
        if i < before.len() {
            lemma_pieces_lack(start, sep, limit, c, i);
            assert forall|k: int| 0 <= k < piece.len() implies piece[k] != c by {
                if k < before[i].len() {
                    assert(before[i].contains(before[i][k]));
                }
            }
        }
    }
}

/// A selection with a place to jump to is not blank.
pub proof fn lemma_target_is_not_blank(content: Text)
    requires
        jump_target(content) is Ok,
    ensures
        !is_blank(content),
{
    let line = items(content)[0];
    lemma_some_piece(content, '\n', None);
    if !content.contains(':') {
        lemma_pieces_lack(content, '\n', None, ':', 0);
        lemma_one_piece(line, ':', Some(5));
    }
    let i = choose|i: int| 0 <= i < content.len() && content[i] == ':';
    lemma_not_blank(content, i);
}

/// The script that runs the user's commands.
pub open spec fn command_script() -> Text {
    "THUMB=\"$1\"; eval \"$2\""@
}

/// No argument of a command is the script that runs the user's commands, but for the name
/// of the pane.
spec fn spares(command: Command, pane: Text) -> bool {
    forall|j: int|
        0 <= j < command.len() ==> #[trigger] command[j] == pane || command[j] != command_script()
}

proof fn lemma_moves_spare(pane: Text, n: int)
    ensures
        spares(display_command(pane, position_format()), pane),
        spares(line_start_command(pane), pane),
        spares(cursor_command(pane, n, "cursor-down"@), pane),
        spares(cursor_command(pane, n, "cursor-up"@), pane),
        spares(cursor_command(pane, n, "cursor-right"@), pane),
{
    reveal_strlit("THUMB=\"$1\"; eval \"$2\"");
    reveal_strlit("tmux");
    reveal_strlit("display-message");
    reveal_strlit("-p");
    reveal_strlit("-t");
    reveal_strlit("#{copy_cursor_x}:#{copy_cursor_y}:#{scroll_position}");
    reveal_strlit("send-keys");
    reveal_strlit("-X");
    reveal_strlit("start-of-line");
    reveal_strlit("bash");
    reveal_strlit("-c");
    reveal_strlit(
        "tmux send-keys -t \"$1\" -X -N \"$2\" \"$3\" || for ((i=0; i<$2; i++)); do tmux send-keys -t \"$1\" -X \"$3\"; done",
    );
    reveal_strlit("--");
    reveal_strlit("cursor-down");
    reveal_strlit("cursor-up");
    reveal_strlit("cursor-right");
    lemma_decimal_has_no_mark(n, 'T');
    if decimal(n) == command_script() {
        assert(decimal(n).contains(decimal(n)[0]));
    }
    let script = command_script();
    assert(script[0] == 'T');
}

/// A jump goes by the column and the row of the first selected hint alone. The user's
/// commands, the clipboard, the other fields of that hint and further hints make no
/// difference: the same commands are run, those that move the cursor; no user's command is
/// run, and nothing is copied.
pub proof fn law_jump_goes_by_the_place_alone(
    a: SwapperState,
    b: SwapperState,
    x: i32,
    y: i32,
    r: Seq<Text>,
)
    requires
        a.jump,
        a.content is Some,
        b.content is Some,
        jump_target(a.content->0) == Ok::<(i32, i32), SwapError>((x, y)),
        jump_target(b.content->0) == Ok::<(i32, i32), SwapError>((x, y)),
        b == (SwapperState {
            command: b.command,
            upcase_command: b.upcase_command,
            multi_command: b.multi_command,
            url_command: b.url_command,
            osc52: b.osc52,
            content: b.content,
            ..a
        }),
    ensures
        selection_plan(a, r) == move_plan(a, x as int, y as int, r),
        selection_plan(b, r) == move_plan(b, x as int, y as int, r),
        selection_plan(a, r).commands == selection_plan(b, r).commands,
        selection_plan(a, r).outcome is Ok == selection_plan(b, r).outcome is Ok,
        forall|i: int, j: int|
            #![trigger selection_plan(a, r).commands[i][j]]
            0 <= i < selection_plan(a, r).commands.len() && 0 <= j < selection_plan(
                a,
                r,
            ).commands[i].len() ==> selection_plan(a, r).commands[i][j] == a.active_pane_id->0
                || selection_plan(a, r).commands[i][j] != command_script(),
        clipboard_step(a) is None,
        clipboard_step(b) is None,
{
    lemma_target_is_not_blank(a.content->0);
    lemma_target_is_not_blank(b.content->0);
    let pane = a.active_pane_id->0;
    let (row, scroll_now) = parsed_position(r[0]);
    let to = row_now(a, y as int, scroll_now as int);
    let commands = selection_plan(a, r).commands;
    lemma_moves_spare(pane, to - row);
    lemma_moves_spare(pane, row - to);
    lemma_moves_spare(pane, x as int);
    assert forall|i: int| 0 <= i < commands.len() implies #[trigger] spares(
        commands[i],
        pane,
    ) by {}
}

/// The pane of thumbs takes the place of the active pane only after thumbs reported
/// that it is ready, and the selection is read only after thumbs is finished.
pub proof fn law_thumbs_is_shown_when_ready(s: SwapperState)
    ensures
        ({
            let commands = show_commands(s);
            let n = commands.len() as int;
            &&& commands[1] == wait_command(s.ready_signal)
            &&& commands[2] == swap_panes_command(s.active_pane_id->0, s.thumbs_pane_id->0)
            &&& n >= 6
            &&& commands[n - 3] == wait_command(s.signal)
            &&& commands[n - 2] == read_selection_command()
            &&& commands[n - 1] == delete_selection_command()
        }),
{
}

/// Panes with a name are named in the commands that swap and zoom them.
pub proof fn law_named_panes_are_kept(active: Text, thumbs: Text)
    requires
        active.len() > 0,
        thumbs.len() > 0,
    ensures
        swap_panes_command(active, thumbs) == seq![
            "tmux"@,
            "swap-pane"@,
            "-d"@,
            "-s"@,
            active,
            "-t"@,
            thumbs,
        ],
        zoom_command(thumbs) == seq!["tmux"@, "resize-pane"@, "-t"@, thumbs, "-Z"@],
{
    law_named_panes_stay(active, thumbs);
}

/// A step that ends with an error leaves the state as it was, but for the record.
pub proof fn law_error_leaves_the_state(
    before: SwapperState,
    after: SwapperState,
    error: SwapError,
)
    requires
        captured(before, after, Err(error)) || thumbs_started(before, after, Err(error))
            || follows(
            before,
            after,
            Err(error),
            selection_plan(before, replies(before.log, after.log)),
        ),
    ensures
        after == (SwapperState { log: after.log, ..before }),
{
}

/// After the user selected, all is known that acting upon the selection needs.
pub proof fn law_select_readies_the_selection(before: SwapperState, after: SwapperState)
    requires
        selected(before, after, Ok(())),
    ensures
        after.content is Some,
        after.active_pane_id is Some,
{
}

/// The clipboard is set only if that was asked for, and in addition to what is run: one
/// command, which does not depend on whether it was asked for.
pub proof fn law_copying_is_in_addition(s: SwapperState, r: Seq<Text>, osc52: bool)
    requires
        clipboard_step(s) is Some,
    ensures
        s.osc52,
        selection_plan(s, r).commands.len() == 1,
        selection_plan((SwapperState { osc52, ..s }), r).commands == selection_plan(s, r).commands,
{
}

/// The options are turned into arguments line by line.
pub proof fn law_options_go_line_by_line(a: Seq<Text>, b: Seq<Text>)
    ensures
        lines_texts(a + b) == lines_texts(a) + lines_texts(b),
{
    lemma_lines_add(a, b);
}

} // verus!
