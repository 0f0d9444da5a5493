//! The argument lists of the programs that are run: tmux, the shell, `cat` and
//! `rm`. Each list is first given as a sequence of texts, then built.

use crate::number::{decimal, int_to_string, law_number_is_read_back, parsed_i32};
use crate::text::{
    law_first_occurrence_is_replaced, law_nothing_else_is_replaced, replace, replaced, stands,
    texts, without_empty, Text,
};
use vstd::prelude::*;
use vstd::string::*;

verus! {

/// The file in which the selection is left.
pub const TMP_FILE: &'static str = "/tmp/thumbs-last";

/// The program with its arguments.
pub type Command = Seq<Text>;

/// Asks for one line per pane of the window, with seven fields each: the id,
/// whether it is in a mode, the height, the scroll position, whether the window is
/// zoomed, whether it is the active one, the width.
pub open spec fn list_panes_command() -> Command {
    seq![
        "tmux"@,
        "list-panes"@,
        "-F"@,
        "#{pane_id}:#{?pane_in_mode,1,0}:#{pane_height}:#{scroll_position}:#{window_zoomed_flag}:#{?pane_active,active,nope}:#{pane_width}"@,
    ]
}

/// Builds the command that lists the panes.
pub fn list_panes_args() -> (args: Vec<String>)
    ensures
        texts(args@) == list_panes_command(),
{
    vec![
        "tmux".to_owned(),
        "list-panes".to_owned(),
        "-F".to_owned(),
        "#{pane_id}:#{?pane_in_mode,1,0}:#{pane_height}:#{scroll_position}:#{window_zoomed_flag}:#{?pane_active,active,nope}:#{pane_width}".to_owned(),
    ]
}

/// Puts a pane into copy mode.
pub open spec fn copy_mode_command(pane: Text) -> Command {
    seq!["tmux"@, "copy-mode"@, "-t"@, pane]
}

/// Builds the command that puts a pane into copy mode.
pub fn copy_mode_args(pane: &str) -> (args: Vec<String>)
    ensures
        texts(args@) == copy_mode_command(pane@),
{
    vec!["tmux".to_owned(), "copy-mode".to_owned(), "-t".to_owned(), pane.to_owned()]
}

/// Asks what `format` says of a pane.
pub open spec fn display_command(pane: Text, format: Text) -> Command {
    seq!["tmux"@, "display-message"@, "-p"@, "-t"@, pane, format]
}

/// Builds the command that asks what a format says of a pane.
pub fn display_args(pane: &str, format: &str) -> (args: Vec<String>)
    ensures
        texts(args@) == display_command(pane@, format@),
{
    vec![
        "tmux".to_owned(),
        "display-message".to_owned(),
        "-p".to_owned(),
        "-t".to_owned(),
        pane.to_owned(),
        format.to_owned(),
    ]
}

/// Runs a shell script.
pub open spec fn script_command(script: Text) -> Command {
    seq!["sh"@, "-c"@, script]
}

/// Builds the command that runs a shell script.
pub fn script_args(text: String) -> (args: Vec<String>)
    ensures
        texts(args@) == script_command(text@),
{
    vec!["sh".to_owned(), "-c".to_owned(), text]
}

/// Asks for the global options.
pub open spec fn show_options_command() -> Command {
    seq!["tmux"@, "show"@, "-g"@]
}

/// Builds the command that asks for the global options.
pub fn show_options_args() -> (args: Vec<String>)
    ensures
        texts(args@) == show_options_command(),
{
    vec!["tmux".to_owned(), "show".to_owned(), "-g".to_owned()]
}

/// Opens a window in the background that runs `pane_command`, and asks for the id
/// of its pane.
pub open spec fn thumbs_window_command(pane_command: Text) -> Command {
    seq![
        "tmux"@,
        "new-window"@,
        "-P"@,
        "-F"@,
        "#{pane_id}"@,
        "-d"@,
        "-n"@,
        "[thumbs]"@,
        pane_command,
    ]
}

/// Builds the command that opens the window of thumbs.
pub fn thumbs_window_args(pane_command: String) -> (args: Vec<String>)
    ensures
        texts(args@) == thumbs_window_command(pane_command@),
{
    vec![
        "tmux".to_owned(),
        "new-window".to_owned(),
        "-P".to_owned(),
        "-F".to_owned(),
        "#{pane_id}".to_owned(),
        "-d".to_owned(),
        "-n".to_owned(),
        "[thumbs]".to_owned(),
        pane_command,
    ]
}

/// The arguments that are not empty.
pub open spec fn non_empty(command: Command) -> Command {
    command.filter(|t: Text| t.len() > 0)
}

/// A program that has a name is not dropped.
proof fn lemma_program_is_kept(command: Command)
    requires
        command.len() > 0,
        command[0].len() > 0,
    ensures
        non_empty(command).len() > 0,
    decreases command.len(),
{
    reveal(Seq::filter);
    if command.len() > 1 {
        lemma_program_is_kept(command.drop_last());
    }
}

/// Exchanges the two panes on the screen.
pub open spec fn swap_panes_command(active: Text, thumbs: Text) -> Command {
    non_empty(seq!["tmux"@, "swap-pane"@, "-d"@, "-s"@, active, "-t"@, thumbs])
}

/// Builds the command that exchanges two panes.
pub fn swap_panes_args(active: &str, thumbs: &str) -> (args: Vec<String>)
    ensures
        texts(args@) == swap_panes_command(active@, thumbs@),
        texts(args@).len() > 0,
{
    let all = vec![
        "tmux".to_owned(),
        "swap-pane".to_owned(),
        "-d".to_owned(),
        "-s".to_owned(),
        active.to_owned(),
        "-t".to_owned(),
        thumbs.to_owned(),
    ];
    proof {
        reveal_strlit("tmux");
        assert(texts(all@) =~= seq![
            "tmux"@,
            "swap-pane"@,
            "-d"@,
            "-s"@,
            active@,
            "-t"@,
            thumbs@,
        ]);
        lemma_program_is_kept(texts(all@));
    }
    without_empty(all)
}

/// Gives the window of a pane a size.
pub open spec fn resize_window_command(pane: Text, width: int, height: int) -> Command {
    seq![
        "tmux"@,
        "resize-window"@,
        "-t"@,
        pane,
        "-x"@,
        decimal(width),
        "-y"@,
        decimal(height),
    ]
}

/// Builds the command that gives the window of a pane a size.
pub fn resize_window_args(pane: &str, width: i32, height: i32) -> (args: Vec<String>)
    ensures
        texts(args@) == resize_window_command(pane@, width as int, height as int),
{
    vec![
        "tmux".to_owned(),
        "resize-window".to_owned(),
        "-t".to_owned(),
        pane.to_owned(),
        "-x".to_owned(),
        int_to_string(width as i64),
        "-y".to_owned(),
        int_to_string(height as i64),
    ]
}

/// Toggles the zoom of a pane.
pub open spec fn zoom_command(pane: Text) -> Command {
    non_empty(seq!["tmux"@, "resize-pane"@, "-t"@, pane, "-Z"@])
}

/// Builds the command that toggles the zoom of a pane.
pub fn zoom_args(pane: &str) -> (args: Vec<String>)
    ensures
        texts(args@) == zoom_command(pane@),
        texts(args@).len() > 0,
{
    let all = vec![
        "tmux".to_owned(),
        "resize-pane".to_owned(),
        "-t".to_owned(),
        pane.to_owned(),
        "-Z".to_owned(),
    ];
    proof {
        reveal_strlit("tmux");
        assert(texts(all@) =~= seq!["tmux"@, "resize-pane"@, "-t"@, pane@, "-Z"@]);
        lemma_program_is_kept(texts(all@));
    }
    without_empty(all)
}

/// Waits until a signal is sent.
pub open spec fn wait_command(signal: Text) -> Command {
    seq!["tmux"@, "wait-for"@, signal]
}

/// Builds the command that waits for a signal.
pub fn wait_args(signal: &str) -> (args: Vec<String>)
    ensures
        texts(args@) == wait_command(signal@),
{
    vec!["tmux".to_owned(), "wait-for".to_owned(), signal.to_owned()]
}

/// Reads the selection.
pub open spec fn read_selection_command() -> Command {
    seq!["cat"@, TMP_FILE@]
}

/// Builds the command that reads the selection.
pub fn read_selection_args() -> (args: Vec<String>)
    ensures
        texts(args@) == read_selection_command(),
{
    vec!["cat".to_owned(), TMP_FILE.to_owned()]
}

/// Deletes the selection.
pub open spec fn delete_selection_command() -> Command {
    seq!["rm"@, TMP_FILE@]
}

/// Builds the command that deletes the selection.
pub fn delete_selection_args() -> (args: Vec<String>)
    ensures
        texts(args@) == delete_selection_command(),
{
    vec!["rm".to_owned(), TMP_FILE.to_owned()]
}

/// Moves the copy-mode cursor `count` times: in one go where tmux can, else step
/// by step.
pub open spec fn cursor_command(pane: Text, count: int, direction: Text) -> Command {
    seq![
        "bash"@,
        "-c"@,
        "tmux send-keys -t \"$1\" -X -N \"$2\" \"$3\" || for ((i=0; i<$2; i++)); do tmux send-keys -t \"$1\" -X \"$3\"; done"@,
        "--"@,
        pane,
        decimal(count),
        direction,
    ]
}

/// Moves the copy-mode cursor to the first column.
pub open spec fn line_start_command(pane: Text) -> Command {
    seq!["tmux"@, "send-keys"@, "-t"@, pane, "-X"@, "start-of-line"@]
}

/// The user's command with every `{}` turned into a reference to the variable that
/// holds the selected text.
pub open spec fn with_reference(command: Text) -> Text {
    replaced(command, "{}"@, "${THUMB}"@)
}

/// Runs the user's command on the selected text. The text is an argument of its
/// own, which the shell stores in a variable and never reads as a script.
pub open spec fn selection_command(text: Text, command: Text) -> Command {
    seq!["bash"@, "-c"@, "THUMB=\"$1\"; eval \"$2\""@, "--"@, text, with_reference(command)]
}

/// Builds the command that runs the user's command on a text.
pub fn selection_args(text: &str, command: &str) -> (args: Vec<String>)
    ensures
        texts(args@) == selection_command(text@, command@),
{
    proof {
        reveal_strlit("{}");
    }
    let command = replace(command, "{}", "${THUMB}");
    vec![
        "bash".to_owned(),
        "-c".to_owned(),
        "THUMB=\"$1\"; eval \"$2\"".to_owned(),
        "--".to_owned(),
        text.to_owned(),
        command,
    ]
}

/// What tmux is asked: each command is a call of tmux on the pane that it is about.
pub proof fn law_tmux_is_called_on_the_pane(pane: Text, format: Text, signal: Text, script: Text)
    ensures
        list_panes_command().take(3) == seq!["tmux"@, "list-panes"@, "-F"@],
        copy_mode_command(pane) == seq!["tmux"@, "copy-mode"@, "-t"@, pane],
        display_command(pane, format) == seq![
            "tmux"@,
            "display-message"@,
            "-p"@,
            "-t"@,
            pane,
            format,
        ],
        show_options_command() == seq!["tmux"@, "show"@, "-g"@],
        wait_command(signal) == seq!["tmux"@, "wait-for"@, signal],
        line_start_command(pane) == seq![
            "tmux"@,
            "send-keys"@,
            "-t"@,
            pane,
            "-X"@,
            "start-of-line"@,
        ],
        thumbs_window_command(script).drop_last() == seq![
            "tmux"@,
            "new-window"@,
            "-P"@,
            "-F"@,
            "#{pane_id}"@,
            "-d"@,
            "-n"@,
            "[thumbs]"@,
        ],
        thumbs_window_command(script).last() == script,
        script_command(script) == seq!["sh"@, "-c"@, script],
{
    assert(list_panes_command().take(3) =~= seq!["tmux"@, "list-panes"@, "-F"@]);
}

/// The selection is read from the file that thumbs writes it to, and that file is deleted.
pub proof fn law_selection_is_left_in_one_file()
    ensures
        read_selection_command() == seq!["cat"@, "/tmp/thumbs-last"@],
        delete_selection_command() == seq!["rm"@, "/tmp/thumbs-last"@],
{
}

/// A window gets the size that it is given: the numbers behind `-x` and `-y` are read back
/// as the width and the height.
pub proof fn law_window_gets_its_size(pane: Text, width: i32, height: i32)
    ensures
        ({
            let command = resize_window_command(pane, width as int, height as int);
            &&& command.len() == 8
            &&& command.take(5) == seq!["tmux"@, "resize-window"@, "-t"@, pane, "-x"@]
            &&& parsed_i32(command[5]) == Some(width)
            &&& command[6] == "-y"@
            &&& parsed_i32(command[7]) == Some(height)
        }),
{
    let command = resize_window_command(pane, width as int, height as int);
    assert(command.take(5) =~= seq!["tmux"@, "resize-window"@, "-t"@, pane, "-x"@]);
    law_number_is_read_back(width);
    law_number_is_read_back(height);
}

/// The cursor is moved on the pane, as often and in the direction that is said.
pub proof fn law_cursor_moves_as_often(pane: Text, count: i32, direction: Text)
    ensures
        ({
            let command = cursor_command(pane, count as int, direction);
            &&& command.len() == 7
            &&& command[0] == "bash"@
            &&& command[1] == "-c"@
            &&& command[3] == "--"@
            &&& command[4] == pane
            &&& parsed_i32(command[5]) == Some(count)
            &&& command[6] == direction
        }),
{
    law_number_is_read_back(count);
}

/// Each `{}` of the user's command becomes a reference to the selected text, and nothing
/// else of it changes.
pub proof fn law_placeholder_becomes_a_reference(before: Text, rest: Text)
    requires
        forall|at: int| !stands(before, "{}"@, at),
    ensures
        with_reference(before) == before,
        with_reference(before + "{}"@ + rest) == before + "${THUMB}"@ + with_reference(rest),
{
    reveal_strlit("{}");
    let s = before + "{}"@ + rest;
    law_nothing_else_is_replaced(before, "{}"@, "${THUMB}"@);
    assert forall|at: int| 0 <= at < before.len() implies !stands(s, "{}"@, at) by {
        if stands(s, "{}"@, at) {
            assert(s.subrange(at, at + 2)[0] == s[at]);
            assert(s.subrange(at, at + 2)[1] == s[at + 1]);
            assert(s[at] == before[at]);
            if at + 1 < before.len() {
                assert(before.subrange(at, at + 2) =~= "{}"@);
                assert(stands(before, "{}"@, at));
            }
        }
    }
    law_first_occurrence_is_replaced(before, "{}"@, rest, "${THUMB}"@);
}

/// Where both panes have a name, no argument of the commands that swap and zoom them is
/// dropped.
pub proof fn law_named_panes_stay(active: Text, thumbs: Text)
    requires
        active.len() > 0,
        thumbs.len() > 0,
    ensures
        swap_panes_command(active, thumbs) == seq![
            "tmux"@,
            "swap-pane"@,
            "-d"@,
            "-s"@,
            active,
            "-t"@,
            thumbs,
        ],
        zoom_command(thumbs) == seq!["tmux"@, "resize-pane"@, "-t"@, thumbs, "-Z"@],
{
    reveal_strlit("tmux");
    reveal_strlit("swap-pane");
    reveal_strlit("-d");
    reveal_strlit("-s");
    reveal_strlit("-t");
    reveal_strlit("resize-pane");
    reveal_strlit("-Z");
    lemma_all_kept(seq!["tmux"@, "swap-pane"@, "-d"@, "-s"@, active, "-t"@, thumbs]);
    lemma_all_kept(seq!["tmux"@, "resize-pane"@, "-t"@, thumbs, "-Z"@]);
}

proof fn lemma_all_kept(list: Command)
    requires
        forall|i: int| 0 <= i < list.len() ==> (#[trigger] list[i]).len() > 0,
    ensures
        non_empty(list) == list,
    decreases list.len(),
{
    reveal(Seq::filter);
    if list.len() > 0 {
        lemma_all_kept(list.drop_last());
        assert(list =~= list.drop_last().push(list.last()));
    }
}

/// The user's command is run by a shell that gets it, and the text, as arguments of their
/// own.
pub proof fn law_command_gets_the_text_as_an_argument(text: Text, command: Text)
    ensures
        selection_command(text, command) == seq![
            "bash"@,
            "-c"@,
            "THUMB=\"$1\"; eval \"$2\""@,
            "--"@,
            text,
            with_reference(command),
        ],
{
}

} // verus!
