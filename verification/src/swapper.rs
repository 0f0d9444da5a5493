//! The session: the active pane is captured, thumbs runs on its content in a pane
//! that takes its place, and what the user selects there is acted upon.

use crate::capture::{
    capture_file, capture_path, check_script, check_text, debug_file, headline, lock_file,
    lock_path, lock_script, lock_text, provide_commands, report_command, report_script,
    store_script, store_text, wait_script, wait_text, CaptureUse,
};
use crate::clipboard::copy_sequence;
use crate::commands::{
    copy_mode_args, cursor_command, delete_selection_args, delete_selection_command, display_args,
    display_command, line_start_command, list_panes_args, list_panes_command, read_selection_args,
    read_selection_command, resize_window_args, resize_window_command, script_args, script_command,
    selection_args, selection_command, show_options_args, show_options_command, swap_panes_args,
    swap_panes_command, thumbs_window_args, thumbs_window_command, wait_args, wait_command,
    zoom_args, zoom_command, Command, TMP_FILE,
};
use crate::error::SwapError;
use crate::number::{decimal, int_to_string, parse_i32, unsigned_to_string};
use crate::options::listing_args;
use crate::pane::{find_active_pane, parse_cursor, parse_position, parsed_cursor};
use crate::quote::shell_quote;
use crate::selection::{
    blank, command_for, find_choice, find_jump_target, is_blank, names_url, Choice,
};
use crate::shell::{
    lemma_ran_chain, lemma_ran_nothing, lemma_ran_one, ran, replies, Exchange, Executor,
};
use crate::state::{
    capture_note, captured, clipboard_step, column_commands, cursor_format, detail_plan, follows,
    jump_text, move_plan, only_ran, pane_plan, position_format, prepare_commands, ready_for_thumbs,
    row_commands, rows_fit, scroll_text, selected, selection_plan, show_commands, shown,
    thumbs_started, thumbs_text, uses_capture, view_plan, zoom_text, PaneText, SwapperState,
};
use crate::text::{join, opt_text, same_text, texts, trim, trim_end, Text};
use vstd::prelude::*;
use vstd::string::*;

verus! {

/// A session on the active pane.
pub struct Swapper<'a, E: Executor> {
    pub executor: &'a mut E,
    pub dir: String,
    pub command: String,
    pub upcase_command: String,
    pub multi_command: String,
    pub url_command: String,
    pub jump: bool,
    pub character: Option<String>,
    pub backward: bool,
    pub osc52: bool,
    pub active_pane_id: Option<String>,
    pub active_pane_in_mode: bool,
    pub active_pane_cursor: Option<(i32, i32)>,
    pub active_pane_width: Option<i32>,
    pub active_pane_height: Option<i32>,
    pub active_pane_scroll_position: Option<i32>,
    pub active_pane_history_size: Option<i32>,
    pub active_pane_zoomed: Option<bool>,
    pub active_pane_captured_content: Option<String>,
    pub thumbs_pane_id: Option<String>,
    pub content: Option<String>,
    pub ready_signal: String,
    pub signal: String,
    pub process_id: u32,
}

impl<'a, E: Executor> View for Swapper<'a, E> {
    type V = SwapperState;

    open spec fn view(&self) -> SwapperState {
        SwapperState {
            log: self.executor.history(),
            dir: self.dir@,
            command: self.command@,
            upcase_command: self.upcase_command@,
            multi_command: self.multi_command@,
            url_command: self.url_command@,
            jump: self.jump,
            character: opt_text(self.character),
            backward: self.backward,
            osc52: self.osc52,
            active_pane_id: opt_text(self.active_pane_id),
            active_pane_in_mode: self.active_pane_in_mode,
            active_pane_cursor: self.active_pane_cursor,
            active_pane_width: self.active_pane_width,
            active_pane_height: self.active_pane_height,
            active_pane_scroll_position: self.active_pane_scroll_position,
            active_pane_history_size: self.active_pane_history_size,
            active_pane_zoomed: self.active_pane_zoomed,
            active_pane_captured_content: opt_text(self.active_pane_captured_content),
            thumbs_pane_id: opt_text(self.thumbs_pane_id),
            content: opt_text(self.content),
            ready_signal: self.ready_signal@,
            signal: self.signal@,
            process_id: self.process_id,
        }
    }
}

/// What was found out about the active pane. What was not asked for is missing.
struct Pane {
    id: String,
    in_mode: bool,
    width: i32,
    height: i32,
    zoomed: bool,
    cursor: Option<(i32, i32)>,
    capture: Option<String>,
    scroll: Option<i32>,
    history: Option<i32>,
}

impl View for Pane {
    type V = PaneText;

    closed spec fn view(&self) -> PaneText {
        PaneText {
            id: self.id@,
            in_mode: self.in_mode,
            width: self.width,
            height: self.height,
            zoomed: self.zoomed,
            cursor: self.cursor,
            capture: opt_text(self.capture),
            scroll: self.scroll,
            history: self.history,
        }
    }
}

/// The name of a signal of the process that was started at a time.
pub open spec fn signal_text(prefix: Text, started: u64, process_id: u32) -> Text {
    prefix + decimal(started as int) + "-"@ + decimal(process_id as int)
}

fn signal_name(prefix: &str, started: u64, process_id: u32) -> (name: String)
    ensures
        name@ == signal_text(prefix@, started, process_id),
{
    prefix.to_owned().concat(unsigned_to_string(started).as_str()).concat("-").concat(
        unsigned_to_string(process_id as u64).as_str(),
    )
}

impl<'a, E: Executor> Swapper<'a, E> {
    /// A session that has not run anything yet. `started` is the time in seconds
    /// since the epoch; with the id of the process it makes the names of the two
    /// signals.
    pub fn new(
        executor: &'a mut E,
        dir: String,
        command: String,
        upcase_command: String,
        multi_command: String,
        url_command: String,
        jump: bool,
        character: Option<String>,
        backward: bool,
        osc52: bool,
        started: u64,
        process_id: u32,
    ) -> (swapper: Swapper<'a, E>)
        ensures
            swapper@ == (SwapperState {
                log: old(executor).history(),
                dir: dir@,
                command: command@,
                upcase_command: upcase_command@,
                multi_command: multi_command@,
                url_command: url_command@,
                jump,
                character: opt_text(character),
                backward,
                osc52,
                active_pane_id: None,
                active_pane_in_mode: false,
                active_pane_cursor: None,
                active_pane_width: None,
                active_pane_height: None,
                active_pane_scroll_position: None,
                active_pane_history_size: None,
                active_pane_zoomed: None,
                active_pane_captured_content: None,
                thumbs_pane_id: None,
                content: None,
                ready_signal: signal_text("thumbs-ready-"@, started, process_id),
                signal: signal_text("thumbs-finished-"@, started, process_id),
                process_id,
            }),
            *final(swapper.executor) == *final(executor),
    {
        Swapper {
            executor,
            dir,
            command,
            upcase_command,
            multi_command,
            url_command,
            jump,
            character,
            backward,
            osc52,
            active_pane_id: None,
            active_pane_in_mode: false,
            active_pane_cursor: None,
            active_pane_width: None,
            active_pane_height: None,
            active_pane_scroll_position: None,
            active_pane_history_size: None,
            active_pane_zoomed: None,
            active_pane_captured_content: None,
            thumbs_pane_id: None,
            content: None,
            ready_signal: signal_name("thumbs-ready-", started, process_id),
            signal: signal_name("thumbs-finished-", started, process_id),
            process_id,
        }
    }

    /// Runs a command.
    fn run(&mut self, args: Vec<String>) -> (output: String)
        requires
            texts(args@).len() > 0,
        ensures
            *final(self) == (Swapper { executor: final(self).executor, ..*old(self) }),
            *final(final(self).executor) == *final(old(self).executor),
            final(self)@.log == old(self)@.log.push(
                Exchange { args: texts(args@), output: output@ },
            ),
            ran(old(self)@.log, final(self)@.log, seq![texts(args@)]),
            replies(old(self)@.log, final(self)@.log) == seq![output@],
    {
        let ghost log = self@.log;
        let ghost command = texts(args@);
        let output = self.executor.execute(args);
        proof {
            lemma_ran_nothing(log);
            lemma_ran_one(log, log, Seq::empty(), Exchange { args: command, output: output@ });
            assert(Seq::<Command>::empty().push(command) =~= seq![command]);
            assert(Seq::<Text>::empty().push(output@) =~= seq![output@]);
        }
        output
    }

    /// Notes what was done with the capture file of a pane.
    fn report_capture(&mut self, pane: &str, usage: CaptureUse)
        ensures
            *final(self) == (Swapper { executor: final(self).executor, ..*old(self) }),
            *final(final(self).executor) == *final(old(self).executor),
            ran(
                old(self)@.log,
                final(self)@.log,
                seq![report_command(usage, old(self)@.process_id, pane@)],
            ),
    {
        let file = capture_file(pane);
        let note = headline(usage, self.process_id, file.as_str());
        let debug = debug_file(self.process_id);
        let _ = self.run(
            script_args(report_script(note.as_str(), file.as_str(), debug.as_str())),
        );
    }

    /// Provides the capture file of a pane.
    fn provide_capture(&mut self, pane: &str)
        ensures
            *final(self) == (Swapper { executor: final(self).executor, ..*old(self) }),
            *final(final(self).executor) == *final(old(self).executor),
            ran(
                old(self)@.log,
                final(self)@.log,
                provide_commands(
                    pane@,
                    old(self)@.process_id,
                    replies(old(self)@.log, final(self)@.log),
                ),
            ),
    {
        let ghost log0 = self@.log;
        let file = capture_file(pane);
        let checked = self.run(script_args(check_script(file.as_str())));
        let ghost log1 = self@.log;
        let ghost check = script_command(check_text(capture_path(pane@)));
        if same_text(trim(checked.as_str()).as_str(), "recent") {
            self.report_capture(pane, CaptureUse::Reused);
            proof {
                let report = report_command(CaptureUse::Reused, self.process_id, pane@);
                lemma_ran_chain(log0, log1, self@.log, seq![check], seq![report]);
                assert(seq![check] + seq![report] =~= seq![check, report]);
            }
            return;
        }
        let lock = lock_file(pane);
        let locked = self.run(script_args(lock_script(lock.as_str())));
        let ghost log2 = self@.log;
        let ghost take = script_command(lock_text(lock_path(pane@)));
        proof {
            lemma_ran_chain(log0, log1, log2, seq![check], seq![take]);
            assert(seq![check] + seq![take] =~= seq![check, take]);
        }
        let written = same_text(trim(locked.as_str()).as_str(), "locked");
        let ghost work = if written {
            script_command(store_text(pane@, capture_path(pane@)))
        } else {
            script_command(wait_text(capture_path(pane@)))
        };
        let usage = if written { CaptureUse::Written } else { CaptureUse::Waited };
        if written {
            let _ = self.run(script_args(store_script(pane, file.as_str())));
        } else {
            let _ = self.run(script_args(wait_script(file.as_str())));
        }
        let ghost log3 = self@.log;
        self.report_capture(pane, usage);
        proof {
            let report = report_command(usage, self.process_id, pane@);
            lemma_ran_chain(log0, log2, log3, seq![check, take], seq![work]);
            lemma_ran_chain(
                log0,
                log3,
                self@.log,
                seq![check, take] + seq![work],
                seq![report],
            );
            assert(seq![check, take] + seq![work] + seq![report] =~= seq![
                check,
                take,
                work,
                report,
            ]);
        }
    }

    /// Prepares a pane for a jump and reads the cursor of its copy mode.
    fn prepare_jump(&mut self, pane: &Vec<String>) -> (cursor: Option<(i32, i32)>)
        requires
            pane@.len() >= 6,
        ensures
            *final(self) == (Swapper { executor: final(self).executor, ..*old(self) }),
            *final(final(self).executor) == *final(old(self).executor),
            ({
                let r = replies(old(self)@.log, final(self)@.log);
                let fields = texts(pane@);
                let prepared = prepare_commands(old(self).process_id, fields, r);
                &&& ran(
                    old(self)@.log,
                    final(self)@.log,
                    prepared + seq![display_command(fields[0], cursor_format())],
                )
                &&& cursor == parsed_cursor(r[prepared.len() as int])
            }),
    {
        let ghost log0 = self@.log;
        let ghost fields = texts(pane@);
        assert(fields[0] == pane@[0]@ && fields[1] == pane@[1]@);
        let id = pane[0].as_str();
        if same_text(pane[1].as_str(), "1") {
            self.provide_capture(id);
        } else {
            let _ = self.run(copy_mode_args(id));
        }
        let ghost log1 = self@.log;
        let ghost prepared = prepare_commands(self.process_id, fields, replies(log0, log1));
        let report = self.run(display_args(id, "#{copy_cursor_x}:#{copy_cursor_y}"));
        proof {
            let ask = seq![display_command(id@, cursor_format())];
            lemma_ran_chain(log0, log1, self@.log, prepared, ask);
            let r = replies(log0, self@.log);
            assert(r[0] == replies(log0, log1)[0]);
            assert(prepare_commands(self.process_id, fields, r) == prepared);
            assert(r[prepared.len() as int] == report@);
        }
        parse_cursor(report.as_str())
    }

    /// Reads how far a pane that is in a mode now is scrolled, and the size of its
    /// history if it was in a mode before.
    fn read_view(&mut self, pane: &Vec<String>) -> (view: Result<
        (Option<i32>, Option<i32>),
        SwapError,
    >)
        requires
            pane@.len() >= 6,
        ensures
            *final(self) == (Swapper { executor: final(self).executor, ..*old(self) }),
            *final(final(self).executor) == *final(old(self).executor),
            ({
                let r = replies(old(self)@.log, final(self)@.log);
                let (commands, outcome) = view_plan(texts(pane@), r);
                ran(old(self)@.log, final(self)@.log, commands) && view == outcome
            }),
    {
        let ghost fields = texts(pane@);
        assert(fields[0] == pane@[0]@ && fields[1] == pane@[1]@ && fields[3] == pane@[3]@);
        let id = pane[0].as_str();
        if same_text(pane[1].as_str(), "1") {
            let scroll = parse_i32(pane[3].as_str());
            if scroll.is_none() {
                proof {
                    lemma_ran_nothing(self@.log);
                }
                return Err(SwapError::PaneScroll);
            }
            let report = self.run(display_args(id, "#{history_size}"));
            let size = parse_i32(report.as_str());
            if size.is_none() {
                return Err(SwapError::HistorySize);
            }
            Ok((scroll, size))
        } else {
            let report = self.run(display_args(id, "#{scroll_position}"));
            let scroll = parse_i32(report.as_str());
            if scroll.is_none() {
                return Err(SwapError::PaneScroll);
            }
            Ok((scroll, None))
        }
    }

    /// Finds out about the active pane when its fields are known.
    #[verifier::spinoff_prover]
    #[verifier::rlimit(30)]
    fn inspect_details(&mut self, pane: &Vec<String>) -> (found: Result<Pane, SwapError>)
        requires
            pane@.len() >= 6,
        ensures
            *final(self) == (Swapper { executor: final(self).executor, ..*old(self) }),
            *final(final(self).executor) == *final(old(self).executor),
            ({
                let r = replies(old(self)@.log, final(self)@.log);
                let (commands, outcome) = detail_plan(
                    old(self).jump,
                    old(self).process_id,
                    texts(pane@),
                    r,
                );
                &&& ran(old(self)@.log, final(self)@.log, commands)
                &&& match found {
                    Ok(pane) => outcome == Ok::<PaneText, SwapError>(pane@),
                    Err(e) => outcome == Err::<PaneText, SwapError>(e),
                }
            }),
    {
        let ghost log0 = self@.log;
        let ghost fields = texts(pane@);
        assert(fields[0] == pane@[0]@ && fields[1] == pane@[1]@ && fields[2] == pane@[2]@
            && fields[4] == pane@[4]@ && (fields.len() > 6 ==> fields[6] == pane@[6]@));
        proof {
            lemma_ran_nothing(log0);
        }
        let was_in_mode = same_text(pane[1].as_str(), "1");
        let height = match parse_i32(pane[2].as_str()) {
            Some(height) => height,
            None => {
                return Err(SwapError::PaneHeight);
            },
        };
        let mut cursor: Option<(i32, i32)> = None;
        let mut capture: Option<String> = None;
        let ghost mut commands = Seq::<Command>::empty();
        if self.jump {
            cursor = self.prepare_jump(pane);
            proof {
                commands = prepare_commands(self.process_id, fields, replies(log0, self@.log))
                    + seq![display_command(fields[0], cursor_format())];
            }
            if cursor.is_none() {
                return Err(SwapError::CopyCursor);
            }
            if was_in_mode {
                capture = Some(capture_file(pane[0].as_str()));
            }
        }
        let ghost log1 = self@.log;
        let width = match parse_i32(if pane.len() > 6 { pane[6].as_str() } else { "0" }) {
            Some(width) => width,
            None => {
                return Err(SwapError::PaneWidth);
            },
        };
        let in_mode_now = was_in_mode || self.jump;
        let mut view: (Option<i32>, Option<i32>) = (None, None);
        if in_mode_now {
            let read = self.read_view(pane);
            proof {
                let before = replies(log0, log1);
                let after = replies(log1, self@.log);
                let r = replies(log0, self@.log);
                let (more, _) = view_plan(fields, after);
                lemma_ran_chain(log0, log1, self@.log, commands, more);
                assert(r.skip(commands.len() as int) =~= after);
                if self.jump {
                    assert(r[0] == before[0]);
                    assert(was_in_mode ==> r[1] == before[1]);
                    assert(r[commands.len() - 1] == before[commands.len() - 1]);
                }
            }
            match read {
                Ok(found) => {
                    view = found;
                },
                Err(e) => {
                    return Err(e);
                },
            }
        } else {
            assert(commands + Seq::<Command>::empty() =~= commands);
        }
        let zoomed = same_text(pane[4].as_str(), "1");
        Ok(
            Pane {
                id: pane[0].clone(),
                in_mode: in_mode_now,
                width,
                height,
                zoomed,
                cursor,
                capture,
                scroll: view.0,
                history: view.1,
            },
        )
    }

    /// Finds out about the active pane.
    #[verifier::spinoff_prover]
    fn inspect(&mut self) -> (found: Result<Pane, SwapError>)
        ensures
            *final(self) == (Swapper { executor: final(self).executor, ..*old(self) }),
            *final(final(self).executor) == *final(old(self).executor),
            ({
                let r = replies(old(self)@.log, final(self)@.log);
                let (commands, outcome) = pane_plan(old(self).jump, old(self).process_id, r);
                &&& ran(old(self)@.log, final(self)@.log, commands)
                &&& match found {
                    Ok(pane) => outcome == Ok::<PaneText, SwapError>(pane@),
                    Err(e) => outcome == Err::<PaneText, SwapError>(e),
                }
            }),
    {
        let ghost log0 = self@.log;
        let listing = self.run(list_panes_args());
        let ghost log1 = self@.log;
        let pane = match find_active_pane(listing.as_str()) {
            Ok(pane) => pane,
            Err(e) => {
                return Err(e);
            },
        };
        let found = self.inspect_details(&pane);
        proof {
            let r = replies(log1, self@.log);
            let listed = seq![list_panes_command()];
            let (more, _) = detail_plan(self.jump, self.process_id, texts(pane@), r);
            lemma_ran_chain(log0, log1, self@.log, listed, more);
            assert(replies(log0, self@.log).skip(1) =~= r);
        }
        found
    }

    /// Finds the active pane and takes note of it: its id, its size, whether it is
    /// zoomed and, where it is in a mode, how far it is scrolled. For a jump the pane
    /// is put into copy mode and the cursor is read; of a pane that is in a mode
    /// already, the capture file is provided first.
    pub fn capture_active_pane(&mut self) -> (result: Result<(), SwapError>)
        ensures
            captured(old(self)@, final(self)@, result),
            *final(final(self).executor) == *final(old(self).executor),
    {
        let pane = match self.inspect() {
            Ok(pane) => pane,
            Err(e) => {
                return Err(e);
            },
        };
        self.active_pane_id = Some(pane.id);
        self.active_pane_in_mode = pane.in_mode;
        self.active_pane_width = Some(pane.width);
        self.active_pane_height = Some(pane.height);
        self.active_pane_zoomed = Some(pane.zoomed);
        if pane.cursor.is_some() {
            self.active_pane_cursor = pane.cursor;
        }
        if pane.capture.is_some() {
            self.active_pane_captured_content = pane.capture;
        }
        if pane.scroll.is_some() {
            self.active_pane_scroll_position = pane.scroll;
        }
        if pane.history.is_some() {
            self.active_pane_history_size = pane.history;
        }
        Ok(())
    }

    /// What thumbs is told of a jump.
    fn jump_args(&self) -> (text: String)
        requires
            ready_for_thumbs(self@),
        ensures
            text@ == jump_text(self@),
    {
        if !self.jump {
            return "".to_owned();
        }
        let backward = if self.backward { " --backward" } else { "" };
        match &self.character {
            Some(character) => {
                let quoted = " --character ".to_owned().concat(
                    shell_quote(character.as_str()).as_str(),
                );
                let (x, y) = self.active_pane_cursor.unwrap();
                let start = " --start-x ".to_owned().concat(
                    int_to_string(x as i64).as_str(),
                ).concat(" --start-y ").concat(int_to_string(y as i64).as_str());
                " --jump".to_owned().concat(quoted.as_str()).concat(backward).concat(
                    start.as_str(),
                )
            },
            None => " --jump".to_owned().concat(backward),
        }
    }

    /// What zooms the active pane again, if it was zoomed.
    fn zoom_again(&self) -> (text: String)
        requires
            ready_for_thumbs(self@),
        ensures
            text@ == zoom_text(self@),
    {
        if self.active_pane_zoomed.unwrap() {
            "tmux resize-pane -t ".to_owned().concat(
                self.active_pane_id.as_ref().unwrap().as_str(),
            ).concat(" -Z;")
        } else {
            "".to_owned()
        }
    }

    /// The part of the script that runs thumbs.
    fn thumbs_part(&self, args: &Vec<String>) -> (text: String)
        requires
            ready_for_thumbs(self@),
        ensures
            text@ == thumbs_text(self@, texts(args@)),
    {
        let height: i32 = match self.active_pane_height {
            Some(height) => height,
            None => i32::MAX,
        };
        " | tail -n ".to_owned().concat(int_to_string(height as i64).as_str()).concat(
            " | ",
        ).concat(self.dir.as_str()).concat("/target/release/thumbs --ready-signal ").concat(
            self.ready_signal.as_str(),
        ).concat(" -f '%U:%P:%X:%Y:%H' -t ").concat(TMP_FILE).concat(" ").concat(
            join(args, " ").as_str(),
        ).concat(self.jump_args().as_str()).concat("; tmux swap-pane -t ").concat(
            self.active_pane_id.as_ref().unwrap().as_str(),
        ).concat("; ").concat(self.zoom_again().as_str()).concat(
            " tmux wait-for -S ",
        ).concat(self.signal.as_str())
    }

    /// Which rows to capture; none if that is out of range.
    fn scroll_args(&self) -> (text: Option<String>)
        ensures
            text is None <==> self.active_pane_height is Some
                && self.active_pane_scroll_position is Some && !rows_fit(
                self.active_pane_height->0,
                self.active_pane_scroll_position->0,
            ),
            text is Some ==> text->0@ == scroll_text(
                self.active_pane_height,
                self.active_pane_scroll_position,
            ),
    {
        match (self.active_pane_height, self.active_pane_scroll_position) {
            (Some(height), Some(scroll)) => {
                let first: i64 = -(scroll as i64);
                let rows: i64 = height as i64 - scroll as i64;
                let last: i64 = rows - 1;
                if first > i32::MAX as i64 || rows < i32::MIN as i64 || rows > i32::MAX as i64
                    || last < i32::MIN as i64 {
                    return None;
                }
                Some(
                    " -S ".to_owned().concat(int_to_string(first).as_str()).concat(
                        " -E ",
                    ).concat(int_to_string(last).as_str()),
                )
            },
            _ => Some("".to_owned()),
        }
    }

    /// Reads the options and starts thumbs in a window of its own, on the content of
    /// the active pane.
    pub fn execute_thumbs(&mut self) -> (result: Result<(), SwapError>)
        requires
            ready_for_thumbs(old(self)@),
        ensures
            thumbs_started(old(self)@, final(self)@, result),
            *final(final(self).executor) == *final(old(self).executor),
    {
        let ghost before = self@;
        let listing = self.run(show_options_args());
        let ghost log1 = self@.log;
        let args = listing_args(listing.as_str());
        let scroll = match self.scroll_args() {
            Some(scroll) => scroll,
            None => {
                return Err(SwapError::ScrollRange);
            },
        };
        let part = self.thumbs_part(&args);
        let id = self.active_pane_id.as_ref().unwrap().clone();
        let mut script = String::new();
        if self.jump && self.active_pane_captured_content.is_some() {
            let file = self.active_pane_captured_content.as_ref().unwrap().clone();
            let debug = debug_file(self.process_id);
            let _ = self.run(
                script_args(
                    "echo 'Using pre-captured file: ".to_owned().concat(file.as_str()).concat(
                        "' >> ",
                    ).concat(debug.as_str()),
                ),
            );
            script = "cat ".to_owned().concat(file.as_str()).concat(part.as_str()).concat(
                "; rmdir ",
            ).concat(lock_file(id.as_str()).as_str()).concat(" 2>/dev/null || true");
        } else {
            proof {
                lemma_ran_nothing(log1);
            }
            script = "tmux capture-pane ".to_owned().concat(
                if self.jump { "-p" } else { "-J -p" },
            ).concat(" -t ").concat(id.as_str()).concat(scroll.as_str()).concat(
                part.as_str(),
            );
        }
        let ghost log2 = self@.log;
        let window = self.run(thumbs_window_args(script));
        proof {
            let asked = seq![show_options_command()];
            let note = if uses_capture(before) {
                seq![capture_note(before)]
            } else {
                Seq::empty()
            };
            let last = thumbs_window_command(script@);
            lemma_ran_chain(before.log, log1, log2, asked, note);
            lemma_ran_chain(before.log, log2, self@.log, asked + note, seq![last]);
            assert(asked + note =~= (if uses_capture(before) {
                asked.push(capture_note(before))
            } else {
                asked
            }));
            assert(asked + note + seq![last] =~= (asked + note).push(last));
            let r = replies(before.log, self@.log);
            assert(r[0] == listing@);
            assert(r[(asked + note).len() as int] == window@);
        }
        self.thumbs_pane_id = Some(window);
        Ok(())
    }

    /// Shows thumbs in the place of the active pane.
    pub fn swap_panes(&mut self)
        requires
            old(self).active_pane_id is Some,
            old(self).thumbs_pane_id is Some,
        ensures
            only_ran(
                old(self)@,
                final(self)@,
                seq![
                    swap_panes_command(
                        old(self)@.active_pane_id->0,
                        old(self)@.thumbs_pane_id->0,
                    ),
                ],
            ),
            *final(final(self).executor) == *final(old(self).executor),
    {
        let active = self.active_pane_id.as_ref().unwrap().clone();
        let thumbs = self.thumbs_pane_id.as_ref().unwrap().clone();
        let _ = self.run(swap_panes_args(active.as_str(), thumbs.as_str()));
    }

    /// Gives the window of thumbs the size of the active pane.
    pub fn resize_thumbs_window(&mut self)
        requires
            old(self).thumbs_pane_id is Some,
            old(self).active_pane_width is Some,
            old(self).active_pane_height is Some,
        ensures
            only_ran(
                old(self)@,
                final(self)@,
                seq![
                    resize_window_command(
                        old(self)@.thumbs_pane_id->0,
                        old(self).active_pane_width->0 as int,
                        old(self).active_pane_height->0 as int,
                    ),
                ],
            ),
            *final(final(self).executor) == *final(old(self).executor),
    {
        let thumbs = self.thumbs_pane_id.as_ref().unwrap().clone();
        let width = self.active_pane_width.unwrap();
        let height = self.active_pane_height.unwrap();
        let _ = self.run(resize_window_args(thumbs.as_str(), width, height));
    }

    /// Zooms the pane of thumbs if the active pane was zoomed.
    pub fn resize_pane(&mut self)
        requires
            old(self).active_pane_zoomed is Some,
            old(self).active_pane_zoomed->0 ==> old(self).thumbs_pane_id is Some,
        ensures
            only_ran(
                old(self)@,
                final(self)@,
                if old(self).active_pane_zoomed->0 {
                    seq![zoom_command(old(self)@.thumbs_pane_id->0)]
                } else {
                    Seq::empty()
                },
            ),
            *final(final(self).executor) == *final(old(self).executor),
    {
        if !self.active_pane_zoomed.unwrap() {
            proof {
                lemma_ran_nothing(self@.log);
            }
            return;
        }
        let thumbs = self.thumbs_pane_id.as_ref().unwrap().clone();
        let _ = self.run(zoom_args(thumbs.as_str()));
    }

    /// Waits until thumbs has painted its first frame.
    pub fn wait_ready(&mut self)
        ensures
            only_ran(old(self)@, final(self)@, seq![wait_command(old(self)@.ready_signal)]),
            *final(final(self).executor) == *final(old(self).executor),
    {
        let _ = self.run(wait_args(self.ready_signal.as_str()));
    }

    /// Waits until thumbs is finished.
    pub fn wait_thumbs(&mut self)
        ensures
            only_ran(old(self)@, final(self)@, seq![wait_command(old(self)@.signal)]),
            *final(final(self).executor) == *final(old(self).executor),
    {
        let _ = self.run(wait_args(self.signal.as_str()));
    }

    /// Reads the selection.
    pub fn retrieve_content(&mut self)
        ensures
            ran(old(self)@.log, final(self)@.log, seq![read_selection_command()]),
            final(self)@ == (SwapperState {
                log: final(self)@.log,
                content: Some(replies(old(self)@.log, final(self)@.log)[0]),
                ..old(self)@
            }),
            *final(final(self).executor) == *final(old(self).executor),
    {
        let content = self.run(read_selection_args());
        self.content = Some(content);
    }

    /// Deletes the selection.
    pub fn destroy_content(&mut self)
        ensures
            only_ran(old(self)@, final(self)@, seq![delete_selection_command()]),
            *final(final(self).executor) == *final(old(self).executor),
    {
        let _ = self.run(delete_selection_args());
    }

    /// Does nothing: the clipboard is set when the selection is acted upon.
    pub fn send_osc52(&mut self)
        ensures
            *final(self) == *old(self),
    {
    }

    /// Lets the user select: captures the active pane, runs thumbs in its place, and
    /// takes over what was selected. The active pane stays visible until thumbs has
    /// painted its first frame.
    pub fn select(&mut self) -> (result: Result<(), SwapError>)
        ensures
            selected(old(self)@, final(self)@, result),
            *final(final(self).executor) == *final(old(self).executor),
    {
        let ghost before = self@;
        match self.capture_active_pane() {
            Ok(()) => {},
            Err(e) => {
                return Err(e);
            },
        }
        let ghost a = self@;
        match self.execute_thumbs() {
            Ok(()) => {},
            Err(e) => {
                assert(thumbs_started(a, self@, Err(e)));
                return Err(e);
            },
        }
        let ghost b = self@;
        self.show_thumbs();
        assert(thumbs_started(a, b, Ok(())));
        Ok(())
    }

    /// Shows thumbs when it is ready, and takes over what was selected when it is
    /// finished.
    fn show_thumbs(&mut self)
        requires
            old(self).active_pane_id is Some,
            old(self).active_pane_width is Some,
            old(self).active_pane_height is Some,
            old(self).active_pane_zoomed is Some,
            old(self).thumbs_pane_id is Some,
        ensures
            shown(old(self)@, final(self)@),
            *final(final(self).executor) == *final(old(self).executor),
    {
        let ghost before = self@;
        self.resize_thumbs_window();
        let ghost log1 = self@.log;
        self.wait_ready();
        let ghost log2 = self@.log;
        self.swap_panes();
        let ghost log3 = self@.log;
        self.resize_pane();
        let ghost log4 = self@.log;
        self.wait_thumbs();
        let ghost log5 = self@.log;
        self.retrieve_content();
        let ghost log6 = self@.log;
        self.destroy_content();
        proof {
            let all = show_commands(before);
            let zoom = if before.active_pane_zoomed->0 {
                seq![zoom_command(before.thumbs_pane_id->0)]
            } else {
                Seq::empty()
            };
            let n: int = 3 + zoom.len() as int;
            lemma_ran_chain(before.log, log1, log2, seq![all[0]], seq![all[1]]);
            lemma_ran_chain(before.log, log2, log3, seq![all[0]] + seq![all[1]], seq![all[2]]);
            let first = seq![all[0]] + seq![all[1]] + seq![all[2]];
            lemma_ran_chain(before.log, log3, log4, first, zoom);
            lemma_ran_chain(before.log, log4, log5, first + zoom, seq![all[n]]);
            let second = first + zoom + seq![all[n]];
            lemma_ran_chain(before.log, log5, log6, second, seq![all[n + 1]]);
            lemma_ran_chain(
                before.log,
                log6,
                self@.log,
                second + seq![all[n + 1]],
                seq![all[n + 2]],
            );
            assert(second + seq![all[n + 1]] + seq![all[n + 2]] =~= all);
            assert(replies(before.log, self@.log)[all.len() - 2] == replies(log5, log6)[0]);
        }
    }

    /// Whether a pattern is one of links.
    pub fn is_url_pattern(pattern: &str) -> (yes: bool)
        ensures
            yes == names_url(pattern@),
    {
        same_text(pattern, "url") || same_text(pattern, "markdown_url") || same_text(
            pattern,
            "url_custom",
        )
    }

    /// The command for a single hint.
    pub fn command_for_selection<'b>(
        upcase: bool,
        pattern: &str,
        command: &'b str,
        upcase_command: &'b str,
        url_command: &'b str,
    ) -> (chosen: &'b str)
        ensures
            chosen@ == command_for(upcase, pattern@, command@, upcase_command@, url_command@),
    {
        if upcase && Self::is_url_pattern(pattern) {
            url_command
        } else if upcase {
            upcase_command
        } else {
            command
        }
    }

    /// The direction and the distance from one place to another; none if they are
    /// the same.
    pub fn cursor_delta(
        from: i32,
        to: i32,
        positive: &'static str,
        negative: &'static str,
    ) -> (delta: Option<(&'static str, i32)>)
        requires
            -i32::MAX <= to - from <= i32::MAX,
        ensures
            match delta {
                Some((direction, count)) => count > 0 && ((direction@ == positive@ && from + count
                    == to && to > from) || (direction@ == negative@ && from - count == to && to
                    < from)),
                None => to == from,
            },
    {
        if to > from {
            Some((positive, to - from))
        } else if to < from {
            Some((negative, from - to))
        } else {
            None
        }
    }

    /// The command that moves the copy-mode cursor some steps.
    pub fn shell_cursor_command(pane_id: &str, count: i32, direction: &str) -> (args: Vec<String>)
        ensures
            texts(args@) == cursor_command(pane_id@, count as int, direction@),
    {
        vec![
            "bash".to_owned(),
            "-c".to_owned(),
            "tmux send-keys -t \"$1\" -X -N \"$2\" \"$3\" || for ((i=0; i<$2; i++)); do tmux send-keys -t \"$1\" -X \"$3\"; done".to_owned(),
            "--".to_owned(),
            pane_id.to_owned(),
            int_to_string(count as i64),
            direction.to_owned(),
        ]
    }

    /// The command that moves the copy-mode cursor to the first column.
    pub fn start_of_line_command(pane_id: &str) -> (args: Vec<String>)
        ensures
            texts(args@) == line_start_command(pane_id@),
    {
        vec![
            "tmux".to_owned(),
            "send-keys".to_owned(),
            "-t".to_owned(),
            pane_id.to_owned(),
            "-X".to_owned(),
            "start-of-line".to_owned(),
        ]
    }

    /// Moves the copy-mode cursor to a place of the captured view. The view may have
    /// moved since, by as much as its scroll position changed.
    pub fn move_cursor_to(&mut self, x: i32, y: i32) -> (result: Result<(), SwapError>)
        requires
            old(self).active_pane_id is Some,
        ensures
            follows(
                old(self)@,
                final(self)@,
                result,
                move_plan(
                    old(self)@,
                    x as int,
                    y as int,
                    replies(old(self)@.log, final(self)@.log),
                ),
            ),
            *final(final(self).executor) == *final(old(self).executor),
    {
        let ghost before = self@;
        let id = self.active_pane_id.as_ref().unwrap().clone();
        let captured_at: i32 = match self.active_pane_scroll_position {
            Some(scroll) => scroll,
            None => 0,
        };
        let report = self.run(
            display_args(id.as_str(), "#{copy_cursor_x}:#{copy_cursor_y}:#{scroll_position}"),
        );
        let ghost log1 = self@.log;
        let (row, scroll) = parse_position(report.as_str());
        let moved: i64 = scroll as i64 - captured_at as i64;
        let target: i64 = y as i64 + moved;
        let distance: i64 = target - row as i64;
        if moved < i32::MIN as i64 || moved > i32::MAX as i64 || target < i32::MIN as i64 || target
            > i32::MAX as i64 || distance < -(i32::MAX as i64) || distance > i32::MAX as i64 {
            return Err(SwapError::RowRange);
        }
        self.move_to_row(id.as_str(), row, target as i32);
        let ghost log2 = self@.log;
        self.move_to_column(id.as_str(), x);
        proof {
            let ask = seq![display_command(id@, position_format())];
            let rows = row_commands(id@, row as int, target as int);
            let columns = column_commands(id@, x as int);
            lemma_ran_chain(before.log, log1, log2, ask, rows);
            lemma_ran_chain(before.log, log2, self@.log, ask + rows, columns);
            assert(replies(before.log, self@.log)[0] == report@);
        }
        Ok(())
    }

    /// Moves the copy-mode cursor from a row to another.
    fn move_to_row(&mut self, pane_id: &str, from: i32, to: i32)
        requires
            -i32::MAX <= to - from <= i32::MAX,
        ensures
            *final(self) == (Swapper { executor: final(self).executor, ..*old(self) }),
            *final(final(self).executor) == *final(old(self).executor),
            ran(
                old(self)@.log,
                final(self)@.log,
                row_commands(pane_id@, from as int, to as int),
            ),
    {
        match Self::cursor_delta(from, to, "cursor-down", "cursor-up") {
            Some((direction, count)) => {
                let _ = self.run(Self::shell_cursor_command(pane_id, count, direction));
            },
            None => {
                proof {
                    lemma_ran_nothing(self@.log);
                }
            },
        }
    }

    /// Moves the copy-mode cursor to a column.
    fn move_to_column(&mut self, pane_id: &str, x: i32)
        ensures
            *final(self) == (Swapper { executor: final(self).executor, ..*old(self) }),
            *final(final(self).executor) == *final(old(self).executor),
            ran(old(self)@.log, final(self)@.log, column_commands(pane_id@, x as int)),
    {
        let ghost log0 = self@.log;
        let _ = self.run(Self::start_of_line_command(pane_id));
        let ghost log1 = self@.log;
        if x > 0 {
            let _ = self.run(Self::shell_cursor_command(pane_id, x, "cursor-right"));
            proof {
                let start = line_start_command(pane_id@);
                let right = cursor_command(pane_id@, x as int, "cursor-right"@);
                lemma_ran_chain(log0, log1, self@.log, seq![start], seq![right]);
                assert(seq![start] + seq![right] =~= seq![start, right]);
            }
        }
    }

    /// The sequence that the terminal has to be sent before the selection is acted
    /// upon: one that copies the text of a single hint, if that is asked for.
    pub fn pending_osc52(&self) -> (sequence: Option<String>)
        requires
            self.content is Some,
        ensures
            opt_text(sequence) == clipboard_step(self@),
    {
        let content = self.content.as_ref().unwrap();
        if !self.osc52 || self.jump || blank(content.as_str()) {
            return None;
        }
        match find_choice(content.as_str()) {
            Choice::One(pick) => Some(copy_sequence(pick.text.as_str())),
            _ => None,
        }
    }

    /// Acts upon the selection: moves the cursor for a jump, else runs the user's
    /// command on what was selected. Nothing happens if nothing was selected.
    /// What the terminal has to be sent before is said by `pending_osc52`.
    pub fn execute_command(&mut self) -> (result: Result<(), SwapError>)
        requires
            old(self).content is Some,
            old(self).jump ==> old(self).active_pane_id is Some || is_blank(old(self)@.content->0),
        ensures
            follows(
                old(self)@,
                final(self)@,
                result,
                selection_plan(old(self)@, replies(old(self)@.log, final(self)@.log)),
            ),
            *final(final(self).executor) == *final(old(self).executor),
    {
        let content = self.content.as_ref().unwrap().clone();
        proof {
            lemma_ran_nothing(self@.log);
        }
        if blank(content.as_str()) {
            return Ok(());
        }
        if self.jump {
            return match find_jump_target(content.as_str()) {
                Ok((x, y)) => self.move_cursor_to(x, y),
                Err(e) => Err(e),
            };
        }
        match find_choice(content.as_str()) {
            Choice::Nothing => {},
            Choice::One(pick) => {
                let command = Self::command_for_selection(
                    pick.upcase,
                    pick.pattern.as_str(),
                    self.command.as_str(),
                    self.upcase_command.as_str(),
                    self.url_command.as_str(),
                ).to_owned();
                let text = trim_end(pick.text.as_str());
                self.execute_final_command(text.as_str(), command.as_str());
            },
            Choice::Many(text) => {
                let command = self.multi_command.clone();
                self.execute_final_command(text.as_str(), command.as_str());
            },
        }
        Ok(())
    }

    /// Runs the user's command on a text.
    pub fn execute_final_command(&mut self, text: &str, execute_command: &str)
        ensures
            only_ran(
                old(self)@,
                final(self)@,
                seq![selection_command(text@, execute_command@)],
            ),
            *final(final(self).executor) == *final(old(self).executor),
    {
        let _ = self.run(selection_args(text, execute_command));
    }
}

} // verus!
