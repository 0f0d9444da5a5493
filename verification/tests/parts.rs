use std::cell::RefCell;
use std::rc::Rc;
use tmux_thumbs::capture::{
    capture_file, check_script, debug_file, headline, lock_file, lock_script, report_script,
    store_script, wait_script, CaptureUse,
};
use tmux_thumbs::clipboard::{clipboard_sequence, copy_sequence};
use tmux_thumbs::commands::{
    copy_mode_args, delete_selection_args, display_args, list_panes_args, read_selection_args,
    resize_window_args, script_args, selection_args, show_options_args, swap_panes_args,
    thumbs_window_args, wait_args, zoom_args, TMP_FILE,
};
use tmux_thumbs::defaults::{
    default_url_command, DEFAULT_COMMAND, DEFAULT_MULTI_COMMAND, DEFAULT_UPCASE_COMMAND,
};
use tmux_thumbs::error::SwapError;
use tmux_thumbs::options::{line_args, listing_args, match_args, option_args};
use tmux_thumbs::pane::{find_active_pane, parse_cursor, parse_position};
use tmux_thumbs::selection::{blank, find_choice, find_jump_target, Choice};
use tmux_thumbs::shell::{program_output, Executor, Process, RealShell};

/// Answers with the bytes that it is given, last first, and notes what it ran.
struct Answers {
    printed: Vec<Vec<u8>>,
    runs: Rc<RefCell<Vec<Vec<String>>>>,
}

impl Process for Answers {
    fn output(&mut self, args: &Vec<String>) -> Vec<u8> {
        self.runs.borrow_mut().push(args.clone());
        let mut bytes = args.join("|").into_bytes();
        bytes.extend(self.printed.pop().unwrap());
        bytes
    }
}

#[test]
fn output_is_text_without_trailing_white_space() {
    assert_eq!(program_output(b"%97\n"), "%97");
    assert_eq!(program_output(b"  a b \t\r\n\n"), "  a b");
    assert_eq!(program_output("h\u{e9}llo\u{a0}\n".as_bytes()), "h\u{e9}llo");
    assert_eq!(program_output(b""), "");
}

#[test]
fn output_that_is_not_utf8_is_replaced() {
    assert_eq!(program_output(b"a\xffb\n"), "a\u{fffd}b");
    assert_eq!(program_output(b"\xe2\x82"), "\u{fffd}");
}

#[test]
fn the_shell_keeps_the_last_command() {
    let mut shell = RealShell::new(Answers {
        printed: vec![b" second\n".to_vec(), b" first \n".to_vec()],
        runs: Rc::new(RefCell::new(vec![])),
    });
    assert_eq!(shell.last_executed(), None);
    let output = shell.execute(vec!["tmux".to_string(), "show".to_string()]);
    assert_eq!(output, "tmux|show first");
    assert_eq!(shell.last_executed().unwrap(), vec!["tmux", "show"]);
    let output = shell.execute(vec!["rm".to_string()]);
    assert_eq!(output, "rm second");
    assert_eq!(shell.last_executed().unwrap(), vec!["rm"]);
    let output = shell.finish(vec!["cat".to_string()], b"a\xff \n");
    assert_eq!(output, "a\u{fffd}");
    assert_eq!(shell.last_executed().unwrap(), vec!["cat"]);
}

#[test]
fn each_program_is_run_once() {
    let runs = Rc::new(RefCell::new(vec![]));
    let mut shell = RealShell::new(Answers {
        printed: vec![b"".to_vec(), b"".to_vec()],
        runs: Rc::clone(&runs),
    });
    shell.execute(vec!["tmux".to_string(), "show".to_string()]);
    assert_eq!(*runs.borrow(), vec![vec!["tmux", "show"]]);
    shell.execute(vec!["rm".to_string()]);
    assert_eq!(*runs.borrow(), vec![vec!["tmux", "show"], vec!["rm"]]);
    shell.finish(vec!["cat".to_string()], b"");
    assert_eq!(runs.borrow().len(), 2);
}

#[test]
fn switches_are_handed_on_without_a_value() {
    assert_eq!(listing_args("@thumbs-reverse enabled"), vec!["--reverse"]);
    assert_eq!(listing_args("@thumbs-unique \"on\""), vec!["--unique"]);
    assert_eq!(listing_args("@thumbs-contrast 1"), vec!["--contrast"]);
}

#[test]
fn settings_are_handed_on_quoted() {
    let names = [
        "alphabet",
        "position",
        "fg-color",
        "bg-color",
        "hint-bg-color",
        "hint-fg-color",
        "select-fg-color",
        "select-bg-color",
        "multi-fg-color",
        "multi-bg-color",
    ];
    for name in names {
        let expected = vec![format!("--{}", name), "'some value'".to_string()];
        assert_eq!(line_args(&format!("@thumbs-{} \"some value\"", name)), expected);
        assert_eq!(line_args(&format!("@thumbs-{}   some value", name)), expected);
    }
}

#[test]
fn expressions_lose_the_doubling_of_backslashes() {
    assert_eq!(
        listing_args("@thumbs-regexp-1 \"[a-z]+\\\\.com\""),
        vec!["--regexp", "'[a-z]+\\.com'"]
    );
    assert_eq!(
        listing_args("@thumbs-url-regexp-x \"\\\\\\\\d\""),
        vec!["--url-regexp", "'\\\\d'"]
    );
}

#[test]
fn other_lines_are_skipped() {
    let none: Vec<String> = vec![];
    assert_eq!(listing_args(""), none);
    assert_eq!(listing_args("status on\nprefix C-b"), none);
    assert_eq!(listing_args("@thumbs-key F"), none);
    assert_eq!(listing_args("@thumbs-reverse"), none);
    assert_eq!(listing_args(" @thumbs-reverse on"), none);
    assert_eq!(listing_args("set @thumbs-reverse on"), none);
    assert_eq!(listing_args("@thumbs-alphabet \"a\" \"b\""), none);
    assert_eq!(listing_args("@thumbs- reverse"), none);
    assert_eq!(listing_args("@thumbs-alphabet \"\""), none);
}

#[test]
fn options_go_line_by_line() {
    let first = "@thumbs-alphabet qwerty\nstatus on";
    let second = "@thumbs-reverse 1\n@thumbs-regexp-a \"x y\"";
    let all = listing_args(&format!("{}\n{}", first, second));
    assert_eq!(all, vec!["--alphabet", "'qwerty'", "--reverse", "--regexp", "'x y'"]);
    assert_eq!(all, [listing_args(first), listing_args(second)].concat());
}

#[test]
fn groups_turn_into_arguments() {
    let group = |s: &str| Some(s.to_string());
    let none: Vec<String> = vec![];
    assert_eq!(match_args(&None), none);
    assert_eq!(match_args(&Some(vec![group("all"), group("reverse")])), none);
    assert_eq!(match_args(&Some(vec![group("all"), None, group("on")])), none);
    assert_eq!(match_args(&Some(vec![group("all"), group("position"), None])), none);
    assert_eq!(
        match_args(&Some(vec![group("all"), group("position"), group("left")])),
        vec!["--position", "'left'"]
    );
    assert_eq!(option_args("regexpress", "a"), vec!["--regexp", "'a'"]);
    assert_eq!(option_args("key", "a"), none);
}

#[test]
fn clipboard_sequences_are_wrapped_for_tmux() {
    assert_eq!(copy_sequence("foobar"), "\x1bPtmux;\x1b\x1b]52;0;Zm9vYmFy\x07\x1b\\");
    assert_eq!(copy_sequence("a"), "\x1bPtmux;\x1b\x1b]52;0;YQ==\x07\x1b\\");
    assert_eq!(copy_sequence("\u{e9}"), "\x1bPtmux;\x1b\x1b]52;0;w6k=\x07\x1b\\");
    assert_eq!(copy_sequence("ab"), "\x1bPtmux;\x1b\x1b]52;0;YWI=\x07\x1b\\");
    assert_eq!(copy_sequence("~~~???>"), "\x1bPtmux;\x1b\x1b]52;0;fn5+Pz8/Pg==\x07\x1b\\");
    assert_eq!(copy_sequence(""), "\x1bPtmux;\x1b\x1b]52;0;\x07\x1b\\");
}

#[test]
fn encoded_texts_are_read_back() {
    let text: String = (0..200_u32).map(|n| char::from_u32(n * 37 + 1).unwrap()).collect();
    for n in 0..text.chars().count() {
        let part: String = text.chars().take(n).collect();
        let sequence = copy_sequence(&part);
        let encoded = sequence
            .strip_prefix("\x1bPtmux;\x1b\x1b]52;0;")
            .unwrap()
            .strip_suffix("\x07\x1b\\")
            .unwrap();
        assert_eq!(base64::decode(encoded).unwrap(), part.as_bytes());
    }
}

#[test]
fn doubled_escapes_can_be_halved() {
    let wrapped = clipboard_sequence("Zg==");
    let inner = wrapped
        .strip_prefix("\x1bPtmux;")
        .unwrap()
        .strip_suffix("\x1b\\")
        .unwrap();
    assert_eq!(inner.replace("\x1b\x1b", "\x1b"), "\x1b]52;0;Zg==\x07");
}

#[test]
fn the_first_active_line_is_taken() {
    assert_eq!(
        find_active_pane("%1:0:24:0:0:nope:80\n%2:1:30:5:1:active:81\n%3:0:24:0:0:active:80"),
        Ok(["%2", "1", "30", "5", "1", "active", "81"].map(|s| s.to_string()).to_vec())
    );
    assert_eq!(find_active_pane("%1:0:24:0:0:nope:80"), Err(SwapError::ActivePane));
    assert_eq!(find_active_pane(""), Err(SwapError::PaneRow));
    assert_eq!(
        find_active_pane("broken\n%2:1:30:5:1:active:81"),
        Err(SwapError::PaneRow)
    );
    assert!(find_active_pane("%2:1:30:5:1:active:81\nbroken").is_ok());
}

#[test]
fn cursor_reports_are_read() {
    assert_eq!(parse_cursor("3:4"), Some((3, 4)));
    assert_eq!(parse_cursor(" 3:-4:5\n"), Some((3, -4)));
    assert_eq!(parse_cursor("3"), None);
    assert_eq!(parse_cursor(""), None);
    assert_eq!(parse_cursor("3:"), None);
    assert_eq!(parse_cursor("3:4:x"), None);
}

#[test]
fn position_reports_default_to_zero() {
    assert_eq!(parse_position("2:1:13"), (1, 13));
    assert_eq!(parse_position(" 2:1:13\n"), (1, 13));
    assert_eq!(parse_position("2:x:13"), (0, 13));
    assert_eq!(parse_position("2:1"), (1, 0));
    assert_eq!(parse_position(""), (0, 0));
}

#[test]
fn jump_targets_are_read() {
    assert_eq!(find_jump_target("false:character:12:2:A"), Ok((12, 2)));
    assert_eq!(find_jump_target("false:character:-1:0:a:b\nfalse:x:5:6:B"), Ok((-1, 0)));
    assert_eq!(find_jump_target("false:character"), Err(SwapError::JumpColumn));
    assert_eq!(find_jump_target("false:character:x:2:A"), Err(SwapError::JumpColumn));
    assert_eq!(find_jump_target("false:character:1"), Err(SwapError::JumpRow));
    assert_eq!(find_jump_target("false:character:1:y:A"), Err(SwapError::JumpRow));
}

#[test]
fn choices_are_read() {
    match find_choice("true :url:0:1:https://example.com:80 ") {
        Choice::One(pick) => {
            assert!(pick.upcase);
            assert_eq!(pick.pattern, "url");
            assert_eq!(pick.text, "https://example.com:80 ");
        }
        _ => panic!("one hint expected"),
    }
    match find_choice("True:path:0:1:") {
        Choice::One(pick) => {
            assert!(!pick.upcase);
            assert_eq!(pick.text, "");
        }
        _ => panic!("one hint expected"),
    }
    match find_choice("false:path:0:1:a b\nfalse:path:0:2:c:d\nshort") {
        Choice::Many(text) => assert_eq!(text, "a b c:d short"),
        _ => panic!("several hints expected"),
    }
    assert!(matches!(find_choice("false:path:0:1"), Choice::Nothing));
    assert!(blank(" \n\t"));
    assert!(!blank(" \n:"));
}

#[test]
fn capture_files_are_named_after_the_pane() {
    assert_eq!(capture_file("%97"), "/tmp/tmux-thumbs-capture-97.txt");
    assert_eq!(lock_file("%97"), "/tmp/tmux-thumbs-capture-97.lock");
    assert_eq!(capture_file("%%1%"), "/tmp/tmux-thumbs-capture-1.txt");
    assert_eq!(debug_file(4242), "/tmp/tmux-thumbs-debug-4242.txt");
}

#[test]
fn capture_scripts_are_written_out() {
    assert_eq!(
        check_script("F"),
        "if [ -f F ] && [ $(( $(date +%s) - $(stat -f %m F 2>/dev/null || echo 0) )) -lt 300 ]; then echo 'recent'; else echo 'old'; fi"
    );
    assert_eq!(lock_script("L"), "mkdir L 2>/dev/null && echo 'locked' || echo 'exists'");
    assert_eq!(store_script("%1", "F"), "tmux capture-pane -p -e -t %1 > F");
    assert_eq!(
        wait_script("F"),
        "for i in {1..50}; do [ -f F ] && break; sleep 0.02; done"
    );
    assert_eq!(
        report_script("H", "F", "D"),
        "echo 'H' > D; wc -l F >> D; echo 'First icmp_seq:' >> D; grep -o 'icmp_seq=[0-9]*' F | head -1 >> D 2>&1 || echo 'none' >> D; echo 'Last icmp_seq:' >> D; grep -o 'icmp_seq=[0-9]*' F | tail -1 >> D 2>&1 || echo 'none' >> D"
    );
    assert_eq!(
        headline(CaptureUse::Written, 7, "F"),
        "NEW CAPTURE (was_in_mode=true, pid=7) to: F"
    );
    assert_eq!(headline(CaptureUse::Waited, 7, "F"), "WAITED for capture (pid=7) from: F");
    assert_eq!(headline(CaptureUse::Reused, 7, "F"), "REUSE CAPTURE (pid=7) from: F");
}

#[test]
fn commands_are_written_out() {
    assert_eq!(TMP_FILE, "/tmp/thumbs-last");
    assert_eq!(
        list_panes_args(),
        vec![
            "tmux",
            "list-panes",
            "-F",
            "#{pane_id}:#{?pane_in_mode,1,0}:#{pane_height}:#{scroll_position}:#{window_zoomed_flag}:#{?pane_active,active,nope}:#{pane_width}"
        ]
    );
    assert_eq!(copy_mode_args("%1"), vec!["tmux", "copy-mode", "-t", "%1"]);
    assert_eq!(
        display_args("%1", "#{history_size}"),
        vec!["tmux", "display-message", "-p", "-t", "%1", "#{history_size}"]
    );
    assert_eq!(script_args("true".to_string()), vec!["sh", "-c", "true"]);
    assert_eq!(show_options_args(), vec!["tmux", "show", "-g"]);
    assert_eq!(
        thumbs_window_args("run".to_string()),
        vec!["tmux", "new-window", "-P", "-F", "#{pane_id}", "-d", "-n", "[thumbs]", "run"]
    );
    assert_eq!(
        resize_window_args("%2", -1, 15),
        vec!["tmux", "resize-window", "-t", "%2", "-x", "-1", "-y", "15"]
    );
    assert_eq!(wait_args("done"), vec!["tmux", "wait-for", "done"]);
    assert_eq!(read_selection_args(), vec!["cat", "/tmp/thumbs-last"]);
    assert_eq!(delete_selection_args(), vec!["rm", "/tmp/thumbs-last"]);
    assert_eq!(
        selection_args("a;b", "echo {} {}"),
        vec!["bash", "-c", "THUMB=\"$1\"; eval \"$2\"", "--", "a;b", "echo ${THUMB} ${THUMB}"]
    );
}

#[test]
fn panes_without_a_name_are_left_out() {
    assert_eq!(
        swap_panes_args("%98", "%100"),
        vec!["tmux", "swap-pane", "-d", "-s", "%98", "-t", "%100"]
    );
    assert_eq!(swap_panes_args("", ""), vec!["tmux", "swap-pane", "-d", "-s", "-t"]);
    assert_eq!(zoom_args("%100"), vec!["tmux", "resize-pane", "-t", "%100", "-Z"]);
    assert_eq!(zoom_args(""), vec!["tmux", "resize-pane", "-t", "-Z"]);
}

#[test]
fn links_are_opened_on_macos_only() {
    assert_eq!(default_url_command(true), "tmux set-buffer -- \"{}\" && open \"{}\"");
    assert_eq!(default_url_command(false), "tmux set-buffer -- \"{}\"");
    assert_eq!(
        DEFAULT_COMMAND,
        "tmux set-buffer -- \"{}\" && tmux display-message \"Copied {}\""
    );
    assert_eq!(
        DEFAULT_UPCASE_COMMAND,
        "tmux set-buffer -- \"{}\" && tmux paste-buffer && tmux display-message \"Copied {}\""
    );
    assert_eq!(
        DEFAULT_MULTI_COMMAND,
        "tmux set-buffer -- \"{}\" && tmux paste-buffer && tmux display-message \"Multi copied {}\""
    );
}

#[test]
fn errors_have_messages() {
    let expected = [
        (SwapError::PaneRow, "Unable to read the pane listing"),
        (SwapError::ActivePane, "Unable to find active pane"),
        (SwapError::PaneHeight, "Unable to retrieve pane height"),
        (SwapError::PaneWidth, "Unable to retrieve pane width"),
        (SwapError::CopyCursor, "Unable to retrieve copy cursor position"),
        (SwapError::PaneScroll, "Unable to retrieve pane scroll"),
        (SwapError::HistorySize, "Unable to retrieve history size"),
        (SwapError::ScrollRange, "Pane scroll out of range"),
        (SwapError::JumpColumn, "Invalid jump column"),
        (SwapError::JumpRow, "Invalid jump row"),
        (SwapError::RowRange, "Jump row out of range"),
    ];
    for (error, message) in expected {
        assert_eq!(error.message(), message);
    }
}
