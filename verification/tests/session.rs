use tmux_thumbs::error::SwapError;
use tmux_thumbs::shell::{Executor, Process, RealShell};
use tmux_thumbs::swapper::Swapper;

/// Answers with the outputs that it is given, in order.
struct Script {
    outputs: Vec<&'static str>,
    executed: Vec<Vec<String>>,
}

fn script(outputs: Vec<&'static str>) -> Script {
    Script { outputs, executed: vec![] }
}

impl Executor for Script {
    fn execute(&mut self, args: Vec<String>) -> String {
        let output = self.outputs[self.executed.len()].to_string();
        self.executed.push(args);
        output
    }

    fn last_executed(&self) -> Option<Vec<String>> {
        self.executed.last().cloned()
    }
}

fn session<'a>(
    executor: &'a mut Script,
    jump: bool,
    character: Option<&str>,
    backward: bool,
    osc52: bool,
) -> Swapper<'a, Script> {
    Swapper::new(
        executor,
        "/opt/thumbs".to_string(),
        "copy {}".to_string(),
        "upcase {}".to_string(),
        "multi {}".to_string(),
        "url {}".to_string(),
        jump,
        character.map(|c| c.to_string()),
        backward,
        osc52,
        1_700_000_000,
        4242,
    )
}

fn words(list: &[&str]) -> Vec<String> {
    list.iter().map(|s| s.to_string()).collect()
}

const LIST_PANES: [&str; 4] = [
    "tmux",
    "list-panes",
    "-F",
    "#{pane_id}:#{?pane_in_mode,1,0}:#{pane_height}:#{scroll_position}:#{window_zoomed_flag}:#{?pane_active,active,nope}:#{pane_width}",
];

const CHECK: &str = "if [ -f /tmp/tmux-thumbs-capture-97.txt ] && [ $(( $(date +%s) - $(stat -f %m /tmp/tmux-thumbs-capture-97.txt 2>/dev/null || echo 0) )) -lt 300 ]; then echo 'recent'; else echo 'old'; fi";

const LOCK: &str =
    "mkdir /tmp/tmux-thumbs-capture-97.lock 2>/dev/null && echo 'locked' || echo 'exists'";

fn note(headline: &str) -> String {
    let f = "/tmp/tmux-thumbs-capture-97.txt";
    let d = "/tmp/tmux-thumbs-debug-4242.txt";
    format!(
        "echo '{headline}{f}' > {d}; wc -l {f} >> {d}; echo 'First icmp_seq:' >> {d}; grep -o 'icmp_seq=[0-9]*' {f} | head -1 >> {d} 2>&1 || echo 'none' >> {d}; echo 'Last icmp_seq:' >> {d}; grep -o 'icmp_seq=[0-9]*' {f} | tail -1 >> {d} 2>&1 || echo 'none' >> {d}"
    )
}

#[test]
fn signals_are_named_after_the_session() {
    let mut executor = script(vec![]);
    let swapper = session(&mut executor, false, None, false, false);
    assert_eq!(swapper.ready_signal, "thumbs-ready-1700000000-4242");
    assert_eq!(swapper.signal, "thumbs-finished-1700000000-4242");
    assert_ne!(swapper.ready_signal, swapper.signal);
    assert_eq!(swapper.active_pane_id, None);
    assert_eq!(swapper.content, None);
}

#[test]
fn a_pane_in_no_mode_is_only_listed() {
    let mut executor = script(vec!["%97:0:24::1:active:80"]);
    let mut swapper = session(&mut executor, false, None, false, false);
    swapper.capture_active_pane().unwrap();
    assert_eq!(swapper.active_pane_id, Some("%97".to_string()));
    assert!(!swapper.active_pane_in_mode);
    assert_eq!(swapper.active_pane_cursor, None);
    assert_eq!(swapper.active_pane_width, Some(80));
    assert_eq!(swapper.active_pane_height, Some(24));
    assert_eq!(swapper.active_pane_scroll_position, None);
    assert_eq!(swapper.active_pane_history_size, None);
    assert_eq!(swapper.active_pane_zoomed, Some(true));
    assert_eq!(swapper.active_pane_captured_content, None);
    assert_eq!(executor.executed, vec![words(&LIST_PANES)]);
}

#[test]
fn a_pane_without_a_width_has_width_zero() {
    let mut executor = script(vec!["%97:0:24::0:active"]);
    let mut swapper = session(&mut executor, false, None, false, false);
    swapper.capture_active_pane().unwrap();
    assert_eq!(swapper.active_pane_width, Some(0));
    assert_eq!(swapper.active_pane_zoomed, Some(false));
}

#[test]
fn a_pane_in_a_mode_is_asked_for_its_history() {
    let mut executor = script(vec!["%97:1:24:5:0:active:80", "1000"]);
    let mut swapper = session(&mut executor, false, None, false, false);
    swapper.capture_active_pane().unwrap();
    assert!(swapper.active_pane_in_mode);
    assert_eq!(swapper.active_pane_scroll_position, Some(5));
    assert_eq!(swapper.active_pane_history_size, Some(1000));
    assert_eq!(swapper.active_pane_captured_content, None);
    assert_eq!(
        executor.executed,
        vec![
            words(&LIST_PANES),
            words(&["tmux", "display-message", "-p", "-t", "%97", "#{history_size}"]),
        ]
    );
}

#[test]
fn a_jump_on_a_live_pane_runs_four_commands() {
    let mut executor = script(vec!["%97:0:24::0:active:80", "", "3:4", "0"]);
    let mut swapper = session(&mut executor, true, Some("a"), false, false);
    swapper.capture_active_pane().unwrap();
    assert_eq!(swapper.active_pane_captured_content, None);
    assert_eq!(swapper.active_pane_history_size, None);
    assert_eq!(
        executor.executed,
        vec![
            words(&LIST_PANES),
            words(&["tmux", "copy-mode", "-t", "%97"]),
            words(&[
                "tmux",
                "display-message",
                "-p",
                "-t",
                "%97",
                "#{copy_cursor_x}:#{copy_cursor_y}"
            ]),
            words(&["tmux", "display-message", "-p", "-t", "%97", "#{scroll_position}"]),
        ]
    );
}

#[test]
fn a_recent_capture_is_used_again() {
    let mut executor = script(vec!["%97:1:24:5:0:active:80", " recent ", "", "3:4", "9"]);
    let mut swapper = session(&mut executor, true, Some("a"), false, false);
    swapper.capture_active_pane().unwrap();
    assert_eq!(
        swapper.active_pane_captured_content,
        Some("/tmp/tmux-thumbs-capture-97.txt".to_string())
    );
    assert_eq!(swapper.active_pane_cursor, Some((3, 4)));
    assert_eq!(swapper.active_pane_scroll_position, Some(5));
    assert_eq!(swapper.active_pane_history_size, Some(9));
    assert_eq!(
        executor.executed,
        vec![
            words(&LIST_PANES),
            words(&["sh", "-c", CHECK]),
            words(&["sh", "-c", &note("REUSE CAPTURE (pid=4242) from: ")]),
            words(&[
                "tmux",
                "display-message",
                "-p",
                "-t",
                "%97",
                "#{copy_cursor_x}:#{copy_cursor_y}"
            ]),
            words(&["tmux", "display-message", "-p", "-t", "%97", "#{history_size}"]),
        ]
    );
}

#[test]
fn an_old_capture_is_written_under_the_lock() {
    let outputs = vec!["%97:1:24:5:0:active:80", "old", "locked", "", "", "3:4", "9"];
    let mut executor = script(outputs);
    let mut swapper = session(&mut executor, true, Some("a"), false, false);
    swapper.capture_active_pane().unwrap();
    assert_eq!(executor.executed.len(), 7);
    assert_eq!(executor.executed[1], words(&["sh", "-c", CHECK]));
    assert_eq!(executor.executed[2], words(&["sh", "-c", LOCK]));
    assert_eq!(
        executor.executed[3],
        words(&["sh", "-c", "tmux capture-pane -p -e -t %97 > /tmp/tmux-thumbs-capture-97.txt"])
    );
    assert_eq!(
        executor.executed[4],
        words(&["sh", "-c", &note("NEW CAPTURE (was_in_mode=true, pid=4242) to: ")])
    );
}

#[test]
fn a_locked_capture_is_waited_for() {
    let outputs = vec!["%97:1:24:5:0:active:80", "old", "exists", "", "", "3:4", "9"];
    let mut executor = script(outputs);
    let mut swapper = session(&mut executor, true, Some("a"), false, false);
    swapper.capture_active_pane().unwrap();
    assert_eq!(executor.executed[2], words(&["sh", "-c", LOCK]));
    assert_eq!(
        executor.executed[3],
        words(&[
            "sh",
            "-c",
            "for i in {1..50}; do [ -f /tmp/tmux-thumbs-capture-97.txt ] && break; sleep 0.02; done"
        ])
    );
    assert_eq!(
        executor.executed[4],
        words(&["sh", "-c", &note("WAITED for capture (pid=4242) from: ")])
    );
}

#[test]
fn what_cannot_be_read_is_an_error() {
    let cases: Vec<(Vec<&'static str>, bool, SwapError)> = vec![
        (vec!["%97:0"], false, SwapError::PaneRow),
        (vec!["%97:0:24::0:nope:80"], false, SwapError::ActivePane),
        (vec!["%97:0:x::0:active:80"], false, SwapError::PaneHeight),
        (vec!["%97:0:24::0:active:x"], false, SwapError::PaneWidth),
        (vec!["%97:1:24::0:active:80"], false, SwapError::PaneScroll),
        (vec!["%97:1:24:5:0:active:80", "x"], false, SwapError::HistorySize),
        (vec!["%97:0:24::0:active:80", "", "3"], true, SwapError::CopyCursor),
        (vec!["%97:0:24::0:active:80", "", "3:4", "x"], true, SwapError::PaneScroll),
        (vec!["%97:0:24::0:active:x", "", "3:4"], true, SwapError::PaneWidth),
    ];
    for (outputs, jump, error) in cases {
        let n = outputs.len();
        let mut executor = script(outputs);
        let mut swapper = session(&mut executor, jump, None, false, false);
        assert_eq!(swapper.capture_active_pane(), Err(error));
        assert_eq!(swapper.active_pane_id, None);
        assert_eq!(swapper.active_pane_height, None);
        assert_eq!(executor.executed.len(), n);
    }
}

fn window(executor: &Script) -> String {
    let command = executor.executed.last().unwrap();
    assert_eq!(
        command[..8],
        words(&["tmux", "new-window", "-P", "-F", "#{pane_id}", "-d", "-n", "[thumbs]"])
    );
    command[8].clone()
}

#[test]
fn thumbs_gets_the_content_of_the_pane() {
    let mut executor = script(vec!["@thumbs-alphabet qwerty\n@thumbs-reverse 1", "%100"]);
    let mut swapper = session(&mut executor, false, None, false, false);
    swapper.active_pane_id = Some("%97".to_string());
    swapper.active_pane_height = Some(24);
    swapper.active_pane_zoomed = Some(false);
    swapper.execute_thumbs().unwrap();
    assert_eq!(swapper.thumbs_pane_id, Some("%100".to_string()));
    assert_eq!(executor.executed.len(), 2);
    assert_eq!(executor.executed[0], words(&["tmux", "show", "-g"]));
    assert_eq!(
        window(&executor),
        "tmux capture-pane -J -p -t %97 | tail -n 24 | /opt/thumbs/target/release/thumbs --ready-signal thumbs-ready-1700000000-4242 -f '%U:%P:%X:%Y:%H' -t /tmp/thumbs-last --alphabet 'qwerty' --reverse; tmux swap-pane -t %97;  tmux wait-for -S thumbs-finished-1700000000-4242"
    );
}

#[test]
fn the_script_answers_the_waits() {
    for capture in [None, Some("/tmp/tmux-thumbs-capture-97.txt".to_string())] {
        let mut executor = script(vec!["@thumbs-alphabet qwerty", "%100", "%100"]);
        let mut swapper = session(&mut executor, true, Some("a"), true, false);
        swapper.active_pane_id = Some("%97".to_string());
        swapper.active_pane_cursor = Some((3, 4));
        swapper.active_pane_height = Some(24);
        swapper.active_pane_scroll_position = Some(5);
        swapper.active_pane_zoomed = Some(true);
        swapper.active_pane_captured_content = capture;
        swapper.execute_thumbs().unwrap();
        let ready = swapper.ready_signal.clone();
        let finished = swapper.signal.clone();
        let script = window(&executor);
        assert!(script.contains(&format!(" --ready-signal {} ", ready)));
        assert!(script.contains(&format!(" tmux wait-for -S {}", finished)));
        assert!(!script.contains(&format!("tmux wait-for -S {}", ready)));
        assert!(!script.contains(&format!("--ready-signal {}", finished)));
    }
}

#[test]
fn thumbs_is_told_of_a_jump() {
    let mut executor = script(vec!["", "%100"]);
    let mut swapper = session(&mut executor, true, Some("'"), true, false);
    swapper.active_pane_id = Some("%97".to_string());
    swapper.active_pane_cursor = Some((3, 4));
    swapper.active_pane_height = Some(24);
    swapper.active_pane_scroll_position = Some(5);
    swapper.active_pane_zoomed = Some(true);
    swapper.execute_thumbs().unwrap();
    assert_eq!(
        window(&executor),
        "tmux capture-pane -p -t %97 -S -5 -E 18 | tail -n 24 | /opt/thumbs/target/release/thumbs --ready-signal thumbs-ready-1700000000-4242 -f '%U:%P:%X:%Y:%H' -t /tmp/thumbs-last  --jump --character ''\\''' --backward --start-x 3 --start-y 4; tmux swap-pane -t %97; tmux resize-pane -t %97 -Z; tmux wait-for -S thumbs-finished-1700000000-4242"
    );
}

#[test]
fn a_jump_without_a_character_has_no_start() {
    let mut executor = script(vec!["", "%100"]);
    let mut swapper = session(&mut executor, true, None, false, false);
    swapper.active_pane_id = Some("%97".to_string());
    swapper.active_pane_zoomed = Some(false);
    swapper.execute_thumbs().unwrap();
    let script = window(&executor);
    assert!(script.contains(" | tail -n 2147483647 | "));
    assert!(script.contains(" -t /tmp/thumbs-last  --jump; tmux swap-pane"));
}

#[test]
fn a_jump_reads_the_capture_file() {
    let mut executor = script(vec!["", "", "%100"]);
    let mut swapper = session(&mut executor, true, None, false, false);
    swapper.active_pane_id = Some("%97".to_string());
    swapper.active_pane_height = Some(24);
    swapper.active_pane_zoomed = Some(false);
    swapper.active_pane_captured_content = Some("/tmp/tmux-thumbs-capture-97.txt".to_string());
    swapper.execute_thumbs().unwrap();
    assert_eq!(swapper.thumbs_pane_id, Some("%100".to_string()));
    assert_eq!(
        executor.executed[1],
        words(&[
            "sh",
            "-c",
            "echo 'Using pre-captured file: /tmp/tmux-thumbs-capture-97.txt' >> /tmp/tmux-thumbs-debug-4242.txt"
        ])
    );
    assert_eq!(
        window(&executor),
        "cat /tmp/tmux-thumbs-capture-97.txt | tail -n 24 | /opt/thumbs/target/release/thumbs --ready-signal thumbs-ready-1700000000-4242 -f '%U:%P:%X:%Y:%H' -t /tmp/thumbs-last  --jump; tmux swap-pane -t %97;  tmux wait-for -S thumbs-finished-1700000000-4242; rmdir /tmp/tmux-thumbs-capture-97.lock 2>/dev/null || true"
    );
}

#[test]
fn rows_out_of_range_are_an_error() {
    for (height, scroll) in [(24, i32::MIN), (i32::MIN, 0), (i32::MIN, 5), (i32::MAX, -1)] {
        let mut executor = script(vec![""]);
        let mut swapper = session(&mut executor, false, None, false, false);
        swapper.active_pane_id = Some("%97".to_string());
        swapper.active_pane_height = Some(height);
        swapper.active_pane_scroll_position = Some(scroll);
        swapper.active_pane_zoomed = Some(false);
        assert_eq!(swapper.execute_thumbs(), Err(SwapError::ScrollRange));
        assert_eq!(swapper.thumbs_pane_id, None);
    }
}

#[test]
fn only_a_zoomed_pane_is_zoomed_again() {
    let mut executor = script(vec![""]);
    let mut swapper = session(&mut executor, false, None, false, false);
    swapper.active_pane_zoomed = Some(false);
    swapper.resize_pane();
    swapper.active_pane_zoomed = Some(true);
    swapper.thumbs_pane_id = Some("%100".to_string());
    swapper.resize_pane();
    swapper.send_osc52();
    assert_eq!(
        executor.executed,
        vec![words(&["tmux", "resize-pane", "-t", "%100", "-Z"])]
    );
}

#[test]
fn selecting_shows_thumbs_when_it_is_ready() {
    let outputs = vec![
        "%97:0:24::1:active:80",
        "",
        "%100",
        "",
        "",
        "",
        "",
        "",
        "false:path:0:0:/tmp/x",
        "",
        "",
    ];
    let mut executor = script(outputs);
    let mut swapper = session(&mut executor, false, None, false, false);
    swapper.select().unwrap();
    assert_eq!(swapper.content, Some("false:path:0:0:/tmp/x".to_string()));
    swapper.execute_command().unwrap();
    assert_eq!(
        executor.executed[3..],
        vec![
            words(&["tmux", "resize-window", "-t", "%100", "-x", "80", "-y", "24"]),
            words(&["tmux", "wait-for", "thumbs-ready-1700000000-4242"]),
            words(&["tmux", "swap-pane", "-d", "-s", "%97", "-t", "%100"]),
            words(&["tmux", "resize-pane", "-t", "%100", "-Z"]),
            words(&["tmux", "wait-for", "thumbs-finished-1700000000-4242"]),
            words(&["cat", "/tmp/thumbs-last"]),
            words(&["rm", "/tmp/thumbs-last"]),
            words(&[
                "bash",
                "-c",
                "THUMB=\"$1\"; eval \"$2\"",
                "--",
                "/tmp/x",
                "copy ${THUMB}"
            ]),
        ]
    );
}

#[test]
fn selecting_ends_with_the_first_error() {
    let mut executor = script(vec!["nothing"]);
    let mut swapper = session(&mut executor, false, None, false, false);
    assert_eq!(swapper.select(), Err(SwapError::PaneRow));
    assert_eq!(executor.executed.len(), 1);

    let mut executor = script(vec!["%97:1:24:-2147483648:0:active:80", "0", ""]);
    let mut swapper = session(&mut executor, false, None, false, false);
    assert_eq!(swapper.select(), Err(SwapError::ScrollRange));
    assert_eq!(swapper.content, None);
    assert_eq!(executor.executed.len(), 3);
}

#[test]
fn the_clipboard_is_set_for_one_hint_if_asked_for() {
    let mut executor = script(vec![""]);
    let mut swapper = session(&mut executor, false, None, false, true);
    swapper.content = Some("true:path:0:0:foobar ".to_string());
    assert_eq!(
        swapper.pending_osc52(),
        Some("\x1bPtmux;\x1b\x1b]52;0;Zm9vYmFyIA==\x07\x1b\\".to_string())
    );
    swapper.execute_command().unwrap();
    assert_eq!(
        executor.last_executed().unwrap(),
        vec!["bash", "-c", "THUMB=\"$1\"; eval \"$2\"", "--", "foobar", "upcase ${THUMB}"]
    );
}

#[test]
fn else_the_clipboard_is_left_alone() {
    let mut executor = script(vec![]);
    let mut swapper = session(&mut executor, false, None, false, true);
    for content in ["", " \n", "a:b:c:d", "a:b:c:d:e\na:b:c:d:f"] {
        swapper.content = Some(content.to_string());
        assert_eq!(swapper.pending_osc52(), None);
    }
    swapper.content = Some("a:b:c:d:e".to_string());
    swapper.jump = true;
    assert_eq!(swapper.pending_osc52(), None);
    swapper.jump = false;
    swapper.osc52 = false;
    assert_eq!(swapper.pending_osc52(), None);
}

#[test]
fn a_line_that_lacks_fields_runs_nothing() {
    let mut executor = script(vec![]);
    let mut swapper = session(&mut executor, false, None, false, false);
    for content in ["", "  \n ", "false:path:0:0", "x"] {
        swapper.content = Some(content.to_string());
        swapper.execute_command().unwrap();
    }
    assert!(executor.executed.is_empty());
}

#[test]
fn jumps_that_cannot_be_read_are_errors() {
    let cases = [
        ("false:character", SwapError::JumpColumn),
        ("false:character:x:0:A", SwapError::JumpColumn),
        ("false:character:0:y:A", SwapError::JumpRow),
    ];
    for (content, error) in cases {
        let mut executor = script(vec![]);
        let mut swapper = session(&mut executor, true, None, false, false);
        swapper.active_pane_id = Some("%1".to_string());
        swapper.content = Some(content.to_string());
        assert_eq!(swapper.execute_command(), Err(error));
        assert!(executor.executed.is_empty());
    }
}

#[test]
fn jumps_follow_the_view() {
    // The captured row, the captured scroll position, what the copy mode says now, and
    // the move that leads to the same line.
    let cases: Vec<(i32, Option<i32>, &'static str, Option<(&str, &str)>)> = vec![
        (5, Some(3), "0:2:3", Some(("3", "cursor-down"))),
        (5, Some(3), "0:9:3", Some(("4", "cursor-up"))),
        (5, Some(3), "0:5:3", None),
        (5, Some(3), "0:5:10", Some(("7", "cursor-down"))),
        (5, None, "0:5:2", Some(("2", "cursor-down"))),
        (5, Some(5), "", None),
    ];
    for (y, scroll, report, moved) in cases {
        let mut executor = script(vec![report, "", ""]);
        let mut swapper = session(&mut executor, true, None, false, false);
        swapper.active_pane_id = Some("%1".to_string());
        swapper.active_pane_scroll_position = scroll;
        swapper.move_cursor_to(0, y).unwrap();
        let n = executor.executed.len();
        assert_eq!(
            executor.executed[n - 1],
            words(&["tmux", "send-keys", "-t", "%1", "-X", "start-of-line"])
        );
        match moved {
            Some((count, direction)) => {
                assert_eq!(n, 3);
                assert_eq!(
                    executor.executed[1],
                    words(&[
                        "bash",
                        "-c",
                        "tmux send-keys -t \"$1\" -X -N \"$2\" \"$3\" || for ((i=0; i<$2; i++)); do tmux send-keys -t \"$1\" -X \"$3\"; done",
                        "--",
                        "%1",
                        count,
                        direction
                    ])
                );
            }
            None => assert_eq!(n, 2),
        }
    }
}

#[test]
fn only_the_row_relative_to_the_captured_view_matters() {
    let mut all = vec![];
    for k in [0, 1, -4, 100] {
        let mut executor = script(vec!["0:2:13", "", "", ""]);
        let mut swapper = session(&mut executor, true, None, false, false);
        swapper.active_pane_id = Some("%1".to_string());
        swapper.active_pane_scroll_position = Some(10 + k);
        swapper.move_cursor_to(7, 5 + k).unwrap();
        all.push(executor.executed);
    }
    assert_eq!(all[0][1][5..], words(&["6", "cursor-down"]));
    assert!(all.iter().all(|executed| *executed == all[0]));
}

#[test]
fn only_the_place_of_the_first_hint_matters_for_a_jump() {
    let contents = [
        "false:character:7:5:A",
        "true:url:+7:05:https://example.com:80",
        "::7:5:\nfalse:path:1:1:x",
        "a:b:7:5",
    ];
    let mut all = vec![];
    for content in contents {
        for osc52 in [false, true] {
            let mut executor = script(vec!["0:2:0", "", "", ""]);
            let mut swapper = session(&mut executor, true, None, false, osc52);
            swapper.active_pane_id = Some("%1".to_string());
            swapper.command = content.to_string();
            swapper.content = Some(content.to_string());
            assert_eq!(swapper.pending_osc52(), None);
            swapper.execute_command().unwrap();
            all.push(executor.executed);
        }
    }
    assert_eq!(all[0].len(), 4);
    assert!(all.iter().all(|executed| *executed == all[0]));
    assert!(all[0].iter().flatten().all(|arg| arg != "THUMB=\"$1\"; eval \"$2\""));
}

#[test]
fn jumps_out_of_range_are_errors() {
    let cases: Vec<(i32, i32, &'static str)> = vec![
        (0, i32::MIN, "0:0:1"),
        (i32::MAX, 0, "0:0:1"),
        (i32::MAX, 0, "0:-1:0"),
        (i32::MIN, 0, "0:0:0"),
    ];
    for (y, scroll, report) in cases {
        let mut executor = script(vec![report]);
        let mut swapper = session(&mut executor, true, None, false, false);
        swapper.active_pane_id = Some("%1".to_string());
        swapper.active_pane_scroll_position = Some(scroll);
        assert_eq!(swapper.move_cursor_to(0, y), Err(SwapError::RowRange));
        assert_eq!(executor.executed.len(), 1);
    }
}

#[test]
fn url_patterns_are_known_by_name() {
    for name in ["url", "markdown_url", "url_custom"] {
        assert!(Swapper::<Script>::is_url_pattern(name));
    }
    for name in ["", "urls", "path", "URL"] {
        assert!(!Swapper::<Script>::is_url_pattern(name));
    }
}

/// Prints the same bytes whatever it runs.
struct Printer {
    bytes: Vec<u8>,
}

impl Process for Printer {
    fn output(&mut self, _args: &Vec<String>) -> Vec<u8> {
        self.bytes.clone()
    }
}

#[test]
fn a_session_runs_on_the_shell() {
    let mut shell = RealShell::new(Printer { bytes: b"%9:0:2:0:0:active:3 \xff\n".to_vec() });
    let mut swapper = Swapper::new(
        &mut shell,
        "/opt/thumbs".to_string(),
        "copy {}".to_string(),
        "".to_string(),
        "".to_string(),
        "".to_string(),
        false,
        None,
        false,
        false,
        1,
        2,
    );
    assert_eq!(swapper.capture_active_pane(), Err(SwapError::PaneWidth));
    swapper.retrieve_content();
    assert_eq!(swapper.content, Some("%9:0:2:0:0:active:3 \u{fffd}".to_string()));
    swapper.destroy_content();
    assert_eq!(shell.last_executed().unwrap(), vec!["rm", "/tmp/thumbs-last"]);
}
