use tmux_thumbs::shell::Executor;
use tmux_thumbs::swapper::Swapper;

struct TestShell {
    outputs: Vec<String>,
    executed: Vec<Vec<String>>,
}

impl TestShell {
    fn new(outputs: Vec<String>) -> TestShell {
        TestShell { executed: vec![], outputs }
    }
}

impl Executor for TestShell {
    fn execute(&mut self, args: Vec<String>) -> String {
        self.executed.push(args);
        self.outputs.pop().unwrap()
    }

    fn last_executed(&self) -> Option<Vec<String>> {
        self.executed.last().cloned()
    }
}

const STARTED: u64 = 1_700_000_000;
const PROCESS: u32 = 4242;

#[test]
fn retrieve_active_pane() {
    let last_command_outputs =
        vec!["%97:100:24:1:0:active\n%106:100:24:1:0:nope\n%107:100:24:1:0:nope\n".to_string()];
    let mut executor = TestShell::new(last_command_outputs);
    let mut swapper = Swapper::new(
        &mut executor,
        "".to_string(),
        "".to_string(),
        "".to_string(),
        "".to_string(),
        "".to_string(),
        false,
        None,
        false,
        false,
        STARTED,
        PROCESS,
    );

    swapper.capture_active_pane().unwrap();

    assert_eq!(swapper.active_pane_id.unwrap(), "%97");
}

#[test]
fn jump_mode_enters_copy_mode_from_a_live_pane() {
    let outputs = vec![
        "0".to_string(),
        "3:4".to_string(),
        "".to_string(),
        "%97:0:24::0:active\n".to_string(),
    ];
    let mut executor = TestShell::new(outputs);
    let mut swapper = Swapper::new(
        &mut executor,
        "".to_string(),
        "".to_string(),
        "".to_string(),
        "".to_string(),
        "".to_string(),
        true,
        Some("a".to_string()),
        false,
        false,
        STARTED,
        PROCESS,
    );

    swapper.capture_active_pane().unwrap();

    assert!(swapper.active_pane_in_mode);
    assert_eq!(swapper.active_pane_cursor, Some((3, 4)));
    assert_eq!(swapper.active_pane_scroll_position, Some(0));
}

#[test]
fn swap_panes() {
    let last_command_outputs = vec![
        "".to_string(),
        "%100".to_string(),
        "".to_string(),
        "%106:100:24:1:0:nope\n%98:100:24:1:0:active\n%107:100:24:1:0:nope\n".to_string(),
    ];
    let mut executor = TestShell::new(last_command_outputs);
    let mut swapper = Swapper::new(
        &mut executor,
        "".to_string(),
        "".to_string(),
        "".to_string(),
        "".to_string(),
        "".to_string(),
        false,
        None,
        false,
        false,
        STARTED,
        PROCESS,
    );

    swapper.capture_active_pane().unwrap();
    swapper.execute_thumbs().unwrap();
    swapper.swap_panes();

    let expectation = vec!["tmux", "swap-pane", "-d", "-s", "%98", "-t", "%100"];

    assert_eq!(executor.last_executed().unwrap(), expectation);
}

#[test]
fn resize_thumbs_window_matches_source_pane_geometry() {
    let mut executor = TestShell::new(vec!["".to_string()]);
    let mut swapper = Swapper::new(
        &mut executor,
        "".to_string(),
        "".to_string(),
        "".to_string(),
        "".to_string(),
        "".to_string(),
        true,
        Some("A".to_string()),
        false,
        false,
        STARTED,
        PROCESS,
    );
    swapper.thumbs_pane_id = Some("%2".to_string());
    swapper.active_pane_width = Some(80);
    swapper.active_pane_height = Some(15);

    swapper.resize_thumbs_window();

    assert_eq!(
        executor.last_executed().unwrap(),
        vec!["tmux", "resize-window", "-t", "%2", "-x", "80", "-y", "15"]
    );
}

#[test]
fn jump_capture_preserves_wrapped_screen_rows() {
    let mut executor = TestShell::new(vec!["%100".to_string(), "".to_string()]);
    let mut swapper = Swapper::new(
        &mut executor,
        "/tmp/thumbs".to_string(),
        "".to_string(),
        "".to_string(),
        "".to_string(),
        "".to_string(),
        true,
        Some("A".to_string()),
        false,
        false,
        STARTED,
        PROCESS,
    );
    swapper.active_pane_id = Some("%1".to_string());
    swapper.active_pane_cursor = Some((0, 0));
    swapper.active_pane_height = Some(5);
    swapper.active_pane_zoomed = Some(false);

    swapper.execute_thumbs().unwrap();

    let command = executor.executed.get(1).unwrap().get(8).unwrap();
    assert!(command.contains("capture-pane -p"));
    assert!(!command.contains("capture-pane -J"));
}

#[test]
fn quoted_execution() {
    let last_command_outputs = vec!["Blah blah blah, the ignored user script output".to_string()];
    let mut executor = TestShell::new(last_command_outputs);

    let user_command = "echo \"{}\"".to_string();
    let upcase_command = "open \"{}\"".to_string();
    let multi_command = "open \"{}\"".to_string();
    let url_command = "open \"{}\"".to_string();
    let mut swapper = Swapper::new(
        &mut executor,
        "".to_string(),
        user_command,
        upcase_command,
        multi_command,
        url_command,
        false,
        None,
        false,
        false,
        STARTED,
        PROCESS,
    );

    swapper.content = Some(format!(
        "{do_upcase}:path:0:0:{thumb_text}",
        do_upcase = false,
        thumb_text = "foobar;rm *",
    ));
    swapper.execute_command().unwrap();

    let expectation = vec![
        "bash",
        // The actual shell command:
        "-c",
        "THUMB=\"$1\"; eval \"$2\"",
        // $0: The non-existent program name.
        "--",
        // $1: The value assigned to THUMB above.
        //     Not interpreted as a shell expression!
        "foobar;rm *",
        // $2: The user script, with {} replaced with ${THUMB},
        //     and will be eval'd with THUMB in scope.
        "echo \"${THUMB}\"",
    ];

    assert_eq!(executor.last_executed().unwrap(), expectation);
}

#[test]
fn uppercase_url_uses_url_command() {
    assert_eq!(
        Swapper::<TestShell>::command_for_selection(true, "url", "copy", "upcase", "copy-and-open"),
        "copy-and-open"
    );
    assert_eq!(
        Swapper::<TestShell>::command_for_selection(
            true,
            "markdown_url",
            "copy",
            "upcase",
            "copy-and-open"
        ),
        "copy-and-open"
    );
    assert_eq!(
        Swapper::<TestShell>::command_for_selection(
            true,
            "url_custom",
            "copy",
            "upcase",
            "copy-and-open"
        ),
        "copy-and-open"
    );
}

#[test]
fn uppercase_url_copies_and_opens_with_quoted_value() {
    let mut executor = TestShell::new(vec!["".to_string()]);
    let mut swapper = Swapper::new(
        &mut executor,
        "".to_string(),
        "copy \"{}\"".to_string(),
        "upcase \"{}\"".to_string(),
        "multi \"{}\"".to_string(),
        "tmux set-buffer -- \"{}\" && open \"{}\"".to_string(),
        false,
        None,
        false,
        false,
        STARTED,
        PROCESS,
    );

    swapper.content = Some("true:url:0:0:https://example.com/a;not-a-command".to_string());
    swapper.execute_command().unwrap();

    let expectation = vec![
        "bash",
        "-c",
        "THUMB=\"$1\"; eval \"$2\"",
        "--",
        "https://example.com/a;not-a-command",
        "tmux set-buffer -- \"${THUMB}\" && open \"${THUMB}\"",
    ];

    assert_eq!(executor.last_executed().unwrap(), expectation);
}

#[test]
fn non_url_selection_preserves_copy_commands() {
    assert_eq!(
        Swapper::<TestShell>::command_for_selection(false, "url", "copy", "upcase", "copy-and-open"),
        "copy"
    );
    assert_eq!(
        Swapper::<TestShell>::command_for_selection(true, "path", "copy", "upcase", "copy-and-open"),
        "upcase"
    );
}

#[test]
fn cursor_delta_selects_direction_and_count() {
    assert_eq!(
        Swapper::<TestShell>::cursor_delta(2, 5, "cursor-down", "cursor-up"),
        Some(("cursor-down", 3))
    );
    assert_eq!(
        Swapper::<TestShell>::cursor_delta(5, 2, "cursor-right", "cursor-left"),
        Some(("cursor-left", 3))
    );
    assert_eq!(Swapper::<TestShell>::cursor_delta(4, 4, "positive", "negative"), None);
}

#[test]
fn jump_selection_starts_the_line_then_moves_logical_columns() {
    let mut executor = TestShell::new(vec![
        "".to_string(),
        "".to_string(),
        "".to_string(),
        "0:0:0".to_string(),
    ]);
    let mut swapper = Swapper::new(
        &mut executor,
        "".to_string(),
        "copy {}".to_string(),
        "upcase {}".to_string(),
        "multi {}".to_string(),
        "url {}".to_string(),
        true,
        Some("x".to_string()),
        false,
        false,
        STARTED,
        PROCESS,
    );
    swapper.active_pane_id = Some("%1".to_string());
    swapper.active_pane_cursor = Some((0, 0));
    swapper.active_pane_scroll_position = Some(0);
    swapper.content = Some("false:character:12:2:A".to_string());

    swapper.execute_command().unwrap();

    assert_eq!(executor.executed.len(), 4);
    assert_eq!(
        executor.executed.get(0).unwrap().get(5).unwrap(),
        "#{copy_cursor_x}:#{copy_cursor_y}:#{scroll_position}"
    );
    assert_eq!(executor.executed.get(1).unwrap().get(5).unwrap(), "2");
    assert_eq!(executor.executed.get(1).unwrap().get(6).unwrap(), "cursor-down");
    assert_eq!(
        executor.executed.get(2).unwrap(),
        &vec!["tmux", "send-keys", "-t", "%1", "-X", "start-of-line"]
    );
    assert_eq!(executor.executed.get(3).unwrap().get(5).unwrap(), "12");
    assert_eq!(executor.executed.get(3).unwrap().get(6).unwrap(), "cursor-right");
}

#[test]
fn jump_movement_reanchors_after_pane_resize() {
    let mut executor =
        TestShell::new(vec!["".to_string(), "".to_string(), "2:1:0".to_string()]);
    let mut swapper = Swapper::new(
        &mut executor,
        "".to_string(),
        "".to_string(),
        "".to_string(),
        "".to_string(),
        "".to_string(),
        true,
        Some("A".to_string()),
        false,
        false,
        STARTED,
        PROCESS,
    );
    swapper.active_pane_id = Some("%1".to_string());
    swapper.active_pane_cursor = Some((2, 14));
    swapper.active_pane_scroll_position = Some(13);
    swapper.content = Some("false:character:12:14:A".to_string());

    swapper.execute_command().unwrap();

    assert_eq!(executor.executed.len(), 3);
    assert_eq!(
        executor.executed.get(0).unwrap().get(5).unwrap(),
        "#{copy_cursor_x}:#{copy_cursor_y}:#{scroll_position}"
    );
    assert_eq!(executor.executed.get(1).unwrap().get(5).unwrap(), "start-of-line");
    assert_eq!(executor.executed.get(2).unwrap().get(5).unwrap(), "12");
}

#[test]
fn empty_jump_selection_does_not_panic_during_cleanup() {
    let mut executor = TestShell::new(vec![]);
    let mut swapper = Swapper::new(
        &mut executor,
        "".to_string(),
        "".to_string(),
        "".to_string(),
        "".to_string(),
        "".to_string(),
        true,
        Some("A".to_string()),
        false,
        false,
        STARTED,
        PROCESS,
    );
    swapper.content = Some("".to_string());

    swapper.execute_command().unwrap();

    assert!(executor.executed.is_empty());
}

#[test]
fn multi_selection_uses_multi_command() {
    let mut executor = TestShell::new(vec!["".to_string()]);
    let mut swapper = Swapper::new(
        &mut executor,
        "".to_string(),
        "copy {}".to_string(),
        "upcase {}".to_string(),
        "multi {}".to_string(),
        "copy-and-open {}".to_string(),
        false,
        None,
        false,
        false,
        STARTED,
        PROCESS,
    );

    swapper.content = Some(
        "false:url:0:0:https://example.com\nfalse:path:0:0:/tmp/example".to_string(),
    );
    swapper.execute_command().unwrap();

    let expectation = vec![
        "bash",
        "-c",
        "THUMB=\"$1\"; eval \"$2\"",
        "--",
        "https://example.com /tmp/example",
        "multi ${THUMB}",
    ];

    assert_eq!(executor.last_executed().unwrap(), expectation);
}
