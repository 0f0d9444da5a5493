//! The capture file: a copy of what a pane in copy mode shows, shared by all
//! processes that work on that pane. A file that is recent is used again; else the
//! process that gets the lock writes it, and the others wait for it.

use crate::commands::{script_command, Command};
use crate::number::{decimal, unsigned_to_string};
use crate::text::{
    law_first_occurrence_is_replaced, law_nothing_else_is_replaced, replace, replaced, stands,
    trimmed, Text,
};
use vstd::prelude::*;
use vstd::string::*;

verus! {

/// The pane id as a part of a file name.
pub open spec fn pane_tag(pane: Text) -> Text {
    replaced(pane, "%"@, ""@)
}

fn tag_of(pane: &str) -> (tag: String)
    ensures
        tag@ == pane_tag(pane@),
{
    proof {
        reveal_strlit("%");
    }
    replace(pane, "%", "")
}

/// The capture file of a pane.
pub open spec fn capture_path(pane: Text) -> Text {
    "/tmp/tmux-thumbs-capture-"@ + pane_tag(pane) + ".txt"@
}

/// Builds the path of the capture file of a pane.
pub fn capture_file(pane: &str) -> (path: String)
    ensures
        path@ == capture_path(pane@),
{
    "/tmp/tmux-thumbs-capture-".to_owned().concat(tag_of(pane).as_str()).concat(".txt")
}

/// The lock of the capture file of a pane.
pub open spec fn lock_path(pane: Text) -> Text {
    "/tmp/tmux-thumbs-capture-"@ + pane_tag(pane) + ".lock"@
}

/// Builds the path of the lock of a pane.
pub fn lock_file(pane: &str) -> (path: String)
    ensures
        path@ == lock_path(pane@),
{
    "/tmp/tmux-thumbs-capture-".to_owned().concat(tag_of(pane).as_str()).concat(".lock")
}

/// The file in which a process notes what it did with the capture file.
pub open spec fn debug_path(process: u32) -> Text {
    "/tmp/tmux-thumbs-debug-"@ + decimal(process as int) + ".txt"@
}

/// Builds the path of the notes of a process.
pub fn debug_file(process: u32) -> (path: String)
    ensures
        path@ == debug_path(process),
{
    "/tmp/tmux-thumbs-debug-".to_owned().concat(unsigned_to_string(process as u64).as_str()).concat(
        ".txt",
    )
}

/// Prints `recent` if the file is there and was written within five minutes.
pub open spec fn check_text(file: Text) -> Text {
    "if [ -f "@ + file + " ] && [ $(( $(date +%s) - $(stat -f %m "@ + file
        + " 2>/dev/null || echo 0) )) -lt 300 ]; then echo 'recent'; else echo 'old'; fi"@
}

/// Builds the script that tells whether a file is recent.
pub fn check_script(file: &str) -> (script: String)
    ensures
        script@ == check_text(file@),
{
    "if [ -f ".to_owned().concat(file).concat(
        " ] && [ $(( $(date +%s) - $(stat -f %m ",
    ).concat(file).concat(
        " 2>/dev/null || echo 0) )) -lt 300 ]; then echo 'recent'; else echo 'old'; fi",
    )
}

/// Tries to take the lock, and prints `locked` if that succeeded.
pub open spec fn lock_text(lock: Text) -> Text {
    "mkdir "@ + lock + " 2>/dev/null && echo 'locked' || echo 'exists'"@
}

/// Builds the script that tries to take a lock.
pub fn lock_script(lock: &str) -> (script: String)
    ensures
        script@ == lock_text(lock@),
{
    "mkdir ".to_owned().concat(lock).concat(" 2>/dev/null && echo 'locked' || echo 'exists'")
}

/// Writes what the copy mode of the pane shows to the file.
pub open spec fn store_text(pane: Text, file: Text) -> Text {
    "tmux capture-pane -p -e -t "@ + pane + " > "@ + file
}

/// Builds the script that writes a capture file.
pub fn store_script(pane: &str, file: &str) -> (script: String)
    ensures
        script@ == store_text(pane@, file@),
{
    "tmux capture-pane -p -e -t ".to_owned().concat(pane).concat(" > ").concat(file)
}

/// Waits until the file is there, a second at most.
pub open spec fn wait_text(file: Text) -> Text {
    "for i in {1..50}; do [ -f "@ + file + " ] && break; sleep 0.02; done"@
}

/// Builds the script that waits for a file.
pub fn wait_script(file: &str) -> (script: String)
    ensures
        script@ == wait_text(file@),
{
    "for i in {1..50}; do [ -f ".to_owned().concat(file).concat(" ] && break; sleep 0.02; done")
}

/// Notes a headline and the size and the ends of the capture file.
pub open spec fn report_text(headline: Text, file: Text, debug: Text) -> Text {
    "echo '"@ + headline + "' > "@ + debug + "; wc -l "@ + file + " >> "@ + debug
        + "; echo 'First icmp_seq:' >> "@ + debug + "; grep -o 'icmp_seq=[0-9]*' "@ + file
        + " | head -1 >> "@ + debug + " 2>&1 || echo 'none' >> "@ + debug
        + "; echo 'Last icmp_seq:' >> "@ + debug + "; grep -o 'icmp_seq=[0-9]*' "@ + file
        + " | tail -1 >> "@ + debug + " 2>&1 || echo 'none' >> "@ + debug
}

/// Builds the script that notes what was done with a capture file.
pub fn report_script(headline: &str, file: &str, debug: &str) -> (script: String)
    ensures
        script@ == report_text(headline@, file@, debug@),
{
    "echo '".to_owned().concat(headline).concat("' > ").concat(debug).concat("; wc -l ").concat(
        file,
    ).concat(" >> ").concat(debug).concat("; echo 'First icmp_seq:' >> ").concat(debug).concat(
        "; grep -o 'icmp_seq=[0-9]*' ",
    ).concat(file).concat(" | head -1 >> ").concat(debug).concat(
        " 2>&1 || echo 'none' >> ",
    ).concat(debug).concat("; echo 'Last icmp_seq:' >> ").concat(debug).concat(
        "; grep -o 'icmp_seq=[0-9]*' ",
    ).concat(file).concat(" | tail -1 >> ").concat(debug).concat(
        " 2>&1 || echo 'none' >> ",
    ).concat(debug)
}

/// What was done with the capture file.
#[derive(Clone, Copy, Debug, PartialEq, Eq, Structural)]
pub enum CaptureUse {
    /// This process wrote it.
    Written,
    /// Another process was writing it.
    Waited,
    /// It was recent.
    Reused,
}

/// The headline of the note on a capture file.
pub open spec fn headline_text(usage: CaptureUse, process: u32, file: Text) -> Text {
    match usage {
        CaptureUse::Written => "NEW CAPTURE (was_in_mode=true, pid="@ + decimal(process as int)
            + ") to: "@ + file,
        CaptureUse::Waited => "WAITED for capture (pid="@ + decimal(process as int) + ") from: "@
            + file,
        CaptureUse::Reused => "REUSE CAPTURE (pid="@ + decimal(process as int) + ") from: "@ + file,
    }
}

/// Builds the headline of the note on a capture file.
pub fn headline(usage: CaptureUse, process: u32, file: &str) -> (text: String)
    ensures
        text@ == headline_text(usage, process, file@),
{
    let pid = unsigned_to_string(process as u64);
    match usage {
        CaptureUse::Written => "NEW CAPTURE (was_in_mode=true, pid=".to_owned().concat(
            pid.as_str(),
        ).concat(") to: ").concat(file),
        CaptureUse::Waited => "WAITED for capture (pid=".to_owned().concat(pid.as_str()).concat(
            ") from: ",
        ).concat(file),
        CaptureUse::Reused => "REUSE CAPTURE (pid=".to_owned().concat(pid.as_str()).concat(
            ") from: ",
        ).concat(file),
    }
}

/// The note on a capture file, as a command.
pub open spec fn report_command(usage: CaptureUse, process: u32, pane: Text) -> Command {
    script_command(
        report_text(
            headline_text(usage, process, capture_path(pane)),
            capture_path(pane),
            debug_path(process),
        ),
    )
}

/// The commands that provide the capture file of a pane, given the replies to them.
pub open spec fn provide_commands(pane: Text, process: u32, replies: Seq<Text>) -> Seq<Command> {
    let check = script_command(check_text(capture_path(pane)));
    let lock = script_command(lock_text(lock_path(pane)));
    if trimmed(replies[0]) == "recent"@ {
        seq![check, report_command(CaptureUse::Reused, process, pane)]
    } else if trimmed(replies[1]) == "locked"@ {
        seq![
            check,
            lock,
            script_command(store_text(pane, capture_path(pane))),
            report_command(CaptureUse::Written, process, pane),
        ]
    } else {
        seq![
            check,
            lock,
            script_command(wait_text(capture_path(pane))),
            report_command(CaptureUse::Waited, process, pane),
        ]
    }
}

/// The files of a pane are named after its id, which begins with a `%`: the capture file
/// and its lock have the rest of the id in their names, and differ in how they end.
pub proof fn law_files_are_named_after_the_pane(name: Text)
    requires
        !name.contains('%'),
    ensures
        capture_path(seq!['%'] + name) == "/tmp/tmux-thumbs-capture-"@ + name + ".txt"@,
        lock_path(seq!['%'] + name) == "/tmp/tmux-thumbs-capture-"@ + name + ".lock"@,
{
    reveal_strlit("%");
    reveal_strlit("");
    let none = Seq::<char>::empty();
    let pane = seq!['%'] + name;
    assert("%"@ =~= seq!['%']);
    assert(pane =~= none + "%"@ + name);
    law_first_occurrence_is_replaced(none, "%"@, name, ""@);
    assert forall|at: int| !stands(name, "%"@, at) by {
        if stands(name, "%"@, at) {
            assert(name.subrange(at, at + 1)[0] == name[at]);
            assert(name.contains(name[at]));
        }
    }
    law_nothing_else_is_replaced(name, "%"@, ""@);
    assert(none + ""@ + name =~= name);
}

/// The scripts work on the files that they are given: the file that is checked is the one
/// that is waited for and that is written from the pane, and the lock is made as a
/// directory.
pub proof fn law_scripts_work_on_their_files(pane: Text, file: Text, lock: Text)
    ensures
        check_text(file) == "if [ -f "@ + file + " ] && [ $(( $(date +%s) - $(stat -f %m "@ + file
            + " 2>/dev/null || echo 0) )) -lt 300 ]; then echo 'recent'; else echo 'old'; fi"@,
        lock_text(lock) == "mkdir "@ + lock + " 2>/dev/null && echo 'locked' || echo 'exists'"@,
        store_text(pane, file) == "tmux capture-pane -p -e -t "@ + pane + " > "@ + file,
        wait_text(file) == "for i in {1..50}; do [ -f "@ + file + " ] && break; sleep 0.02; done"@,
{
}

/// What provides the capture file depends on two replies. A recent file is used as it is.
/// Else the process tries to take the lock: with the lock it writes the file, without it
/// it waits for the file. In the end it notes what it did.
pub proof fn law_capture_file_is_provided(pane: Text, process: u32, r: Seq<Text>)
    ensures
        ({
            let file = capture_path(pane);
            let commands = provide_commands(pane, process, r);
            let note = |usage: CaptureUse|
                script_command(
                    report_text(headline_text(usage, process, file), file, debug_path(process)),
                );
            let check = script_command(check_text(file));
            let take = script_command(lock_text(lock_path(pane)));
            &&& trimmed(r[0]) == "recent"@ ==> commands == seq![check, note(CaptureUse::Reused)]
            &&& trimmed(r[0]) != "recent"@ && trimmed(r[1]) == "locked"@ ==> commands == seq![
                check,
                take,
                script_command(store_text(pane, file)),
                note(CaptureUse::Written),
            ]
            &&& trimmed(r[0]) != "recent"@ && trimmed(r[1]) != "locked"@ ==> commands == seq![
                check,
                take,
                script_command(wait_text(file)),
                note(CaptureUse::Waited),
            ]
        }),
        debug_path(process) == "/tmp/tmux-thumbs-debug-"@ + decimal(process as int) + ".txt"@,
{
}

/// The note on a capture file says what was done with it, by which process, and goes to the
/// notes of that process.
pub proof fn law_note_says_what_was_done(process: u32, file: Text, headline: Text, debug: Text)
    ensures
        headline_text(CaptureUse::Written, process, file) == "NEW CAPTURE (was_in_mode=true, pid="@
            + decimal(process as int) + ") to: "@ + file,
        headline_text(CaptureUse::Waited, process, file) == "WAITED for capture (pid="@ + decimal(
            process as int,
        ) + ") from: "@ + file,
        headline_text(CaptureUse::Reused, process, file) == "REUSE CAPTURE (pid="@ + decimal(
            process as int,
        ) + ") from: "@ + file,
        report_text(headline, file, debug) == "echo '"@ + headline + "' > "@ + debug
            + "; wc -l "@ + file + " >> "@ + debug + "; echo 'First icmp_seq:' >> "@ + debug
            + "; grep -o 'icmp_seq=[0-9]*' "@ + file + " | head -1 >> "@ + debug
            + " 2>&1 || echo 'none' >> "@ + debug + "; echo 'Last icmp_seq:' >> "@ + debug
            + "; grep -o 'icmp_seq=[0-9]*' "@ + file + " | tail -1 >> "@ + debug
            + " 2>&1 || echo 'none' >> "@ + debug,
{
}

} // verus!
