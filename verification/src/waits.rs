//! The waits of a session and the script that answers them: thumbs is handed the signal
//! that is waited for first, and the script sends the other one at its end.

use crate::capture::lock_path;
use crate::commands::{thumbs_window_command, TMP_FILE};
use crate::number::{decimal, decimal_digits, is_digit, lemma_decimal_digits};
use crate::options::listing_texts;
use crate::quote::shell_quoted;
use crate::shell::{ran, replies};
use crate::state::{
    jump_text, pane_script, scroll_text, tail_height, thumbs_plan, thumbs_started, thumbs_text,
    uses_capture, zoom_text, SwapperState,
};
use crate::swapper::signal_text;
use crate::text::{joined, Text};
use vstd::prelude::*;

verus! {

/// A part of a text.
pub open spec fn holds(text: Text, part: Text) -> bool {
    exists|a: Text, b: Text| text == #[trigger] (a + part + b)
}

/// How the script of thumbs is handed the signal to send when thumbs is ready.
pub open spec fn ready_part(s: SwapperState) -> Text {
    "/target/release/thumbs --ready-signal "@ + s.ready_signal + " -f '%U:%P:%X:%Y:%H' -t "@
}

/// How the script of thumbs sends the signal that thumbs is finished.
pub open spec fn finished_part(s: SwapperState) -> Text {
    " tmux wait-for -S "@ + s.signal
}

proof fn lemma_holds_more(text: Text, more: Text, part: Text)
    requires
        holds(text, part),
    ensures
        holds(text + more, part),
        holds(more + text, part),
{
    let (a, b) = choose|a: Text, b: Text| text == #[trigger] (a + part + b);
    assert(text + more =~= a + part + (b + more));
    assert(more + text =~= (more + a) + part + b);
}

proof fn lemma_holds_end(text: Text, part: Text)
    ensures
        holds(text + part, part),
{
    assert(text + part =~= text + part + Seq::<char>::empty());
}

/// What stands before the part that hands thumbs the ready signal.
spec fn before_thumbs(s: SwapperState) -> Text {
    " | tail -n "@ + decimal(tail_height(s)) + " | "@ + s.dir
}

proof fn lemma_ready_is_held(s: SwapperState, args: Seq<Text>)
    ensures
        holds(thumbs_text(s, args), ready_part(s)),
{
    let part = ready_part(s);
    let x = before_thumbs(s);
    let x1 = x + "/target/release/thumbs --ready-signal "@ + s.ready_signal
        + " -f '%U:%P:%X:%Y:%H' -t "@;
    assert(x1 =~= x + part);
    lemma_holds_end(x, part);
    let x2 = x1 + TMP_FILE@;
    lemma_holds_more(x1, TMP_FILE@, part);
    let x3 = x2 + " "@;
    lemma_holds_more(x2, " "@, part);
    let x4 = x3 + joined(args, " "@);
    lemma_holds_more(x3, joined(args, " "@), part);
    let x5 = x4 + jump_text(s);
    lemma_holds_more(x4, jump_text(s), part);
    let x6 = x5 + "; tmux swap-pane -t "@;
    lemma_holds_more(x5, "; tmux swap-pane -t "@, part);
    let x7 = x6 + s.active_pane_id->0;
    lemma_holds_more(x6, s.active_pane_id->0, part);
    let x8 = x7 + "; "@;
    lemma_holds_more(x7, "; "@, part);
    let x9 = x8 + zoom_text(s);
    lemma_holds_more(x8, zoom_text(s), part);
    let x10 = x9 + " tmux wait-for -S "@;
    lemma_holds_more(x9, " tmux wait-for -S "@, part);
    lemma_holds_more(x10, s.signal, part);
}

proof fn lemma_finished_is_held(s: SwapperState, args: Seq<Text>)
    ensures
        holds(thumbs_text(s, args), finished_part(s)),
{
    let x = before_thumbs(s) + "/target/release/thumbs --ready-signal "@ + s.ready_signal
        + " -f '%U:%P:%X:%Y:%H' -t "@ + TMP_FILE@ + " "@ + joined(args, " "@) + jump_text(s)
        + "; tmux swap-pane -t "@ + s.active_pane_id->0 + "; "@ + zoom_text(s);
    lemma_holds_end(x, finished_part(s));
    lemma_regroup(x, " tmux wait-for -S "@, s.signal);
}

pub proof fn lemma_regroup(x: Text, y: Text, z: Text)
    ensures
        x + y + z == x + (y + z),
{
    assert(x + y + z =~= x + (y + z));
}

pub proof fn lemma_script_holds(s: SwapperState, args: Seq<Text>, part: Text)
    requires
        holds(thumbs_text(s, args), part),
    ensures
        holds(pane_script(s, args), part),
{
    let thumbs = thumbs_text(s, args);
    if uses_capture(s) {
        let start = "cat "@ + s.active_pane_captured_content->0;
        lemma_holds_more(thumbs, start, part);
        let x1 = start + thumbs + "; rmdir "@;
        lemma_holds_more(start + thumbs, "; rmdir "@, part);
        let x2 = x1 + lock_path(s.active_pane_id->0);
        lemma_holds_more(x1, lock_path(s.active_pane_id->0), part);
        lemma_holds_more(x2, " 2>/dev/null || true"@, part);
    } else {
        let start = "tmux capture-pane "@ + (if s.jump {
            "-p"@
        } else {
            "-J -p"@
        }) + " -t "@ + s.active_pane_id->0 + scroll_text(
            s.active_pane_height,
            s.active_pane_scroll_position,
        );
        lemma_holds_more(thumbs, start, part);
    }
}

/// The script hands thumbs the ready signal, and sends the finished signal.
pub proof fn law_script_answers_the_waits(s: SwapperState, args: Seq<Text>)
    ensures
        holds(pane_script(s, args), ready_part(s)),
        holds(pane_script(s, args), finished_part(s)),
{
    lemma_ready_is_held(s, args);
    lemma_script_holds(s, args, ready_part(s));
    lemma_finished_is_held(s, args);
    lemma_script_holds(s, args, finished_part(s));
}

/// Where thumbs was started, the last command that was run opens its window, with a
/// script that is handed the signal that `wait_ready` waits for now, and that sends the
/// one that `wait_thumbs` waits for.
pub proof fn law_started_thumbs_answers_the_waits(before: SwapperState, after: SwapperState)
    requires
        thumbs_started(before, after, Ok(())),
    ensures
        after.ready_signal == before.ready_signal,
        after.signal == before.signal,
        exists|script: Text|
            {
                let commands = thumbs_plan(before, replies(before.log, after.log)).commands;
                &&& ran(before.log, after.log, commands)
                &&& commands.last() == #[trigger] thumbs_window_command(script)
                &&& holds(script, ready_part(after))
                &&& holds(script, finished_part(after))
            },
{
    let r = replies(before.log, after.log);
    let script = pane_script(before, listing_texts(r[0]));
    law_script_answers_the_waits(before, listing_texts(r[0]));
    assert(thumbs_plan(before, r).commands.last() == thumbs_window_command(script));
}

/// What sends the ready signal.
pub open spec fn sends_ready(s: SwapperState) -> Text {
    "tmux wait-for -S "@ + s.ready_signal
}

/// What hands thumbs the finished signal in the place of the ready signal.
pub open spec fn hands_finished(s: SwapperState) -> Text {
    "--ready-signal "@ + s.signal
}

/// A text that the session was given, and that its script takes over, holds a part.
pub open spec fn given(s: SwapperState, args: Seq<Text>, part: Text) -> bool {
    ||| holds(s.dir, part)
    ||| holds(s.active_pane_id->0, part)
    ||| holds(joined(args, " "@), part)
    ||| s.jump && s.character is Some && holds(shell_quoted(s.character->0), part)
    ||| uses_capture(s) && holds(s.active_pane_captured_content->0, part)
    ||| uses_capture(s) && holds(lock_path(s.active_pane_id->0), part)
}

/// If `w` stood at `p`, which may be before the start of `s`, its character at `j` would
/// fall on another character of `s`.
spec fn clashes(s: Text, p: int, w: Text, j: int) -> bool {
    0 <= j < w.len() && 0 <= p + j < s.len() && s[p + j] != w[j]
}

/// `w` cannot stand at `p`, whatever comes before and after `s`.
spec fn bars(s: Text, p: int, w: Text) -> bool {
    exists|j: int| clashes(s, p, w, j)
}

/// `w` does not start in `s`, whatever comes after `s`.
spec fn starts_nowhere(s: Text, w: Text) -> bool {
    forall|p: int| 0 <= p < s.len() ==> #[trigger] bars(s, p, w)
}

/// `w` does not reach into `s` from before it, whatever comes before and after `s`.
spec fn reaches_not(s: Text, w: Text) -> bool {
    forall|p: int| -w.len() < p < 0 ==> #[trigger] bars(s, p, w)
}

/// `w` stands in `s` from `p` on.
spec fn stands_at(s: Text, w: Text, p: int) -> bool {
    0 <= p && p + w.len() <= s.len() && s.subrange(p, p + w.len()) == w
}

proof fn lemma_stands(s: Text, w: Text, p: int)
    requires
        stands_at(s, w, p),
    ensures
        holds(s, w),
        forall|i: int| 0 <= i < w.len() ==> s[p + i] == #[trigger] w[i],
{
    assert(s =~= s.take(p) + w + s.skip(p + w.len()));
    assert forall|i: int| 0 <= i < w.len() implies s[p + i] == #[trigger] w[i] by {
        assert(s.subrange(p, p + w.len())[i] == s[p + i]);
    }
}

proof fn lemma_place(s: Text, w: Text) -> (p: int)
    requires
        holds(s, w),
    ensures
        stands_at(s, w, p),
{
    let (a, b) = choose|a: Text, b: Text| s == #[trigger] (a + w + b);
    assert(s.subrange(a.len() as int, (a.len() + w.len()) as int) =~= w);
    a.len() as int
}

/// If `w` stands in `x` and what follows, it stands in what follows, or `excused`.
#[verifier::opaque]
spec fn passes(x: Text, w: Text, excused: bool) -> bool {
    forall|g: Text| #[trigger] holds(x + g, w) ==> excused || holds(g, w)
}

/// If `w` stands in `x` with what is around it, it stands before or behind `x`, or
/// `excused`.
#[verifier::opaque]
spec fn parts(x: Text, w: Text, excused: bool) -> bool {
    forall|f: Text, g: Text| #[trigger]
        holds(f + x + g, w) ==> excused || holds(f, w) || holds(g, w)
}

proof fn lemma_passes(x: Text, w: Text, excused: bool)
    requires
        starts_nowhere(x, w),
    ensures
        passes(x, w, excused),
{
    reveal(passes);
    assert forall|g: Text| #[trigger] holds(x + g, w) implies excused || holds(g, w) by {
        let p = lemma_place(x + g, w);
        lemma_stands(x + g, w, p);
        if p < x.len() {
            assert(bars(x, p, w));
            let j = choose|j: int| clashes(x, p, w, j);
            assert((x + g)[p + j] == w[j]);
        } else {
            assert(g.subrange(p - x.len(), p - x.len() + w.len()) =~= w) by {
                assert forall|i: int| 0 <= i < w.len() implies g[p - x.len() + i] == w[i] by {
                    assert((x + g)[p + i] == w[i]);
                }
            }
            lemma_stands(g, w, p - x.len());
        }
    }
}

proof fn lemma_parts(x: Text, w: Text, excused: bool)
    requires
        starts_nowhere(x, w),
        reaches_not(x, w),
    ensures
        parts(x, w, excused),
{
    reveal(parts);
    assert forall|f: Text, g: Text| #[trigger] holds(f + x + g, w) implies excused || holds(f, w)
        || holds(g, w) by {
        let all = f + x + g;
        let p = lemma_place(all, w);
        lemma_stands(all, w, p);
        let n = f.len() as int;
        if p + w.len() <= n {
            assert(f.subrange(p, p + w.len()) =~= w) by {
                assert forall|i: int| 0 <= i < w.len() implies f[p + i] == w[i] by {
                    assert(all[p + i] == w[i]);
                }
            }
            lemma_stands(f, w, p);
        } else if p < n + x.len() {
            let q = p - n;
            assert(bars(x, q, w));
            let j = choose|j: int| clashes(x, q, w, j);
            assert(all[p + j] == w[j]);
        } else {
            let q = p - n - x.len();
            assert(g.subrange(q, q + w.len()) =~= w) by {
                assert forall|i: int| 0 <= i < w.len() implies g[q + i] == w[i] by {
                    assert(all[p + i] == w[i]);
                }
            }
            lemma_stands(g, w, q);
        }
    }
}

proof fn lemma_passes_both(x: Text, y: Text, w: Text, excused: bool)
    requires
        passes(x, w, excused),
        passes(y, w, excused),
    ensures
        passes(x + y, w, excused),
{
    reveal(passes);
    assert forall|g: Text| #[trigger] holds(x + y + g, w) implies excused || holds(g, w) by {
        assert(x + y + g =~= x + (y + g));
    }
}

proof fn lemma_parts_both(x: Text, y: Text, w: Text, excused: bool)
    requires
        parts(x, w, excused),
        passes(y, w, excused),
    ensures
        parts(x + y, w, excused),
{
    reveal(passes);
    reveal(parts);
    assert forall|f: Text, g: Text| #[trigger]
        holds(f + (x + y) + g, w) implies excused || holds(f, w) || holds(g, w) by {
        assert(f + (x + y) + g =~= f + x + (y + g));
    }
}

proof fn lemma_passes_over(x: Text, h: Text, y: Text, w: Text, excused: bool)
    requires
        passes(x, w, excused),
        holds(h, w) ==> excused,
        parts(y, w, excused),
    ensures
        passes(x + h + y, w, excused),
{
    reveal(passes);
    reveal(parts);
    assert forall|g: Text| #[trigger] holds(x + h + y + g, w) implies excused || holds(g, w) by {
        assert(x + h + y + g =~= x + (h + y + g));
    }
}

proof fn lemma_parts_over(x: Text, h: Text, y: Text, w: Text, excused: bool)
    requires
        parts(x, w, excused),
        holds(h, w) ==> excused,
        parts(y, w, excused),
    ensures
        parts(x + h + y, w, excused),
{
    reveal(parts);
    assert forall|f: Text, g: Text| #[trigger]
        holds(f + (x + h + y) + g, w) implies excused || holds(f, w) || holds(g, w) by {
        assert(f + (x + h + y) + g =~= f + x + (h + y + g));
    }
}

proof fn lemma_parts_passes(x: Text, w: Text, excused: bool)
    requires
        parts(x, w, excused),
        w.len() > 0,
    ensures
        passes(x, w, excused),
{
    reveal(passes);
    reveal(parts);
    let none = Seq::<char>::empty();
    assert forall|g: Text| #[trigger] holds(x + g, w) implies excused || holds(g, w) by {
        assert(x + g =~= none + x + g);
        lemma_holds_nothing(w);
    }
}

proof fn lemma_holds_nothing(w: Text)
    requires
        w.len() > 0,
    ensures
        !holds(Seq::<char>::empty(), w),
{
    if holds(Seq::<char>::empty(), w) {
        let p = lemma_place(Seq::<char>::empty(), w);
    }
}

/// What sends the ready signal begins like this.
spec fn like_send(w: Text) -> bool {
    &&& w.len() > 24
    &&& w[0] == 't' && w[1] == 'm' && w[2] == 'u' && w[5] == 'w'
    &&& w[14] == '-' && w[15] == 'S' && w[17] == 't' && w[24] == 'r'
    &&& forall|i: int|
        0 <= i < w.len() ==> (#[trigger] w[i] == ' ' ==> i == 4 || i == 13 || i == 16) && w[i]
            != ';' && w[i] != '|' && w[i] != '/'
}

/// What hands thumbs the finished signal begins like this.
spec fn like_hand(w: Text) -> bool {
    &&& w.len() > 22
    &&& w[0] == '-' && w[1] == '-' && w[2] == 'r' && w[15] == 't' && w[22] == 'f'
    &&& forall|i: int|
        0 <= i < w.len() ==> (#[trigger] w[i] == ' ' ==> i == 14) && w[i] != ';' && w[i] != '|'
            && w[i] != '/'
}

/// The flag of a backward search.
spec fn like_back(w: Text) -> bool {
    &&& w.len() > 2
    &&& w[0] == '-' && w[1] == '-' && w[2] == 'b'
    &&& forall|i: int|
        0 <= i < w.len() ==> #[trigger] w[i] != ' ' && w[i] != ';' && w[i] != '|' && w[i] != '/'
}

/// One of the texts that are looked for in the script.
spec fn is_marker(w: Text) -> bool {
    like_send(w) || like_hand(w) || like_back(w)
}

/// None of them starts at a place of a text.
spec fn quiet_at(x: Text, p: int) -> bool {
    let n = x.len();
    &&& x[p] != 't' || (p + 1 < n && x[p + 1] != 'm') || (p + 2 < n && x[p + 2] != 'u') || (p + 5
        < n && x[p + 5] != 'w')
    &&& x[p] != '-' || (p + 1 < n && x[p + 1] != '-') || (p + 2 < n && x[p + 2] != 'r' && x[p + 2]
        != 'b')
}

/// None of them starts in a text.
spec fn quiet(x: Text) -> bool {
    forall|p: int| 0 <= p < x.len() ==> #[trigger] quiet_at(x, p)
}

/// None of them reaches into a text.
spec fn edged(x: Text) -> bool {
    &&& x.len() > 0
    &&& x[0] == ';' || x[0] == '|' || x[0] == '/' || (x.len() > 2 && x[0] == ' ' && x[1] != 'w'
        && x[1] != 't' && (x[1] != '-' || x[2] != 'S' || (x.len() > 4 && x[4] != 't')))
}

proof fn lemma_quiet(x: Text, w: Text, excused: bool)
    requires
        is_marker(w),
        quiet(x),
    ensures
        starts_nowhere(x, w),
        passes(x, w, excused),
{
    assert forall|p: int| 0 <= p < x.len() implies #[trigger] bars(x, p, w) by {
        assert(quiet_at(x, p));
        assert(clashes(x, p, w, 0) || clashes(x, p, w, 1) || clashes(x, p, w, 2) || clashes(
            x,
            p,
            w,
            5,
        ));
    }
    lemma_passes(x, w, excused);
}

proof fn lemma_edged(x: Text, w: Text)
    requires
        is_marker(w),
        edged(x),
    ensures
        reaches_not(x, w),
{
    assert forall|p: int| -w.len() < p < 0 implies #[trigger] bars(x, p, w) by {
        if !clashes(x, p, w, -p) {
            assert(w[-p] == ' ');
            assert(clashes(x, p, w, 1 - p) || clashes(x, p, w, 2 - p) || clashes(x, p, w, 4 - p));
        }
    }
}

proof fn lemma_quiet_edged(x: Text, w: Text, excused: bool)
    requires
        is_marker(w),
        quiet(x),
        edged(x),
    ensures
        parts(x, w, excused),
{
    lemma_quiet(x, w, excused);
    lemma_edged(x, w);
    lemma_parts(x, w, excused);
}

proof fn lemma_quiet_both(x: Text, y: Text)
    requires
        quiet(x),
        quiet(y),
    ensures
        quiet(x + y),
{
    assert forall|p: int| 0 <= p < (x + y).len() implies #[trigger] quiet_at(x + y, p) by {
        if p < x.len() {
            assert(quiet_at(x, p));
        } else {
            assert(quiet_at(y, p - x.len()));
        }
    }
}

proof fn lemma_quiet_number(n: int)
    ensures
        quiet(decimal(n)),
        decimal(n).len() > 0,
        decimal(n)[0] == '-' || is_digit(decimal(n)[0]),
{
    let digits = if n < 0 {
        decimal_digits((-n) as nat)
    } else {
        decimal_digits(n as nat)
    };
    lemma_decimal_digits(if n < 0 {
        (-n) as nat
    } else {
        n as nat
    });
    assert forall|p: int| 0 <= p < decimal(n).len() implies #[trigger] quiet_at(decimal(n), p) by {
        if n < 0 {
            if p > 0 {
                assert(decimal(n)[p] == digits[p - 1]);
            } else {
                assert(decimal(n)[1] == digits[0]);
            }
            assert(is_digit(digits[if p > 0 {
                p - 1
            } else {
                0
            }]));
        } else {
            assert(is_digit(digits[p]));
        }
    }
    if n >= 0 {
        assert(is_digit(digits[0]));
    }
}

proof fn lemma_quiet_starts()
    ensures
        quiet("tmux capture-pane "@ + "-p"@ + " -t "@),
        quiet("tmux capture-pane "@ + "-J -p"@ + " -t "@),
        quiet("cat "@),
{
    reveal_strlit("tmux capture-pane ");
    reveal_strlit("-p");
    reveal_strlit("-J -p");
    reveal_strlit(" -t ");
    reveal_strlit("cat ");
    assert(quiet("tmux capture-pane "@));
    assert(quiet("-p"@));
    assert(quiet("-J -p"@));
    assert(quiet(" -t "@));
    lemma_quiet_both("tmux capture-pane "@, "-p"@);
    lemma_quiet_both("tmux capture-pane "@, "-J -p"@);
    lemma_quiet_both("tmux capture-pane "@ + "-p"@, " -t "@);
    lemma_quiet_both("tmux capture-pane "@ + "-J -p"@, " -t "@);
}

proof fn lemma_quiet_views()
    ensures
        quiet(" -S "@),
        quiet(" -E "@),
        quiet(" | tail -n "@),
        edged(" | tail -n "@),
        quiet(" | "@),
        " -S "@.len() == 4,
        " -S "@[0] == ' ',
        " -S "@[1] == '-',
{
    reveal_strlit(" -S ");
    reveal_strlit(" -E ");
    reveal_strlit(" | tail -n ");
    reveal_strlit(" | ");
}

proof fn lemma_quiet_output()
    ensures
        quiet(" -f '%U:%P:%X:%Y:%H' -t "@),
        quiet(TMP_FILE@ + " "@),
{
    reveal_strlit(" -f '%U:%P:%X:%Y:%H' -t ");
    reveal_strlit("/tmp/thumbs-last");
    reveal_strlit(" ");
}

proof fn lemma_quiet_jump()
    ensures
        quiet(" --jump"@),
        edged(" --jump"@),
        quiet(" --character "@),
        edged(" --backward"@),
        quiet(" --start-x "@),
        edged(" --start-x "@),
        quiet(" --start-y "@),
{
    reveal_strlit(" --jump");
    reveal_strlit(" --character ");
    reveal_strlit(" --backward");
    reveal_strlit(" --start-x ");
    reveal_strlit(" --start-y ");
}

proof fn lemma_quiet_ends()
    ensures
        quiet("; tmux swap-pane -t "@),
        edged("; tmux swap-pane -t "@),
        quiet("; "@),
        edged("; "@),
        quiet("tmux resize-pane -t "@),
        quiet(" -Z;"@),
        edged(" -Z;"@),
        quiet("; rmdir "@),
        edged("; rmdir "@),
        quiet(" 2>/dev/null || true"@),
        edged(" 2>/dev/null || true"@),
{
    reveal_strlit("; tmux swap-pane -t ");
    reveal_strlit("; ");
    reveal_strlit("tmux resize-pane -t ");
    reveal_strlit(" -Z;");
    reveal_strlit("; rmdir ");
    reveal_strlit(" 2>/dev/null || true");
}

/// The number of the process at the end of a signal.
proof fn lemma_quiet_process(process_id: u32)
    ensures
        quiet("-"@ + decimal(process_id as int)),
{
    reveal_strlit("-");
    let digits = decimal(process_id as int);
    let x = "-"@ + digits;
    lemma_quiet_number(process_id as int);
    lemma_decimal_digits(process_id as nat);
    assert forall|p: int| 0 <= p < x.len() implies #[trigger] quiet_at(x, p) by {
        if p == 0 {
            assert(x[1] == digits[0]);
            assert(is_digit(digits[0]));
        } else {
            assert(quiet_at(digits, p - 1));
            assert(is_digit(digits[p - 1]));
            assert(x[p] == digits[p - 1]);
        }
    }
}

/// Where thumbs is handed the ready signal, it is not handed the finished signal.
proof fn lemma_ready_parts(started: u64, process_id: u32, w: Text, excused: bool)
    requires
        is_marker(w),
    ensures
        parts(
            "/target/release/thumbs --ready-signal "@ + signal_text(
                "thumbs-ready-"@,
                started,
                process_id,
            ),
            w,
            excused,
        ),
{
    let tool = "/target/release/thumbs --ready-signal "@;
    let prefix = "thumbs-ready-"@;
    let digits = decimal(started as int);
    let x = tool + prefix + digits;
    let end = "-"@ + decimal(process_id as int);
    reveal_strlit("/target/release/thumbs --ready-signal ");
    reveal_strlit("thumbs-ready-");
    lemma_decimal_digits(started as nat);
    assert(x.len() == 51 + digits.len());
    assert(x[51] == digits[0]);
    assert(is_digit(digits[0]));
    assert(x[45] == 'r');
    assert forall|p: int| 0 <= p < x.len() implies #[trigger] bars(x, p, w) by {
        if p >= 51 {
            assert(x[p] == digits[p - 51]);
            assert(is_digit(digits[p - 51]));
            assert(clashes(x, p, w, 0));
        } else if p >= 38 {
            assert(x[p] == prefix[p - 38]);
            assert(p < 50 ==> x[p + 1] == prefix[p - 37]);
            assert(clashes(x, p, w, 0) || clashes(x, p, w, 1));
        } else {
            assert(x[p] == tool[p]);
            assert(p < 37 ==> x[p + 1] == tool[p + 1]);
            if p == 23 {
                assert(x[25] == tool[25]);
                assert(clashes(x, p, w, 0) || clashes(x, p, w, 2) || clashes(x, p, w, 22));
            } else {
                assert(clashes(x, p, w, 0) || clashes(x, p, w, 1));
            }
        }
    }
    assert(x[0] == '/');
    lemma_edged(x, w);
    lemma_parts(x, w, excused);
    lemma_quiet_process(process_id);
    lemma_quiet(end, w, excused);
    lemma_parts_both(x, end, w, excused);
    assert(tool + signal_text(prefix, started, process_id) =~= x + end);
}

/// Where the finished signal is sent, the ready signal is not.
proof fn lemma_finished_passes(started: u64, process_id: u32, w: Text, excused: bool)
    requires
        is_marker(w),
    ensures
        passes(
            " tmux wait-for -S "@ + signal_text("thumbs-finished-"@, started, process_id),
            w,
            excused,
        ),
{
    let tool = " tmux wait-for -S "@;
    let prefix = "thumbs-finished-"@;
    let digits = decimal(started as int);
    let x = tool + prefix + digits;
    let end = "-"@ + decimal(process_id as int);
    reveal_strlit(" tmux wait-for -S ");
    reveal_strlit("thumbs-finished-");
    lemma_decimal_digits(started as nat);
    assert(x.len() == 34 + digits.len());
    assert(x[34] == digits[0]);
    assert(is_digit(digits[0]));
    assert(x[25] == 'f');
    assert forall|p: int| 0 <= p < x.len() implies #[trigger] bars(x, p, w) by {
        if p >= 34 {
            assert(x[p] == digits[p - 34]);
            assert(is_digit(digits[p - 34]));
            assert(clashes(x, p, w, 0));
        } else if p >= 18 {
            assert(x[p] == prefix[p - 18]);
            assert(p < 33 ==> x[p + 1] == prefix[p - 17]);
            assert(clashes(x, p, w, 0) || clashes(x, p, w, 1));
        } else {
            assert(x[p] == tool[p]);
            assert(p < 17 ==> x[p + 1] == tool[p + 1]);
            if p == 1 {
                assert(clashes(x, p, w, 0) || clashes(x, p, w, 24));
            } else {
                assert(clashes(x, p, w, 0) || clashes(x, p, w, 1));
            }
        }
    }
    lemma_passes(x, w, excused);
    lemma_quiet_process(process_id);
    lemma_quiet(end, w, excused);
    lemma_passes_both(x, end, w, excused);
    assert(tool + signal_text(prefix, started, process_id) =~= x + end);
}

/// What sends the ready signal is like that.
proof fn lemma_like_send(started: u64, process_id: u32)
    ensures
        like_send("tmux wait-for -S "@ + signal_text("thumbs-ready-"@, started, process_id)),
{
    let tool = "tmux wait-for -S "@;
    let prefix = "thumbs-ready-"@;
    let d = decimal(started as int);
    let e = decimal(process_id as int);
    let w = tool + signal_text(prefix, started, process_id);
    reveal_strlit("tmux wait-for -S ");
    reveal_strlit("thumbs-ready-");
    reveal_strlit("-");
    lemma_decimal_digits(started as nat);
    lemma_decimal_digits(process_id as nat);
    assert(w =~= tool + prefix + d + "-"@ + e);
    assert forall|i: int| 0 <= i < w.len() implies (#[trigger] w[i] == ' ' ==> i == 4 || i == 13
        || i == 16) && w[i] != ';' && w[i] != '|' && w[i] != '/' by {
        lemma_signal_char(tool + prefix, d, e, i);
    }
}

/// What hands thumbs the finished signal is like that.
proof fn lemma_like_hand(started: u64, process_id: u32)
    ensures
        like_hand("--ready-signal "@ + signal_text("thumbs-finished-"@, started, process_id)),
{
    let tool = "--ready-signal "@;
    let prefix = "thumbs-finished-"@;
    let d = decimal(started as int);
    let e = decimal(process_id as int);
    let w = tool + signal_text(prefix, started, process_id);
    reveal_strlit("--ready-signal ");
    reveal_strlit("thumbs-finished-");
    reveal_strlit("-");
    lemma_decimal_digits(started as nat);
    lemma_decimal_digits(process_id as nat);
    assert(w =~= tool + prefix + d + "-"@ + e);
    assert forall|i: int| 0 <= i < w.len() implies (#[trigger] w[i] == ' ' ==> i == 14) && w[i]
        != ';' && w[i] != '|' && w[i] != '/' by {
        lemma_signal_char(tool + prefix, d, e, i);
    }
}

/// A character behind the start of a signal is a digit or a hyphen.
proof fn lemma_signal_char(start: Text, d: Text, e: Text, i: int)
    requires
        0 <= i < start.len() + d.len() + 1 + e.len(),
        forall|k: int| 0 <= k < d.len() ==> is_digit(#[trigger] d[k]),
        forall|k: int| 0 <= k < e.len() ==> is_digit(#[trigger] e[k]),
    ensures
        ({
            let w = start + d + "-"@ + e;
            if i < start.len() {
                w[i] == start[i]
            } else {
                w[i] == '-' || is_digit(w[i])
            }
        }),
{
    reveal_strlit("-");
    let w = start + d + "-"@ + e;
    let n = start.len() as int;
    let m = d.len() as int;
    if n <= i < n + m {
        assert(w[i] == d[i - n]);
    } else if i > n + m {
        assert(w[i] == e[i - n - m - 1]);
    }
}

pub proof fn lemma_nothing_more(x: Text)
    ensures
        x + ""@ == x,
{
    reveal_strlit("");
    assert(x + ""@ =~= x);
}

proof fn lemma_scroll_parts(height: i32, scroll: i32, w: Text, excused: bool)
    requires
        is_marker(w),
    ensures
        parts(scroll_text(Some(height), Some(scroll)), w, excused),
{
    let first = decimal(-scroll);
    let last = decimal(height - scroll - 1);
    lemma_quiet_views();
    lemma_quiet_number(-scroll);
    lemma_quiet_number(height - scroll - 1);
    let x = " -S "@ + first;
    lemma_quiet_both(" -S "@, first);
    assert(x[0] == ' ' && x[1] == '-' && x[4] == first[0]);
    lemma_quiet_edged(x, w, excused);
    lemma_quiet(" -E "@, w, excused);
    lemma_quiet(last, w, excused);
    lemma_parts_both(x, " -E "@, w, excused);
    lemma_parts_both(x + " -E "@, last, w, excused);
}

proof fn lemma_start_parts(x: int, y: int, w: Text, excused: bool)
    requires
        is_marker(w),
    ensures
        parts(" --start-x "@ + decimal(x) + " --start-y "@ + decimal(y), w, excused),
{
    lemma_quiet_jump();
    lemma_quiet_number(x);
    lemma_quiet_number(y);
    lemma_quiet_edged(" --start-x "@, w, excused);
    lemma_quiet(decimal(x), w, excused);
    lemma_quiet(" --start-y "@, w, excused);
    lemma_quiet(decimal(y), w, excused);
    let a = " --start-x "@ + decimal(x);
    lemma_parts_both(" --start-x "@, decimal(x), w, excused);
    lemma_parts_both(a, " --start-y "@, w, excused);
    lemma_parts_both(a + " --start-y "@, decimal(y), w, excused);
}

/// The flag of a backward search sends and hands no signal.
proof fn lemma_backward_parts(w: Text, excused: bool)
    requires
        like_send(w) || like_hand(w),
    ensures
        parts(" --backward"@, w, excused),
        passes(" --backward"@, w, excused),
{
    reveal_strlit(" --backward");
    let x = " --backward"@;
    assert forall|p: int| 0 <= p < x.len() implies #[trigger] bars(x, p, w) by {
        assert(clashes(x, p, w, 0) || clashes(x, p, w, 1) || clashes(x, p, w, 2));
    }
    lemma_quiet_jump();
    lemma_edged(x, w);
    lemma_passes(x, w, excused);
    lemma_parts(x, w, excused);
}

proof fn lemma_jump_parts(s: SwapperState, w: Text, excused: bool)
    requires
        is_marker(w),
        s.backward ==> !like_back(w),
        s.jump,
        s.character is Some && holds(shell_quoted(s.character->0), w) ==> excused,
    ensures
        parts(jump_text(s), w, excused),
{
    let jump = " --jump"@;
    let backward = " --backward"@;
    lemma_quiet_jump();
    lemma_quiet_edged(jump, w, excused);
    if s.backward {
        lemma_backward_parts(w, excused);
    }
    match s.character {
        Some(character) => {
            let quoted = shell_quoted(character);
            let (x, y) = s.active_pane_cursor->0;
            let start = " --start-x "@ + decimal(x as int) + " --start-y "@ + decimal(y as int);
            let named = jump + " --character "@;
            lemma_quiet(" --character "@, w, excused);
            lemma_parts_both(jump, " --character "@, w, excused);
            lemma_regroup(jump, " --character "@, quoted);
            lemma_start_parts(x as int, y as int, w, excused);
            if s.backward {
                lemma_parts_over(named, quoted, backward, w, excused);
                lemma_parts_passes(start, w, excused);
                lemma_parts_both(named + quoted + backward, start, w, excused);
            } else {
                lemma_parts_over(named, quoted, start, w, excused);
                lemma_nothing_more(named + quoted);
            }
        },
        None => {
            if s.backward {
                lemma_parts_both(jump, backward, w, excused);
            } else {
                lemma_nothing_more(jump);
            }
        },
    }
}

proof fn lemma_zoom_passes(s: SwapperState, w: Text, excused: bool)
    requires
        is_marker(w),
        s.active_pane_zoomed->0,
        holds(s.active_pane_id->0, w) ==> excused,
    ensures
        passes(zoom_text(s), w, excused),
{
    lemma_quiet_ends();
    lemma_quiet("tmux resize-pane -t "@, w, excused);
    lemma_quiet_edged(" -Z;"@, w, excused);
    lemma_passes_over("tmux resize-pane -t "@, s.active_pane_id->0, " -Z;"@, w, excused);
}

/// The script up to the arguments of thumbs.
spec fn up_to_args(s: SwapperState) -> Text {
    before_thumbs(s) + "/target/release/thumbs --ready-signal "@ + s.ready_signal
        + " -f '%U:%P:%X:%Y:%H' -t "@ + TMP_FILE@ + " "@
}

/// The signals are those of a session.
pub open spec fn has_signals(s: SwapperState, started: u64, process_id: u32) -> bool {
    &&& s.ready_signal == signal_text("thumbs-ready-"@, started, process_id)
    &&& s.signal == signal_text("thumbs-finished-"@, started, process_id)
}

proof fn lemma_up_to_args_parts(
    s: SwapperState,
    started: u64,
    process_id: u32,
    w: Text,
    excused: bool,
)
    requires
        is_marker(w),
        has_signals(s, started, process_id),
        holds(s.dir, w) ==> excused,
    ensures
        parts(up_to_args(s), w, excused),
{
    let height = decimal(tail_height(s));
    lemma_quiet_views();
    lemma_quiet_number(tail_height(s));
    lemma_quiet_edged(" | tail -n "@, w, excused);
    lemma_quiet(height, w, excused);
    lemma_quiet(" | "@, w, excused);
    let a = " | tail -n "@ + height;
    lemma_parts_both(" | tail -n "@, height, w, excused);
    lemma_parts_both(a, " | "@, w, excused);
    let b = a + " | "@;
    let tool = "/target/release/thumbs --ready-signal "@;
    lemma_ready_parts(started, process_id, w, excused);
    lemma_parts_over(b, s.dir, tool + s.ready_signal, w, excused);
    lemma_regroup(b + s.dir, tool, s.ready_signal);
    let c = b + s.dir + tool + s.ready_signal;
    lemma_quiet_output();
    lemma_quiet(" -f '%U:%P:%X:%Y:%H' -t "@, w, excused);
    lemma_quiet(TMP_FILE@ + " "@, w, excused);
    lemma_parts_both(c, " -f '%U:%P:%X:%Y:%H' -t "@, w, excused);
    let d = c + " -f '%U:%P:%X:%Y:%H' -t "@;
    lemma_parts_both(d, TMP_FILE@ + " "@, w, excused);
    lemma_regroup(d, TMP_FILE@, " "@);
}

proof fn lemma_thumbs_parts(
    s: SwapperState,
    args: Seq<Text>,
    started: u64,
    process_id: u32,
    w: Text,
)
    requires
        is_marker(w),
        s.jump && s.backward ==> !like_back(w),
        has_signals(s, started, process_id),
    ensures
        parts(thumbs_text(s, args), w, given(s, args, w)),
{
    let g = given(s, args, w);
    let a = up_to_args(s);
    let list = joined(args, " "@);
    let swap = "; tmux swap-pane -t "@;
    let id = s.active_pane_id->0;
    lemma_up_to_args_parts(s, started, process_id, w, g);
    lemma_quiet_ends();
    lemma_quiet_edged(swap, w, g);
    lemma_quiet_edged("; "@, w, g);
    let b = a + list + jump_text(s) + swap;
    if s.jump {
        lemma_jump_parts(s, w, g);
        lemma_parts_over(a, list, jump_text(s), w, g);
        lemma_quiet(swap, w, g);
        lemma_parts_both(a + list + jump_text(s), swap, w, g);
    } else {
        lemma_nothing_more(a + list);
        lemma_parts_over(a, list, swap, w, g);
    }
    lemma_parts_over(b, id, "; "@, w, g);
    let c = b + id + "; "@;
    let d = c + zoom_text(s);
    if s.active_pane_zoomed->0 {
        lemma_zoom_passes(s, w, g);
        lemma_parts_both(c, zoom_text(s), w, g);
    } else {
        lemma_nothing_more(c);
    }
    let send = " tmux wait-for -S "@;
    lemma_finished_passes(started, process_id, w, g);
    lemma_parts_both(d, send + s.signal, w, g);
    lemma_regroup(d, send, s.signal);
}

proof fn lemma_script_is_quiet(
    s: SwapperState,
    args: Seq<Text>,
    started: u64,
    process_id: u32,
    w: Text,
)
    requires
        is_marker(w),
        s.jump && s.backward ==> !like_back(w),
        has_signals(s, started, process_id),
    ensures
        holds(pane_script(s, args), w) ==> given(s, args, w),
{
    let g = given(s, args, w);
    let thumbs = thumbs_text(s, args);
    let id = s.active_pane_id->0;
    lemma_thumbs_parts(s, args, started, process_id, w);
    lemma_quiet_starts();
    if uses_capture(s) {
        let file = s.active_pane_captured_content->0;
        let lock = lock_path(id);
        let end = " 2>/dev/null || true"@;
        lemma_quiet_ends();
        lemma_quiet("cat "@, w, g);
        lemma_passes_over("cat "@, file, thumbs, w, g);
        lemma_quiet("; rmdir "@, w, g);
        lemma_passes_both("cat "@ + file + thumbs, "; rmdir "@, w, g);
        lemma_quiet_edged(end, w, g);
        lemma_passes_over("cat "@ + file + thumbs + "; rmdir "@, lock, end, w, g);
    } else {
        let start = "tmux capture-pane "@ + (if s.jump {
            "-p"@
        } else {
            "-J -p"@
        }) + " -t "@;
        let scroll = scroll_text(s.active_pane_height, s.active_pane_scroll_position);
        lemma_quiet(start, w, g);
        match (s.active_pane_height, s.active_pane_scroll_position) {
            (Some(height), Some(position)) => {
                lemma_scroll_parts(height, position, w, g);
                lemma_passes_over(start, id, scroll, w, g);
                lemma_parts_passes(thumbs, w, g);
                lemma_passes_both(start + id + scroll, thumbs, w, g);
            },
            _ => {
                lemma_nothing_more(start + id);
                lemma_passes_over(start, id, thumbs, w, g);
            },
        }
    }
    let script = pane_script(s, args);
    assert(passes(script, w, g));
    reveal(passes);
    let none = Seq::<char>::empty();
    assert(script + none =~= script);
    lemma_holds_nothing(w);
    assert(holds(script + none, w) ==> g || holds(none, w));
}

/// The script does not send the signal that `wait_ready` waits for, and does not hand
/// thumbs the one that `wait_thumbs` waits for, unless a text that the session was given
/// says so: the directory, the id of the pane, the options, the character, or the path of
/// the capture file or its lock.
pub proof fn law_script_does_not_mix_the_signals(
    s: SwapperState,
    args: Seq<Text>,
    started: u64,
    process_id: u32,
)
    requires
        has_signals(s, started, process_id),
    ensures
        holds(pane_script(s, args), sends_ready(s)) ==> given(s, args, sends_ready(s)),
        holds(pane_script(s, args), hands_finished(s)) ==> given(s, args, hands_finished(s)),
{
    lemma_like_send(started, process_id);
    assert(!like_back(sends_ready(s)));
    lemma_script_is_quiet(s, args, started, process_id, sends_ready(s));
    lemma_like_hand(started, process_id);
    assert(!like_back(hands_finished(s)));
    lemma_script_is_quiet(s, args, started, process_id, hands_finished(s));
}

/// The script searches backward if and only if a jump was to: it holds the flag of a
/// backward search then, and else only where a text that the session was given holds it.
pub proof fn law_script_searches_backward_if_asked(
    s: SwapperState,
    args: Seq<Text>,
    started: u64,
    process_id: u32,
)
    requires
        has_signals(s, started, process_id),
    ensures
        s.jump && s.backward ==> holds(pane_script(s, args), " --backward"@),
        !(s.jump && s.backward) && holds(pane_script(s, args), "--backward"@) ==> given(
            s,
            args,
            "--backward"@,
        ),
{
    reveal_strlit("--backward");
    assert(like_back("--backward"@));
    if s.jump && s.backward {
        let part = " --backward"@;
        lemma_holds_end(" --jump"@, part);
        match s.character {
            Some(character) => {
                let named = " --jump"@ + (" --character "@ + shell_quoted(character));
                let (x, y) = s.active_pane_cursor->0;
                lemma_holds_end(named, part);
                lemma_holds_more(
                    named + part,
                    " --start-x "@ + decimal(x as int) + " --start-y "@ + decimal(y as int),
                    part,
                );
            },
            None => {},
        }
        lemma_jump_is_held(s, args, part);
        lemma_script_holds(s, args, part);
    } else {
        lemma_script_is_quiet(s, args, started, process_id, "--backward"@);
    }
}

/// What the jump part of the script holds, the script holds.
proof fn lemma_jump_is_held(s: SwapperState, args: Seq<Text>, part: Text)
    requires
        holds(jump_text(s), part),
    ensures
        holds(thumbs_text(s, args), part),
{
    let x4 = up_to_args(s) + joined(args, " "@);
    lemma_holds_more(jump_text(s), x4, part);
    let x5 = x4 + jump_text(s);
    let x6 = x5 + "; tmux swap-pane -t "@;
    lemma_holds_more(x5, "; tmux swap-pane -t "@, part);
    let x7 = x6 + s.active_pane_id->0;
    lemma_holds_more(x6, s.active_pane_id->0, part);
    let x8 = x7 + "; "@;
    lemma_holds_more(x7, "; "@, part);
    let x9 = x8 + zoom_text(s);
    lemma_holds_more(x8, zoom_text(s), part);
    let x10 = x9 + " tmux wait-for -S "@;
    lemma_holds_more(x9, " tmux wait-for -S "@, part);
    lemma_holds_more(x10, s.signal, part);
}

/// What thumbs is told of a jump stands right before the panes are exchanged.
pub proof fn lemma_told_is_held(s: SwapperState, args: Seq<Text>)
    ensures
        holds(
            thumbs_text(s, args),
            jump_text(s) + "; tmux swap-pane -t "@ + s.active_pane_id->0,
        ),
{
    let x4 = up_to_args(s) + joined(args, " "@);
    let swap = "; tmux swap-pane -t "@;
    let id = s.active_pane_id->0;
    let part = jump_text(s) + swap + id;
    lemma_holds_end(x4, part);
    lemma_regroup(x4, jump_text(s), swap);
    lemma_regroup(x4, jump_text(s) + swap, id);
    let x7 = x4 + jump_text(s) + swap + id;
    let x8 = x7 + "; "@;
    lemma_holds_more(x7, "; "@, part);
    let x9 = x8 + zoom_text(s);
    lemma_holds_more(x8, zoom_text(s), part);
    let x10 = x9 + " tmux wait-for -S "@;
    lemma_holds_more(x9, " tmux wait-for -S "@, part);
    lemma_holds_more(x10, s.signal, part);
}

} // verus!
