//! The options that the user set for thumbs in tmux, as arguments of thumbs.

use crate::text::{
    begins_with, joined, law_beginning_is_what_stands_first, law_joined_texts_come_back, opt_text,
    pieces, replace, replaced, same_text, split, starts_with, texts, Text,
};
use vstd::prelude::*;
use vstd::string::*;

verus! {

/// What an option line looks like: its first group is the name of the option, its
/// second group the value, without the quotes around it.
pub const OPTION_PATTERN: &'static str = "^@thumbs-([\\w\\-0-9]+)\\s+\"?([^\"]+)\"?$";

/// What every option line begins with.
pub const OPTION_PREFIX: &'static str = "@thumbs-";

/// The groups of the leftmost match of a regular expression in a text, each with
/// its text if it took part in the match; none if there is no match, or if the
/// expression is not valid.
pub uninterp spec fn regex_captures(pattern: Seq<char>, text: Seq<char>) -> Option<
    Seq<Option<Seq<char>>>,
>;

/// The views of the groups of a match.
pub open spec fn groups(list: Seq<Option<String>>) -> Seq<Option<Text>> {
    Seq::new(list.len(), |i: int| opt_text(list[i]))
}

/// The views of the groups of a match, if there is one.
pub open spec fn opt_groups(found: Option<Vec<Option<String>>>) -> Option<Seq<Option<Text>>> {
    match found {
        Some(list) => Some(groups(list@)),
        None => None,
    }
}

/// Calls `regex::Regex::new` on the pattern of option lines and
/// `regex::Regex::captures` on the text. The result depends on the two alone; beyond
/// that nothing is claimed of it.
#[verifier::external_body]
fn captures(pattern: &str, text: &str) -> (found: Option<Vec<Option<String>>>)
    requires
        pattern@ == OPTION_PATTERN@,
    ensures
        opt_groups(found) == regex_captures(pattern@, text@),
{
    let found = regex::Regex::new(pattern).ok()?.captures(text)?;
    Some(found.iter().map(|group| group.map(|m| m.as_str().to_string())).collect())
}

/// The options that are switches.
pub open spec fn is_switch(name: Text) -> bool {
    name == "reverse"@ || name == "unique"@ || name == "contrast"@
}

fn switch(name: &str) -> (yes: bool)
    ensures
        yes == is_switch(name@),
{
    same_text(name, "reverse") || same_text(name, "unique") || same_text(name, "contrast")
}

/// The options that are handed on with their value as it is.
pub open spec fn is_setting(name: Text) -> bool {
    ||| name == "alphabet"@
    ||| name == "position"@
    ||| name == "fg-color"@
    ||| name == "bg-color"@
    ||| name == "hint-bg-color"@
    ||| name == "hint-fg-color"@
    ||| name == "select-fg-color"@
    ||| name == "select-bg-color"@
    ||| name == "multi-fg-color"@
    ||| name == "multi-bg-color"@
}

fn setting(name: &str) -> (yes: bool)
    ensures
        yes == is_setting(name@),
{
    same_text(name, "alphabet") || same_text(name, "position") || same_text(name, "fg-color")
        || same_text(name, "bg-color") || same_text(name, "hint-bg-color") || same_text(
        name,
        "hint-fg-color",
    ) || same_text(name, "select-fg-color") || same_text(name, "select-bg-color") || same_text(
        name,
        "multi-fg-color",
    ) || same_text(name, "multi-bg-color")
}

/// A regular expression as an argument: tmux doubles its backslashes.
pub open spec fn expression_text(value: Text) -> Text {
    "'"@ + replaced(value, "\\\\"@, "\\"@) + "'"@
}

fn expression(value: &str) -> (text: String)
    ensures
        text@ == expression_text(value@),
{
    proof {
        reveal_strlit("\\\\");
    }
    "'".to_owned().concat(replace(value, "\\\\", "\\").as_str()).concat("'")
}

/// The arguments that an option turns into; none if thumbs does not know it.
pub open spec fn option_texts(name: Text, value: Text) -> Seq<Text> {
    if is_switch(name) {
        seq!["--"@ + name]
    } else if is_setting(name) {
        seq!["--"@ + name, "'"@ + value + "'"@]
    } else if begins_with(name, "url-regexp"@) {
        seq!["--url-regexp"@, expression_text(value)]
    } else if begins_with(name, "regexp"@) {
        seq!["--regexp"@, expression_text(value)]
    } else {
        Seq::empty()
    }
}

/// Turns an option into arguments.
pub fn option_args(name: &str, value: &str) -> (args: Vec<String>)
    ensures
        texts(args@) == option_texts(name@, value@),
{
    if switch(name) {
        vec!["--".to_owned().concat(name)]
    } else if setting(name) {
        vec!["--".to_owned().concat(name), "'".to_owned().concat(value).concat("'")]
    } else if starts_with(name, "url-regexp") {
        vec!["--url-regexp".to_owned(), expression(value)]
    } else if starts_with(name, "regexp") {
        vec!["--regexp".to_owned(), expression(value)]
    } else {
        Vec::new()
    }
}

/// The arguments that the groups of an option line turn into.
pub open spec fn match_texts(found: Option<Seq<Option<Text>>>) -> Seq<Text> {
    match found {
        Some(list) => if list.len() > 2 && list[1] is Some && list[2] is Some {
            option_texts(list[1]->0, list[2]->0)
        } else {
            Seq::empty()
        },
        None => Seq::empty(),
    }
}

/// Turns the groups of an option line into arguments.
pub fn match_args(found: &Option<Vec<Option<String>>>) -> (args: Vec<String>)
    ensures
        texts(args@) == match_texts(opt_groups(*found)),
{
    if let Some(list) = found {
        if list.len() > 2 {
            assert(groups(list@)[1] == opt_text(list@[1]));
            assert(groups(list@)[2] == opt_text(list@[2]));
            if let Some(name) = &list[1] {
                if let Some(value) = &list[2] {
                    return option_args(name.as_str(), value.as_str());
                }
            }
        }
    }
    Vec::new()
}

/// The arguments that a line of the option listing turns into.
pub open spec fn line_texts(line: Text) -> Seq<Text> {
    if begins_with(line, OPTION_PREFIX@) {
        match_texts(regex_captures(OPTION_PATTERN@, line))
    } else {
        Seq::empty()
    }
}

/// Turns a line of the option listing into arguments. A line that does not begin
/// like an option of thumbs cannot match, so no expression is built for it.
pub fn line_args(line: &str) -> (args: Vec<String>)
    ensures
        texts(args@) == line_texts(line@),
{
    if starts_with(line, OPTION_PREFIX) {
        match_args(&captures(OPTION_PATTERN, line))
    } else {
        Vec::new()
    }
}

/// The arguments that some lines turn into, in order.
pub open spec fn lines_texts(lines: Seq<Text>) -> Seq<Text>
    decreases lines.len(),
{
    if lines.len() == 0 {
        Seq::empty()
    } else {
        lines_texts(lines.drop_last()) + line_texts(lines.last())
    }
}

/// The arguments that an option listing turns into.
pub open spec fn listing_texts(listing: Text) -> Seq<Text> {
    lines_texts(pieces(listing, '\n', None))
}

/// Turns an option listing into arguments.
pub fn listing_args(listing: &str) -> (args: Vec<String>)
    ensures
        texts(args@) == listing_texts(listing@),
{
    let lines = split(listing, '\n');
    let ghost all = texts(lines@);
    let mut args: Vec<String> = Vec::new();
    let mut i: usize = 0;
    assert(texts(args@) =~= lines_texts(all.take(0)));
    while i < lines.len()
        invariant
            all == texts(lines@),
            i <= lines@.len(),
            texts(args@) == lines_texts(all.take(i as int)),
        decreases lines@.len() - i,
    {
        let ghost before = args@;
        let mut more = line_args(lines[i].as_str());
        let ghost added = more@;
        args.append(&mut more);
        proof {
            assert(all.take(i + 1).drop_last() =~= all.take(i as int));
            assert(texts(args@) =~= texts(before) + texts(added));
        }
        i += 1;
    }
    assert(all.take(all.len() as int) =~= all);
    args
}

/// Switches are handed on by their name, whatever their value.
pub proof fn law_switches_are_handed_on(name: Text, value: Text)
    requires
        name == "reverse"@ || name == "unique"@ || name == "contrast"@,
    ensures
        option_texts(name, value) == seq!["--"@ + name],
{
}

/// Settings are handed on by their name and their value, in single quotes.
pub proof fn law_settings_are_handed_on(name: Text, value: Text)
    requires
        name == "alphabet"@ || name == "position"@ || name == "fg-color"@ || name == "bg-color"@
            || name == "hint-bg-color"@ || name == "hint-fg-color"@ || name == "select-fg-color"@
            || name == "select-bg-color"@ || name == "multi-fg-color"@ || name
            == "multi-bg-color"@,
    ensures
        option_texts(name, value) == seq!["--"@ + name, "'"@ + value + "'"@],
{
    reveal_strlit("reverse");
    reveal_strlit("unique");
    reveal_strlit("contrast");
    reveal_strlit("alphabet");
    reveal_strlit("position");
    reveal_strlit("fg-color");
    reveal_strlit("bg-color");
    reveal_strlit("hint-bg-color");
    reveal_strlit("hint-fg-color");
    reveal_strlit("select-fg-color");
    reveal_strlit("select-bg-color");
    reveal_strlit("multi-fg-color");
    reveal_strlit("multi-bg-color");
    assert(name[0] == 'r' ==> false);
    assert(name[0] == 'u' ==> false);
    assert(name[0] == 'c' ==> false);
}

/// The value of a regular expression as tmux prints it: each backslash is doubled.
pub open spec fn doubled(value: Text) -> Text
    decreases value.len(),
{
    if value.len() == 0 {
        value
    } else if value[0] == '\\' {
        seq!['\\', '\\'] + doubled(value.skip(1))
    } else {
        seq![value[0]] + doubled(value.skip(1))
    }
}

proof fn lemma_halved(value: Text)
    ensures
        replaced(doubled(value), "\\\\"@, "\\"@) == value,
    decreases value.len(),
{
    reveal_strlit("\\\\");
    reveal_strlit("\\");
    let pat = "\\\\"@;
    let to = "\\"@;
    let all = doubled(value);
    if value.len() > 0 {
        let rest = doubled(value.skip(1));
        lemma_halved(value.skip(1));
        if value[0] == '\\' {
            assert(all.take(2) =~= pat);
            assert(all.skip(2) =~= rest);
            assert(to + value.skip(1) =~= value);
        } else {
            assert(all[0] == value[0]);
            if all.len() >= 2 {
                assert(all.take(2)[0] != pat[0]);
                assert(all.skip(1) =~= rest);
            } else {
                assert(rest.len() == 0);
                assert(value.skip(1) =~= replaced(rest, pat, to));
                assert(replaced(rest, pat, to) == rest);
                assert(all =~= value);
            }
            assert(seq![value[0]] + value.skip(1) =~= value);
        }
    }
}

/// A regular expression reaches thumbs as the user wrote it, under whatever name that
/// begins like that: tmux doubles its backslashes, and that is undone. Whatever the value
/// is, each pair of backslashes becomes one.
pub proof fn law_expressions_are_handed_on(more: Text, value: Text)
    ensures
        option_texts("regexp"@ + more, value) == seq![
            "--regexp"@,
            "'"@ + replaced(value, "\\\\"@, "\\"@) + "'"@,
        ],
        option_texts("url-regexp"@ + more, value) == seq![
            "--url-regexp"@,
            "'"@ + replaced(value, "\\\\"@, "\\"@) + "'"@,
        ],
        option_texts("regexp"@ + more, doubled(value)) == seq!["--regexp"@, "'"@ + value + "'"@],
        option_texts("url-regexp"@ + more, doubled(value)) == seq![
            "--url-regexp"@,
            "'"@ + value + "'"@,
        ],
{
    lemma_halved(value);
    law_beginning_is_what_stands_first("regexp"@, more, more);
    law_beginning_is_what_stands_first("url-regexp"@, more, more);
    lemma_expression_name("regexp"@ + more);
    lemma_expression_name("url-regexp"@ + more);
    reveal_strlit("regexp");
    reveal_strlit("url-regexp");
    assert(("regexp"@ + more).take(10)[0] == 'r' || more.len() < 4);
}

proof fn lemma_expression_name(name: Text)
    requires
        begins_with(name, "regexp"@) || begins_with(name, "url-regexp"@),
    ensures
        !is_switch(name),
        !is_setting(name),
{
    reveal_strlit("regexp");
    reveal_strlit("url-regexp");
    reveal_strlit("reverse");
    reveal_strlit("unique");
    reveal_strlit("contrast");
    reveal_strlit("alphabet");
    reveal_strlit("position");
    reveal_strlit("fg-color");
    reveal_strlit("bg-color");
    reveal_strlit("hint-bg-color");
    reveal_strlit("hint-fg-color");
    reveal_strlit("select-fg-color");
    reveal_strlit("select-bg-color");
    reveal_strlit("multi-fg-color");
    reveal_strlit("multi-bg-color");
    if begins_with(name, "regexp"@) {
        assert(name.take(6)[0] == 'r');
        assert(name.take(6)[2] == 'g');
    } else {
        assert(name.take(10)[0] == 'u');
        assert(name.take(10)[1] == 'r');
    }
}

/// Each option line counts, wherever it stands: the arguments of a listing are those of its
/// lines, one after the other, and a line that names an option gives what that option turns
/// into.
pub proof fn law_each_line_counts(lines: Seq<Text>, i: int)
    requires
        0 <= i < lines.len(),
        forall|k: int| 0 <= k < lines.len() ==> !(#[trigger] lines[k]).contains('\n'),
    ensures
        listing_texts(joined(lines, seq!['\n'])) == lines_texts(lines.take(i)) + line_texts(lines[i])
            + lines_texts(lines.skip(i + 1)),
{
    law_joined_texts_come_back(lines, '\n');
    let head = lines.take(i + 1);
    assert(head.drop_last() =~= lines.take(i));
    assert(lines =~= head + lines.skip(i + 1));
    lemma_lines_add(head, lines.skip(i + 1));
}

/// The arguments of lines that follow each other follow each other.
pub proof fn lemma_lines_add(a: Seq<Text>, b: Seq<Text>)
    ensures
        lines_texts(a + b) == lines_texts(a) + lines_texts(b),
    decreases b.len(),
{
    if b.len() == 0 {
        assert(a + b =~= a);
        assert(lines_texts(a) + lines_texts(b) =~= lines_texts(a));
    } else {
        assert((a + b).drop_last() =~= a + b.drop_last());
        lemma_lines_add(a, b.drop_last());
        assert(lines_texts(a + b) =~= lines_texts(a) + lines_texts(b));
    }
}

/// A line that the pattern matches gives what the option turns into that its first two
/// groups name; any other line gives nothing.
pub proof fn law_line_names_an_option(line: Text, whole: Option<Text>, name: Text, value: Text)
    ensures
        begins_with(line, "@thumbs-"@) && regex_captures(OPTION_PATTERN@, line) == Some(
            seq![whole, Some(name), Some(value)],
        ) ==> line_texts(line) == option_texts(name, value),
        regex_captures(OPTION_PATTERN@, line) is None ==> line_texts(line) == Seq::<Text>::empty(),
        !begins_with(line, "@thumbs-"@) ==> line_texts(line) == Seq::<Text>::empty(),
{
}

/// What thumbs does not know is not handed on.
pub proof fn law_other_options_are_dropped(name: Text, value: Text)
    requires
        name != "reverse"@ && name != "unique"@ && name != "contrast"@,
        name != "alphabet"@ && name != "position"@ && name != "fg-color"@ && name != "bg-color"@,
        name != "hint-bg-color"@ && name != "hint-fg-color"@ && name != "select-fg-color"@,
        name != "select-bg-color"@ && name != "multi-fg-color"@ && name != "multi-bg-color"@,
        !begins_with(name, "regexp"@) && !begins_with(name, "url-regexp"@),
    ensures
        option_texts(name, value) == Seq::<Text>::empty(),
{
}

} // verus!
