//! What was selected: one line per selected hint, with five fields each: whether it
//! was picked in upper case, the name of its pattern, its column, its row, its text.

use crate::error::SwapError;
use crate::number::{parse_i32, parsed_i32};
use crate::text::{
    join, joined, lemma_some_piece, pieces, same_text, split, splitn, texts, trim, trim_end,
    trimmed, trimmed_end, Text,
};
use vstd::prelude::*;
use vstd::string::*;

verus! {

/// The lines of a selection.
pub open spec fn items(content: Text) -> Seq<Text> {
    pieces(content, '\n', None)
}

/// The fields of a line of a selection. The text may hold colons.
pub open spec fn item_fields(item: Text) -> Seq<Text> {
    pieces(item, ':', Some(5))
}

/// Nothing was selected.
pub open spec fn is_blank(content: Text) -> bool {
    trimmed(content).len() == 0
}

/// Whether nothing was selected.
pub fn blank(content: &str) -> (yes: bool)
    ensures
        yes == is_blank(content@),
{
    trim(content).as_str().is_empty()
}

/// The column and the row of the first line of a selection.
pub open spec fn jump_target(content: Text) -> Result<(i32, i32), SwapError> {
    let f = item_fields(items(content)[0]);
    if f.len() <= 2 || parsed_i32(f[2]) is None {
        Err(SwapError::JumpColumn)
    } else if f.len() <= 3 || parsed_i32(f[3]) is None {
        Err(SwapError::JumpRow)
    } else {
        Ok((parsed_i32(f[2])->0, parsed_i32(f[3])->0))
    }
}

/// Reads where to jump.
pub fn find_jump_target(content: &str) -> (target: Result<(i32, i32), SwapError>)
    ensures
        target == jump_target(content@),
{
    let lines = split(content, '\n');
    proof {
        lemma_some_piece(content@, '\n', None);
        assert(texts(lines@)[0] == lines@[0]@);
    }
    let list = splitn(lines[0].as_str(), 5, ':');
    let x = match field_number(&list, 2) {
        Some(x) => x,
        None => {
            return Err(SwapError::JumpColumn);
        },
    };
    match field_number(&list, 3) {
        Some(y) => Ok((x, y)),
        None => Err(SwapError::JumpRow),
    }
}

fn field_number(list: &Vec<String>, i: usize) -> (n: Option<i32>)
    ensures
        n == (if i < list@.len() {
            parsed_i32(list@[i as int]@)
        } else {
            None
        }),
{
    if i < list.len() {
        parse_i32(list[i].as_str())
    } else {
        None
    }
}

/// The last field of each line: the texts that were selected.
pub open spec fn item_texts(list: Seq<Text>) -> Seq<Text> {
    Seq::new(list.len(), |i: int| item_fields(list[i]).last())
}

/// The texts that were selected with a blank between each two neighbours.
pub open spec fn multi_text(content: Text) -> Text {
    joined(item_texts(items(content)), " "@)
}

/// A single selected hint: whether it was picked in upper case, its pattern, its
/// text.
pub struct Pick {
    pub upcase: bool,
    pub pattern: String,
    pub text: String,
}

/// A single selected hint as texts.
#[verifier::ext_equal]
pub struct PickText {
    pub upcase: bool,
    pub pattern: Text,
    pub text: Text,
}

impl View for Pick {
    type V = PickText;

    open spec fn view(&self) -> PickText {
        PickText { upcase: self.upcase, pattern: self.pattern@, text: self.text@ }
    }
}

/// What was selected, outside of jumps.
pub enum Choice {
    /// A line that lacks fields.
    Nothing,
    /// One hint.
    One(Pick),
    /// The joined texts of several hints.
    Many(String),
}

/// What was selected as texts.
#[verifier::ext_equal]
pub enum ChoiceText {
    Nothing,
    One(PickText),
    Many(Text),
}

impl View for Choice {
    type V = ChoiceText;

    open spec fn view(&self) -> ChoiceText {
        match self {
            Choice::Nothing => ChoiceText::Nothing,
            Choice::One(pick) => ChoiceText::One(pick@),
            Choice::Many(text) => ChoiceText::Many(text@),
        }
    }
}

/// What a selection says.
pub open spec fn choice(content: Text) -> ChoiceText {
    if items(content).len() > 1 {
        ChoiceText::Many(multi_text(content))
    } else {
        let f = item_fields(items(content)[0]);
        if f.len() == 5 {
            ChoiceText::One(
                PickText {
                    upcase: trimmed_end(f[0]) == "true"@,
                    pattern: f[1],
                    text: f[4],
                },
            )
        } else {
            ChoiceText::Nothing
        }
    }
}

/// Reads a selection.
pub fn find_choice(content: &str) -> (found: Choice)
    ensures
        found@ == choice(content@),
{
    let lines = split(content, '\n');
    proof {
        lemma_some_piece(content@, '\n', None);
        assert(texts(lines@)[0] == lines@[0]@);
    }
    if lines.len() > 1 {
        return Choice::Many(join(&last_fields(&lines), " "));
    }
    let list = splitn(lines[0].as_str(), 5, ':');
    if list.len() == 5 {
        let ghost f = texts(list@);
        assert(f[0] == list@[0]@ && f[1] == list@[1]@ && f[4] == list@[4]@);
        let upcase = same_text(trim_end(list[0].as_str()).as_str(), "true");
        Choice::One(Pick { upcase, pattern: list[1].clone(), text: list[4].clone() })
    } else {
        Choice::Nothing
    }
}

fn last_fields(lines: &Vec<String>) -> (list: Vec<String>)
    ensures
        texts(list@) == item_texts(texts(lines@)),
{
    let mut list: Vec<String> = Vec::new();
    let mut i: usize = 0;
    while i < lines.len()
        invariant
            i <= lines@.len(),
            list@.len() == i,
            forall|j: int|
                0 <= j < i ==> (#[trigger] list@[j])@ == item_fields(lines@[j]@).last(),
        decreases lines@.len() - i,
    {
        let f = splitn(lines[i].as_str(), 5, ':');
        proof {
            lemma_some_piece(lines@[i as int]@, ':', Some(5));
            assert(texts(f@).last() == f@.last()@);
        }
        list.push(f[f.len() - 1].clone());
        i += 1;
    }
    list
}

/// The patterns of links.
pub open spec fn names_url(pattern: Text) -> bool {
    pattern == "url"@ || pattern == "markdown_url"@ || pattern == "url_custom"@
}

/// The command for a single hint: the one for links if a link was picked in upper
/// case, the one for upper case if anything else was, else the ordinary one.
pub open spec fn command_for(
    upcase: bool,
    pattern: Text,
    command: Text,
    upcase_command: Text,
    url_command: Text,
) -> Text {
    if upcase && names_url(pattern) {
        url_command
    } else if upcase {
        upcase_command
    } else {
        command
    }
}

/// The command for a hint: the one for links if a link was picked in upper case, the one for
/// upper case if anything else was, and the ordinary one if nothing was.
pub proof fn law_case_and_pattern_choose_the_command(
    pattern: Text,
    command: Text,
    upcase_command: Text,
    url_command: Text,
)
    ensures
        names_url(pattern) <==> pattern == "url"@ || pattern == "markdown_url"@ || pattern
            == "url_custom"@,
        command_for(false, pattern, command, upcase_command, url_command) == command,
        command_for(true, "url"@, command, upcase_command, url_command) == url_command,
        command_for(true, "markdown_url"@, command, upcase_command, url_command) == url_command,
        command_for(true, "url_custom"@, command, upcase_command, url_command) == url_command,
        pattern != "url"@ && pattern != "markdown_url"@ && pattern != "url_custom"@ ==> command_for(
            true,
            pattern,
            command,
            upcase_command,
            url_command,
        ) == upcase_command,
{
}

} // verus!
