//! Quoting for the shell.

use crate::text::{replace, replaced, Text};
use vstd::prelude::*;
use vstd::string::*;

verus! {

/// The text in single quotes, with each single quote in it taken out of them and
/// escaped.
pub open spec fn shell_quoted(value: Text) -> Text {
    "'"@ + replaced(value, "'"@, "'\\''"@) + "'"@
}

/// Quotes a value for the shell.
pub fn shell_quote(value: &str) -> (quoted: String)
    ensures
        quoted@ == shell_quoted(value@),
{
    proof {
        reveal_strlit("'");
    }
    let inner = replace(value, "'", "'\\''");
    "'".to_owned().concat(inner.as_str()).concat("'")
}

/// The value of a shell word that is written with single quotes and backslashes
/// alone. Between single quotes each character stands for itself; outside of them a
/// backslash makes the next character stand for itself, and a word that holds
/// anything else, or ends inside quotes, has no value here.
pub open spec fn word_value(word: Text, quoted: bool) -> Option<Text>
    decreases word.len(),
{
    if word.len() == 0 {
        if quoted {
            None
        } else {
            Some(Seq::empty())
        }
    } else if word[0] == '\'' {
        word_value(word.skip(1), !quoted)
    } else if quoted {
        match word_value(word.skip(1), true) {
            Some(rest) => Some(seq![word[0]] + rest),
            None => None,
        }
    } else if word[0] == '\\' && word.len() > 1 {
        match word_value(word.skip(2), false) {
            Some(rest) => Some(seq![word[1]] + rest),
            None => None,
        }
    } else {
        None
    }
}

proof fn lemma_quoted_inner(value: Text)
    ensures
        word_value(replaced(value, "'"@, "'\\''"@) + "'"@, true) == Some(value),
    decreases value.len(),
{
    reveal_strlit("'");
    reveal_strlit("'\\''");
    let pat = "'"@;
    let to = "'\\''"@;
    assert(pat =~= seq!['\'']);
    assert(to =~= seq!['\'', '\\', '\'', '\'']);
    let word = replaced(value, pat, to) + pat;
    if value.len() == 0 {
        assert(word =~= seq!['\'']);
        assert(word.skip(1) =~= Seq::<char>::empty());
        assert(value =~= Seq::<char>::empty());
        assert(word_value(word.skip(1), false) == Some(Seq::<char>::empty()));
    } else {
        let rest = value.skip(1);
        let tail = replaced(rest, pat, to) + pat;
        lemma_quoted_inner(rest);
        assert(value =~= seq![value[0]] + rest);
        if value[0] == '\'' {
            assert(value.take(1) =~= pat);
            assert(word =~= to + tail);
            assert(word.skip(1).skip(2).skip(1) =~= tail);
            assert(word.skip(1)[0] == '\\');
            assert(word.skip(1)[1] == '\'');
            assert(word.skip(1).skip(2)[0] == '\'');
            assert(word_value(word.skip(1).skip(2), false) == Some(rest));
        } else {
            assert(value.take(1)[0] != pat[0]);
            assert(word =~= seq![value[0]] + tail);
            assert(word.skip(1) =~= tail);
        }
    }
}

/// The shell reads a quoted value back as the value, whatever it holds.
pub proof fn law_quoted_value_is_read_back(value: Text)
    ensures
        word_value(shell_quoted(value), false) == Some(value),
{
    reveal_strlit("'");
    lemma_quoted_inner(value);
    let inner = replaced(value, "'"@, "'\\''"@) + "'"@;
    assert(shell_quoted(value) =~= seq!['\''] + inner);
    assert(shell_quoted(value).skip(1) =~= inner);
}

} // verus!
