//! Text as sequences of characters, and the string operations that the
//! conversation with tmux is made of: splitting, trimming, replacing, joining.

use vstd::prelude::*;
use vstd::string::*;

verus! {

/// A piece of text: the characters of a string.
pub type Text = Seq<char>;

/// `String::push` appends the character to the string and changes nothing else.
pub assume_specification[ String::push ](s: &mut String, c: char)
    ensures
        final(s)@ == old(s)@.push(c),
;

/// The views of a list of strings.
pub open spec fn texts(list: Seq<String>) -> Seq<Text> {
    Seq::new(list.len(), |i: int| list[i]@)
}

/// The view of an optional string.
pub open spec fn opt_text(s: Option<String>) -> Option<Text> {
    match s {
        Some(s) => Some(s@),
        None => None,
    }
}

/// The text between the occurrences of `sep` in `s`, in order. With a limit of
/// `n > 0`, the first `n - 1` occurrences separate and the rest belong to the last
/// piece. There is always at least one piece.
pub open spec fn pieces(s: Text, sep: char, limit: Option<nat>) -> Seq<Text>
    decreases s.len(),
{
    if s.len() == 0 {
        seq![Seq::<char>::empty()]
    } else {
        let before = pieces(s.drop_last(), sep, limit);
        if s.last() == sep && (limit is None || before.len() < limit->0) {
            before.push(Seq::<char>::empty())
        } else {
            before.drop_last().push(before.last().push(s.last()))
        }
    }
}

/// The texts of a list with `sep` between each two neighbours.
pub open spec fn joined(list: Seq<Text>, sep: Text) -> Text
    decreases list.len(),
{
    if list.len() == 0 {
        Seq::empty()
    } else if list.len() == 1 {
        list[0]
    } else {
        joined(list.drop_last(), sep) + sep + list.last()
    }
}

/// `s` with every occurrence of `pat`, found from the left without overlap,
/// replaced by `to`.
pub open spec fn replaced(s: Text, pat: Text, to: Text) -> Text
    decreases s.len(),
{
    if pat.len() == 0 || s.len() < pat.len() {
        s
    } else if s.take(pat.len() as int) == pat {
        to + replaced(s.skip(pat.len() as int), pat, to)
    } else {
        seq![s[0]] + replaced(s.skip(1), pat, to)
    }
}

/// `s` begins with `prefix`.
pub open spec fn begins_with(s: Text, prefix: Text) -> bool {
    prefix.len() <= s.len() && s.take(prefix.len() as int) == prefix
}

/// The characters with the Unicode property White_Space.
pub open spec fn is_white_space(c: char) -> bool {
    ||| '\u{9}' <= c <= '\u{d}'
    ||| c == ' '
    ||| c == '\u{85}'
    ||| c == '\u{a0}'
    ||| c == '\u{1680}'
    ||| '\u{2000}' <= c <= '\u{200a}'
    ||| c == '\u{2028}'
    ||| c == '\u{2029}'
    ||| c == '\u{202f}'
    ||| c == '\u{205f}'
    ||| c == '\u{3000}'
}

/// `s` without the white space at its end.
pub open spec fn trimmed_end(s: Text) -> Text
    decreases s.len(),
{
    if s.len() > 0 && is_white_space(s.last()) {
        trimmed_end(s.drop_last())
    } else {
        s
    }
}

/// `s` without the white space at its start.
pub open spec fn trimmed_start(s: Text) -> Text
    decreases s.len(),
{
    if s.len() > 0 && is_white_space(s[0]) {
        trimmed_start(s.skip(1))
    } else {
        s
    }
}

/// `s` without the white space at its two ends.
pub open spec fn trimmed(s: Text) -> Text {
    trimmed_end(trimmed_start(s))
}

/// There is always a piece.
pub proof fn lemma_some_piece(s: Text, sep: char, limit: Option<nat>)
    ensures
        pieces(s, sep, limit).len() >= 1,
    decreases s.len(),
{
    if s.len() > 0 {
        lemma_some_piece(s.drop_last(), sep, limit);
    }
}

/// What comes after a text belongs to its last piece, if it does not separate: if it
/// holds no separator, or if there are as many pieces as there may be.
pub proof fn lemma_piece_grows(s: Text, more: Text, sep: char, limit: Option<nat>)
    requires
        (limit is Some && pieces(s, sep, limit).len() >= limit->0) || !more.contains(sep),
    ensures
        pieces(s + more, sep, limit) == pieces(s, sep, limit).drop_last().push(
            pieces(s, sep, limit).last() + more,
        ),
    decreases more.len(),
{
    let before = pieces(s, sep, limit);
    lemma_some_piece(s, sep, limit);
    if more.len() == 0 {
        assert(s + more =~= s);
        assert(before.last() + more =~= before.last());
        assert(before.drop_last().push(before.last()) =~= before);
    } else {
        let less = more.drop_last();
        assert((s + more).drop_last() =~= s + less);
        assert(more.contains(more.last()));
        assert(!more.contains(sep) ==> !less.contains(sep)) by {
            assert forall|i: int| 0 <= i < less.len() implies less[i] == more[i] by {
            }
        }
        lemma_piece_grows(s, less, sep, limit);
        let grown = before.drop_last().push(before.last() + less);
        assert(grown.drop_last() =~= before.drop_last());
        assert((before.last() + less).push(more.last()) =~= before.last() + more);
    }
}

/// A separator starts a new piece, if there may be one more.
pub proof fn lemma_piece_starts(s: Text, sep: char, limit: Option<nat>)
    requires
        limit is None || pieces(s, sep, limit).len() < limit->0,
    ensures
        pieces(s + seq![sep], sep, limit) == pieces(s, sep, limit).push(Seq::empty()),
{
    assert((s + seq![sep]).drop_last() =~= s);
}

/// A text without separators is one piece.
pub proof fn lemma_one_piece(s: Text, sep: char, limit: Option<nat>)
    requires
        !s.contains(sep),
    ensures
        pieces(s, sep, limit) == seq![s],
{
    let none = Seq::<char>::empty();
    lemma_piece_grows(none, s, sep, limit);
    assert(none + s =~= s);
    assert(pieces(none, sep, limit) =~= seq![none]);
    assert(seq![none].drop_last().push(s) =~= seq![s]);
}

/// Joining the pieces of a text with the separator gives the text back.
pub proof fn law_pieces_join_back(s: Text, sep: char, limit: Option<nat>)
    ensures
        joined(pieces(s, sep, limit), seq![sep]) == s,
    decreases s.len(),
{
    if s.len() > 0 {
        let start = s.drop_last();
        let before = pieces(start, sep, limit);
        let after = pieces(s, sep, limit);
        lemma_some_piece(start, sep, limit);
        law_pieces_join_back(start, sep, limit);
        assert(s =~= start.push(s.last()));
        assert(after.drop_last() =~= before || after.drop_last() =~= before.drop_last());
        if s.last() == sep && (limit is None || before.len() < limit->0) {
            assert(after.drop_last() =~= before);
            assert(joined(after, seq![sep]) =~= s);
        } else {
            assert(after.drop_last() =~= before.drop_last());
            assert(joined(after, seq![sep]) =~= joined(before, seq![sep]).push(s.last()));
        }
    }
}

/// Splitting joined texts gives the texts back, if none of them holds the separator.
pub proof fn law_joined_texts_come_back(list: Seq<Text>, sep: char)
    requires
        list.len() > 0,
        forall|i: int| 0 <= i < list.len() ==> !(#[trigger] list[i]).contains(sep),
    ensures
        pieces(joined(list, seq![sep]), sep, None) == list,
    decreases list.len(),
{
    if list.len() == 1 {
        lemma_one_piece(list[0], sep, None);
        assert(list =~= seq![list[0]]);
    } else {
        let start = list.drop_last();
        let before = joined(start, seq![sep]);
        law_joined_texts_come_back(start, sep);
        lemma_piece_starts(before, sep, None);
        lemma_piece_grows(before + seq![sep], list.last(), sep, None);
        assert(start.push(Seq::empty()).drop_last() =~= start);
        assert(Seq::<char>::empty() + list.last() =~= list.last());
        assert(start.push(list.last()) =~= list);
    }
}

/// Joining one text more puts the separator and that text behind the others.
pub proof fn law_joining_appends(list: Seq<Text>, text: Text, sep: Text)
    ensures
        joined(Seq::empty(), sep) == Seq::<char>::empty(),
        joined(seq![text], sep) == text,
        list.len() > 0 ==> joined(list.push(text), sep) == joined(list, sep) + sep + text,
{
    assert(list.push(text).drop_last() =~= list);
}

/// A piece holds no separator, unless it is the last one and there are as many pieces as
/// there may be.
pub proof fn law_pieces_hold_no_separator(s: Text, sep: char, limit: Option<nat>, i: int)
    requires
        limit is Some ==> limit->0 > 0,
        0 <= i < pieces(s, sep, limit).len(),
        limit is None || i + 1 < limit->0,
    ensures
        !pieces(s, sep, limit)[i].contains(sep),
        limit is Some ==> pieces(s, sep, limit).len() <= limit->0,
    decreases s.len(),
{
    if s.len() > 0 {
        let before = pieces(s.drop_last(), sep, limit);
        let piece = pieces(s, sep, limit)[i];
        lemma_some_piece(s.drop_last(), sep, limit);
        if i < before.len() {
            law_pieces_hold_no_separator(s.drop_last(), sep, limit, i);
            assert forall|k: int| 0 <= k < piece.len() implies piece[k] != sep by {
                if k < before[i].len() {
                    assert(before[i].contains(before[i][k]));
                }
            }
        } else {
            law_pieces_hold_no_separator(s.drop_last(), sep, limit, 0);
        }
    }
}

/// Splitting joined texts into at most `n` pieces gives the texts back, if there are no
/// more than `n` and none of them but the last of `n` holds the separator.
pub proof fn law_limited_texts_come_back(list: Seq<Text>, sep: char, n: nat)
    requires
        0 < list.len() <= n,
        forall|i: int|
            0 <= i < list.len() && i + 1 < n ==> !(#[trigger] list[i]).contains(sep),
    ensures
        pieces(joined(list, seq![sep]), sep, Some(n)) == list,
    decreases list.len(),
{
    let none = Seq::<char>::empty();
    if list.len() == 1 {
        lemma_piece_grows(none, list[0], sep, Some(n));
        assert(none + list[0] =~= list[0]);
        assert(pieces(none, sep, Some(n)) =~= seq![none]);
        assert(seq![none].drop_last().push(list[0]) =~= list);
    } else {
        let start = list.drop_last();
        let before = joined(start, seq![sep]);
        assert forall|i: int| 0 <= i < start.len() && i + 1 < n implies !(
        #[trigger] start[i]).contains(sep) by {
            assert(start[i] == list[i]);
        }
        law_limited_texts_come_back(start, sep, n);
        lemma_piece_starts(before, sep, Some(n));
        lemma_piece_grows(before + seq![sep], list.last(), sep, Some(n));
        assert(start.push(none).drop_last() =~= start);
        assert(none + list.last() =~= list.last());
        assert(start.push(list.last()) =~= list);
    }
}

/// What is trimmed off the end of a text is white space, all of it.
pub proof fn law_white_space_is_trimmed_off(s: Text, white: Text)
    requires
        forall|i: int| 0 <= i < white.len() ==> is_white_space(#[trigger] white[i]),
        s.len() > 0 ==> !is_white_space(s.last()),
    ensures
        trimmed_end(s + white) == s,
    decreases white.len(),
{
    if white.len() > 0 {
        let less = white.drop_last();
        assert((s + white).drop_last() =~= s + less);
        assert(white[white.len() - 1] == white.last());
        assert forall|i: int| 0 <= i < less.len() implies is_white_space(#[trigger] less[i]) by {
            assert(less[i] == white[i]);
        }
        law_white_space_is_trimmed_off(s, less);
    } else {
        assert(s + white =~= s);
    }
}

/// What is trimmed off the two ends of a text is white space, all of it.
pub proof fn law_white_space_is_trimmed_off_both(before: Text, s: Text, behind: Text)
    requires
        forall|i: int| 0 <= i < before.len() ==> is_white_space(#[trigger] before[i]),
        forall|i: int| 0 <= i < behind.len() ==> is_white_space(#[trigger] behind[i]),
        s.len() > 0 ==> !is_white_space(s[0]) && !is_white_space(s.last()),
    ensures
        trimmed(before + s + behind) == s,
    decreases before.len() + behind.len(),
{
    let all = before + s + behind;
    let none = Seq::<char>::empty();
    if before.len() > 0 {
        let less = before.skip(1);
        assert(all.skip(1) =~= less + s + behind);
        assert(all[0] == before[0]);
        assert forall|i: int| 0 <= i < less.len() implies is_white_space(#[trigger] less[i]) by {
            assert(less[i] == before[i + 1]);
        }
        law_white_space_is_trimmed_off_both(less, s, behind);
    } else if s.len() == 0 && behind.len() > 0 {
        let less = behind.skip(1);
        assert(all.skip(1) =~= none + s + less);
        assert(all[0] == behind[0]);
        assert forall|i: int| 0 <= i < less.len() implies is_white_space(#[trigger] less[i]) by {
            assert(less[i] == behind[i + 1]);
        }
        law_white_space_is_trimmed_off_both(none, s, less);
    } else {
        assert(all =~= s + behind);
        assert(trimmed_start(all) == all);
        law_white_space_is_trimmed_off(s, behind);
    }
}

/// A text begins with what was put before it, and with nothing else.
pub proof fn law_beginning_is_what_stands_first(prefix: Text, rest: Text, s: Text)
    ensures
        begins_with(prefix + rest, prefix),
        begins_with(s, prefix) ==> s == prefix + s.skip(prefix.len() as int),
{
    assert((prefix + rest).take(prefix.len() as int) =~= prefix);
    if begins_with(s, prefix) {
        assert(s =~= s.take(prefix.len() as int) + s.skip(prefix.len() as int));
    }
}

/// A pattern stands in a text at a place.
pub open spec fn stands(s: Text, pat: Text, at: int) -> bool {
    0 <= at && at + pat.len() <= s.len() && s.subrange(at, at + pat.len()) == pat
}

/// A text without a pattern is not changed by replacing it.
pub proof fn law_nothing_else_is_replaced(s: Text, pat: Text, to: Text)
    requires
        forall|at: int| !stands(s, pat, at),
    ensures
        replaced(s, pat, to) == s,
    decreases s.len(),
{
    if pat.len() > 0 && s.len() >= pat.len() {
        assert(!stands(s, pat, 0));
        assert(s.take(pat.len() as int) =~= s.subrange(0, pat.len() as int));
        assert forall|at: int| !stands(s.skip(1), pat, at) by {
            if stands(s.skip(1), pat, at) {
                assert(s.subrange(at + 1, at + 1 + pat.len()) =~= s.skip(1).subrange(
                    at,
                    at + pat.len(),
                ));
                assert(stands(s, pat, at + 1));
            }
        }
        law_nothing_else_is_replaced(s.skip(1), pat, to);
        assert(s =~= seq![s[0]] + s.skip(1));
    }
}

/// The first occurrence of a pattern is replaced, what stands before it is kept, and what
/// stands behind it is searched for more.
pub proof fn law_first_occurrence_is_replaced(before: Text, pat: Text, rest: Text, to: Text)
    requires
        pat.len() > 0,
        forall|at: int| 0 <= at < before.len() ==> !stands(before + pat + rest, pat, at),
    ensures
        replaced(before + pat + rest, pat, to) == before + to + replaced(rest, pat, to),
    decreases before.len(),
{
    let s = before + pat + rest;
    if before.len() == 0 {
        assert(s.take(pat.len() as int) =~= pat);
        assert(s.skip(pat.len() as int) =~= rest);
        assert(before + to + replaced(rest, pat, to) =~= to + replaced(rest, pat, to));
    } else {
        let less = before.skip(1);
        assert(s.skip(1) =~= less + pat + rest);
        assert(!stands(s, pat, 0));
        assert(s.take(pat.len() as int) =~= s.subrange(0, pat.len() as int));
        assert forall|at: int| 0 <= at < less.len() implies !stands(less + pat + rest, pat, at) by {
            if stands(s.skip(1), pat, at) {
                assert(s.subrange(at + 1, at + 1 + pat.len()) =~= s.skip(1).subrange(
                    at,
                    at + pat.len(),
                ));
                assert(stands(s, pat, at + 1));
            }
        }
        law_first_occurrence_is_replaced(less, pat, rest, to);
        assert(seq![before[0]] + (less + to + replaced(rest, pat, to)) =~= before + to + replaced(
            rest,
            pat,
            to,
        ));
    }
}

/// Trimming a trimmed text changes nothing.
pub proof fn law_trimmed_end_stays(s: Text)
    ensures
        trimmed_end(trimmed_end(s)) == trimmed_end(s),
    decreases s.len(),
{
    if s.len() > 0 && is_white_space(s.last()) {
        law_trimmed_end_stays(s.drop_last());
    }
}

/// Where a pattern of one character is taken out, that character does not occur any
/// more, unless the replacement holds it.
pub proof fn lemma_replaced_is_gone(s: Text, c: char, to: Text)
    requires
        !to.contains(c),
    ensures
        !replaced(s, seq![c], to).contains(c),
    decreases s.len(),
{
    let pat = seq![c];
    if s.len() > 0 {
        let rest = replaced(s.skip(1), pat, to);
        lemma_replaced_is_gone(s.skip(1), c, to);
        let new = replaced(s, pat, to);
        if s.take(1) == pat {
            assert(new == to + rest);
            assert forall|i: int| 0 <= i < new.len() implies new[i] != c by {
                if i < to.len() {
                    assert(to.contains(to[i]));
                } else {
                    assert(rest.contains(rest[i - to.len()]));
                }
            }
        } else {
            assert(s[0] != c) by {
                if s[0] == c {
                    assert(s.take(1) =~= pat);
                }
            }
            assert forall|i: int| 0 <= i < new.len() implies new[i] != c by {
                if i > 0 {
                    assert(rest.contains(rest[i - 1]));
                }
            }
        }
    }
}

/// The characters of a string, one by one.
pub fn chars_of(s: &str) -> (list: Vec<char>)
    ensures
        list@ == s@,
{
    let mut list: Vec<char> = Vec::new();
    for c in it: s.chars()
        invariant
            list@ == s@.take(it.index() as int),
            it.seq() == s@,
    {
        list.push(c);
    }
    list
}

/// The string of the characters from `from` up to `to`.
pub fn string_of(list: &Vec<char>, from: usize, to: usize) -> (s: String)
    requires
        from <= to <= list@.len(),
    ensures
        s@ == list@.subrange(from as int, to as int),
{
    let mut s = String::new();
    let mut i: usize = from;
    while i < to
        invariant
            from <= i <= to <= list@.len(),
            s@ == list@.subrange(from as int, i as int),
        decreases to - i,
    {
        s.push(list[i]);
        i += 1;
    }
    s
}

/// Whether two strings hold the same text.
pub fn same_text(a: &str, b: &str) -> (same: bool)
    ensures
        same == (a@ == b@),
{
    a.to_owned() == b.to_owned()
}

/// Whether `c` has the Unicode property White_Space.
pub fn white_space(c: char) -> (white: bool)
    ensures
        white == is_white_space(c),
{
    ('\u{9}' <= c && c <= '\u{d}') || c == ' ' || c == '\u{85}' || c == '\u{a0}' || c == '\u{1680}'
        || ('\u{2000}' <= c && c <= '\u{200a}') || c == '\u{2028}' || c == '\u{2029}' || c
        == '\u{202f}' || c == '\u{205f}' || c == '\u{3000}'
}

/// Splits a string at every `sep`.
pub fn split(s: &str, sep: char) -> (list: Vec<String>)
    ensures
        texts(list@) == pieces(s@, sep, None),
{
    split_limited(s, sep, None)
}

/// Splits a string at `sep` into at most `limit` pieces.
pub fn splitn(s: &str, limit: usize, sep: char) -> (list: Vec<String>)
    requires
        limit > 0,
    ensures
        texts(list@) == pieces(s@, sep, Some(limit as nat)),
{
    split_limited(s, sep, Some(limit))
}

/// The limit of a split as a number without bound.
pub open spec fn limit_of(limit: Option<usize>) -> Option<nat> {
    match limit {
        Some(n) => Some(n as nat),
        None => None,
    }
}

fn split_limited(s: &str, sep: char, limit: Option<usize>) -> (list: Vec<String>)
    ensures
        texts(list@) == pieces(s@, sep, limit_of(limit)),
{
    let chars = chars_of(s);
    let mut done: Vec<String> = Vec::new();
    let mut last = String::new();
    let mut i: usize = 0;
    assert(texts(done@).push(last@) =~= pieces(s@.take(0), sep, limit_of(limit)));
    while i < chars.len()
        invariant
            chars@ == s@,
            i <= chars@.len(),
            texts(done@).push(last@) == pieces(s@.take(i as int), sep, limit_of(limit)),
        decreases chars@.len() - i,
    {
        let c = chars[i];
        let ghost before = texts(done@).push(last@);
        let more = match limit {
            Some(n) => done.len() < n && done.len() + 1 < n,
            None => true,
        };
        proof {
            assert(s@.take(i + 1).drop_last() =~= s@.take(i as int));
            assert(before.len() == done@.len() + 1);
            assert(before.drop_last() =~= texts(done@));
        }
        if c == sep && more {
            done.push(last);
            last = String::new();
            assert(texts(done@) =~= before);
        } else {
            last.push(c);
        }
        i += 1;
    }
    done.push(last);
    assert(s@.take(s@.len() as int) =~= s@);
    assert(texts(done@) =~= texts(done@.drop_last()).push(done@.last()@));
    done
}

/// Joins strings with `sep` between each two neighbours.
pub fn join(list: &Vec<String>, sep: &str) -> (s: String)
    ensures
        s@ == joined(texts(list@), sep@),
{
    let mut s = String::new();
    let mut i: usize = 0;
    while i < list.len()
        invariant
            i <= list@.len(),
            s@ == joined(texts(list@).take(i as int), sep@),
        decreases list@.len() - i,
    {
        if i > 0 {
            s.append(sep);
        }
        s.append(list[i].as_str());
        assert(texts(list@).take(i + 1).drop_last() =~= texts(list@).take(i as int));
        assert(i == 0 ==> s@ =~= list@[0]@);
        i += 1;
    }
    assert(texts(list@).take(list@.len() as int) =~= texts(list@));
    s
}

/// Whether the characters from `at` on begin with `pat`.
fn matches_at(s: &Vec<char>, at: usize, pat: &Vec<char>) -> (found: bool)
    requires
        at <= s@.len(),
    ensures
        found == begins_with(s@.skip(at as int), pat@),
{
    let len: usize = s.len();
    if len - at < pat.len() {
        return false;
    }
    let mut k: usize = 0;
    while k < pat.len()
        invariant
            at + pat@.len() <= len == s@.len(),
            k <= pat@.len(),
            forall|j: int| 0 <= j < k ==> s@[at + j] == pat@[j],
        decreases pat@.len() - k,
    {
        if s[at + k] != pat[k] {
            assert(s@.skip(at as int).take(pat@.len() as int)[k as int] != pat@[k as int]);
            return false;
        }
        k += 1;
    }
    assert(s@.skip(at as int).take(pat@.len() as int) =~= pat@);
    true
}

/// Whether a string begins with `prefix`.
pub fn starts_with(s: &str, prefix: &str) -> (found: bool)
    ensures
        found == begins_with(s@, prefix@),
{
    let s = chars_of(s);
    let prefix = chars_of(prefix);
    assert(s@.skip(0) =~= s@);
    matches_at(&s, 0, &prefix)
}

/// Replaces every occurrence of `pat` by `to`.
pub fn replace(s: &str, pat: &str, to: &str) -> (new: String)
    requires
        pat@.len() > 0,
    ensures
        new@ == replaced(s@, pat@, to@),
{
    let chars = chars_of(s);
    let pattern = chars_of(pat);
    let mut new = String::new();
    let mut i: usize = 0;
    assert(chars@.skip(0) =~= chars@);
    while i < chars.len()
        invariant
            chars@ == s@,
            pattern@ == pat@,
            pat@.len() > 0,
            i <= chars@.len(),
            new@ + replaced(chars@.skip(i as int), pat@, to@) =~= replaced(s@, pat@, to@),
        decreases chars@.len() - i,
    {
        let ghost rest = chars@.skip(i as int);
        if matches_at(&chars, i, &pattern) {
            new.append(to);
            assert(rest.skip(pat@.len() as int) =~= chars@.skip(i + pat@.len()));
            i += pattern.len();
        } else {
            new.push(chars[i]);
            assert(rest.skip(1) =~= chars@.skip(i + 1));
            proof {
                if rest.len() < pat@.len() {
                    assert(rest =~= seq![rest[0]] + rest.skip(1));
                }
            }
            i += 1;
        }
    }
    assert(chars@.skip(i as int) =~= Seq::<char>::empty());
    new
}

/// Drops the white space at the end.
pub fn trim_end(s: &str) -> (new: String)
    ensures
        new@ == trimmed_end(s@),
{
    let chars = chars_of(s);
    let mut end: usize = chars.len();
    assert(s@.take(s@.len() as int) =~= s@);
    while end > 0 && white_space(chars[end - 1])
        invariant
            chars@ == s@,
            end <= chars@.len(),
            trimmed_end(s@.take(end as int)) == trimmed_end(s@),
        decreases end,
    {
        assert(s@.take(end as int).drop_last() =~= s@.take(end - 1));
        end -= 1;
    }
    assert(s@.subrange(0, end as int) =~= s@.take(end as int));
    string_of(&chars, 0, end)
}

/// Drops the white space at both ends.
pub fn trim(s: &str) -> (new: String)
    ensures
        new@ == trimmed(s@),
{
    let chars = chars_of(s);
    let mut start: usize = 0;
    assert(s@.skip(0) =~= s@);
    while start < chars.len() && white_space(chars[start])
        invariant
            chars@ == s@,
            start <= chars@.len(),
            trimmed_start(s@.skip(start as int)) == trimmed_start(s@),
        decreases chars@.len() - start,
    {
        assert(s@.skip(start as int).skip(1) =~= s@.skip(start + 1));
        start += 1;
    }
    assert(s@.subrange(start as int, s@.len() as int) =~= s@.skip(start as int));
    let rest = string_of(&chars, start, chars.len());
    trim_end(rest.as_str())
}

/// Drops the empty strings of a list.
pub fn without_empty(list: Vec<String>) -> (kept: Vec<String>)
    ensures
        texts(kept@) == texts(list@).filter(|t: Text| t.len() > 0),
{
    let ghost full = |t: Text| t.len() > 0;
    let mut kept: Vec<String> = Vec::new();
    let mut i: usize = 0;
    assert(texts(kept@) =~= texts(list@).take(0).filter(full));
    while i < list.len()
        invariant
            full == (|t: Text| t.len() > 0),
            i <= list@.len(),
            texts(kept@) == texts(list@).take(i as int).filter(full),
        decreases list@.len() - i,
    {
        let ghost before = texts(kept@);
        proof {
            reveal(Seq::filter);
            assert(texts(list@).take(i + 1).drop_last() =~= texts(list@).take(i as int));
        }
        if !list[i].as_str().is_empty() {
            kept.push(list[i].clone());
            assert(texts(kept@) =~= before.push(list@[i as int]@));
        }
        i += 1;
    }
    assert(texts(list@).take(list@.len() as int) =~= texts(list@));
    kept
}

} // verus!
