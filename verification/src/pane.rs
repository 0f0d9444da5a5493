//! Reading what tmux says of panes.

use crate::error::SwapError;
use crate::number::{all_digits, law_numbers_are_read_from_digits, parse_i32, parsed_i32};
use crate::text::{
    is_white_space, joined, law_joined_texts_come_back, law_white_space_is_trimmed_off_both, pieces,
    same_text, split, texts, trim, trimmed, Text,
};
use vstd::prelude::*;
use vstd::string::*;

verus! {

/// The fields of a line of the pane listing.
pub open spec fn fields(row: Text) -> Seq<Text> {
    pieces(row, ':', None)
}

/// The fields of the first line whose sixth field is `active`. Each line up to that
/// one has to have six fields.
pub open spec fn active_fields(rows: Seq<Text>) -> Result<Seq<Text>, SwapError>
    decreases rows.len(),
{
    if rows.len() == 0 {
        Err(SwapError::ActivePane)
    } else if fields(rows[0]).len() < 6 {
        Err(SwapError::PaneRow)
    } else if fields(rows[0])[5] == "active"@ {
        Ok(fields(rows[0]))
    } else {
        active_fields(rows.skip(1))
    }
}

/// The fields of the active pane in a pane listing.
pub open spec fn active_pane(listing: Text) -> Result<Seq<Text>, SwapError> {
    active_fields(pieces(listing, '\n', None))
}

/// Finds the active pane in a pane listing.
pub fn find_active_pane(listing: &str) -> (found: Result<Vec<String>, SwapError>)
    ensures
        match found {
            Ok(list) => active_pane(listing@) == Ok::<Seq<Text>, SwapError>(texts(list@))
                && list@.len() >= 6,
            Err(e) => active_pane(listing@) == Err::<Seq<Text>, SwapError>(e),
        },
{
    let rows = split(listing, '\n');
    let ghost all = texts(rows@);
    let mut i: usize = 0;
    assert(all.skip(0) =~= all);
    while i < rows.len()
        invariant
            all == texts(rows@),
            i <= rows@.len(),
            active_pane(listing@) == active_fields(all.skip(i as int)),
        decreases rows@.len() - i,
    {
        let list = split(rows[i].as_str(), ':');
        assert(all.skip(i as int)[0] == rows@[i as int]@);
        assert(all.skip(i as int).skip(1) =~= all.skip(i + 1));
        if list.len() < 6 {
            return Err(SwapError::PaneRow);
        }
        assert(texts(list@)[5] == list@[5]@);
        if same_text(list[5].as_str(), "active") {
            return Ok(list);
        }
        i += 1;
    }
    Err(SwapError::ActivePane)
}

/// The numbers of a list of texts, if each of them is one.
pub open spec fn parsed_all(list: Seq<Text>) -> Option<Seq<i32>>
    decreases list.len(),
{
    if list.len() == 0 {
        Some(Seq::empty())
    } else {
        match (parsed_all(list.drop_last()), parsed_i32(list.last())) {
            (Some(before), Some(n)) => Some(before.push(n)),
            _ => None,
        }
    }
}

/// The column and the row that a cursor report holds: numbers with a colon between
/// them, at least two.
pub open spec fn parsed_cursor(report: Text) -> Option<(i32, i32)> {
    match parsed_all(fields(trimmed(report))) {
        Some(numbers) => if numbers.len() >= 2 {
            Some((numbers[0], numbers[1]))
        } else {
            None
        },
        None => None,
    }
}

/// A list with a prefix that does not hold numbers alone does not either.
proof fn lemma_parsed_prefix(list: Seq<Text>, n: int)
    requires
        0 <= n <= list.len(),
        parsed_all(list.take(n)) is None,
    ensures
        parsed_all(list) is None,
    decreases list.len(),
{
    if n < list.len() {
        assert(list.drop_last().take(n) =~= list.take(n));
        lemma_parsed_prefix(list.drop_last(), n);
    } else {
        assert(list.take(n) =~= list);
    }
}

/// Reads a cursor report.
pub fn parse_cursor(report: &str) -> (cursor: Option<(i32, i32)>)
    ensures
        cursor == parsed_cursor(report@),
{
    let bare = trim(report);
    let list = split(bare.as_str(), ':');
    let ghost all = texts(list@);
    let mut numbers: Vec<i32> = Vec::new();
    let mut i: usize = 0;
    assert(all.take(0) =~= Seq::<Text>::empty());
    while i < list.len()
        invariant
            all == texts(list@),
            all == fields(trimmed(report@)),
            i <= list@.len(),
            parsed_all(all.take(i as int)) == Some(numbers@),
        decreases list@.len() - i,
    {
        assert(all.take(i + 1).drop_last() =~= all.take(i as int));
        match parse_i32(list[i].as_str()) {
            Some(n) => {
                numbers.push(n);
            },
            None => {
                proof {
                    lemma_parsed_prefix(all, i + 1);
                }
                return None;
            },
        }
        i += 1;
    }
    assert(all.take(all.len() as int) =~= all);
    if numbers.len() >= 2 {
        Some((numbers[0], numbers[1]))
    } else {
        None
    }
}

/// The number at a place of a list; zero where there is none.
pub open spec fn number_at(list: Seq<Text>, i: int) -> i32 {
    if 0 <= i < list.len() && parsed_i32(list[i]) is Some {
        parsed_i32(list[i])->0
    } else {
        0
    }
}

/// The row of the cursor and the scroll position in a position report, which holds
/// the column, the row and the scroll position of the copy mode. What cannot be
/// read counts as zero.
pub open spec fn parsed_position(report: Text) -> (i32, i32) {
    (number_at(fields(trimmed(report)), 1), number_at(fields(trimmed(report)), 2))
}

/// Reads a position report.
pub fn parse_position(report: &str) -> (position: (i32, i32))
    ensures
        position == parsed_position(report@),
{
    let bare = trim(report);
    let list = split(bare.as_str(), ':');
    (number_or_zero(&list, 1), number_or_zero(&list, 2))
}

fn number_or_zero(list: &Vec<String>, i: usize) -> (n: i32)
    ensures
        n == number_at(texts(list@), i as int),
{
    if i < list.len() {
        assert(texts(list@)[i as int] == list@[i as int]@);
        match parse_i32(list[i].as_str()) {
            Some(n) => n,
            None => 0,
        }
    } else {
        0
    }
}

/// The fields of a line are its columns.
pub proof fn law_fields_are_the_columns(columns: Seq<Text>)
    requires
        columns.len() > 0,
        forall|i: int| 0 <= i < columns.len() ==> !(#[trigger] columns[i]).contains(':'),
    ensures
        fields(joined(columns, seq![':'])) == columns,
{
    law_joined_texts_come_back(columns, ':');
}

proof fn lemma_rows_are_skipped(rows: Seq<Text>, k: int)
    requires
        0 <= k <= rows.len(),
        forall|i: int|
            0 <= i < k ==> fields(#[trigger] rows[i]).len() >= 6 && fields(rows[i])[5]
                != "active"@,
    ensures
        active_fields(rows) == active_fields(rows.skip(k)),
    decreases k,
{
    if k > 0 {
        let rest = rows.skip(1);
        assert(fields(rows[0])[5] != "active"@);
        assert forall|i: int| 0 <= i < k - 1 implies fields(#[trigger] rest[i]).len() >= 6
            && fields(rest[i])[5] != "active"@ by {
            assert(rest[i] == rows[i + 1]);
        }
        lemma_rows_are_skipped(rest, k - 1);
        assert(rest.skip(k - 1) =~= rows.skip(k));
    } else {
        assert(rows.skip(0) =~= rows);
    }
}

/// Lines without line breaks.
pub open spec fn are_lines(rows: Seq<Text>) -> bool {
    rows.len() > 0 && forall|i: int| 0 <= i < rows.len() ==> !(#[trigger] rows[i]).contains('\n')
}

/// The first `k` lines of a listing are those of other panes.
pub open spec fn are_others(rows: Seq<Text>, k: int) -> bool {
    0 <= k <= rows.len() && forall|i: int|
        0 <= i < k ==> fields(#[trigger] rows[i]).len() >= 6 && fields(rows[i])[5] != "active"@
}

/// The active pane is found in whichever line it stands, the last one too. What comes after
/// that line does not matter.
pub proof fn law_active_pane_is_found(rows: Seq<Text>, k: int)
    requires
        are_lines(rows),
        are_others(rows, k),
        k < rows.len(),
        fields(rows[k]).len() >= 6,
        fields(rows[k])[5] == "active"@,
    ensures
        active_pane(joined(rows, seq!['\n'])) == Ok::<Seq<Text>, SwapError>(fields(rows[k])),
{
    law_joined_texts_come_back(rows, '\n');
    lemma_rows_are_skipped(rows, k);
    assert(rows.skip(k)[0] == rows[k]);
}

/// A line that lacks fields is an error, if no line before it is that of the active pane.
pub proof fn law_short_line_is_refused(rows: Seq<Text>, k: int)
    requires
        are_lines(rows),
        are_others(rows, k),
        k < rows.len(),
        fields(rows[k]).len() < 6,
    ensures
        active_pane(joined(rows, seq!['\n'])) == Err::<Seq<Text>, SwapError>(SwapError::PaneRow),
{
    law_joined_texts_come_back(rows, '\n');
    lemma_rows_are_skipped(rows, k);
    assert(rows.skip(k)[0] == rows[k]);
}

/// Without an active pane there is an error.
pub proof fn law_active_pane_is_missed(rows: Seq<Text>)
    requires
        are_lines(rows),
        are_others(rows, rows.len() as int),
    ensures
        active_pane(joined(rows, seq!['\n'])) == Err::<Seq<Text>, SwapError>(SwapError::ActivePane),
{
    law_joined_texts_come_back(rows, '\n');
    lemma_rows_are_skipped(rows, rows.len() as int);
}

proof fn lemma_joined_ends(list: Seq<Text>, sep: Text)
    requires
        list.len() > 0,
        list[0].len() > 0,
        list.last().len() > 0,
    ensures
        joined(list, sep).len() > 0,
        joined(list, sep)[0] == list[0][0],
        joined(list, sep).last() == list.last().last(),
    decreases list.len(),
{
    if list.len() > 1 {
        lemma_joined_start(list.drop_last(), sep);
    }
}

proof fn lemma_joined_start(list: Seq<Text>, sep: Text)
    requires
        list.len() > 0,
        list[0].len() > 0,
    ensures
        joined(list, sep).len() > 0,
        joined(list, sep)[0] == list[0][0],
    decreases list.len(),
{
    if list.len() > 1 {
        lemma_joined_start(list.drop_last(), sep);
    }
}

/// A text that is a number holds no colon and neither begins nor ends with white space.
proof fn lemma_number_text(s: Text)
    requires
        parsed_i32(s) is Some,
    ensures
        s.len() > 0,
        !s.contains(':'),
        !is_white_space(s[0]),
        !is_white_space(s.last()),
{
    law_numbers_are_read_from_digits(s);
    assert forall|i: int| 0 <= i < s.len() implies s[i] == '-' || s[i] == '+' || '0' <= s[i]
        <= '9' by {
        if !all_digits(s) && i > 0 {
            assert(s.skip(1)[i - 1] == s[i]);
        }
    }
}

proof fn lemma_all_parsed(list: Seq<Text>)
    requires
        forall|i: int| 0 <= i < list.len() ==> parsed_i32(#[trigger] list[i]) is Some,
    ensures
        parsed_all(list) is Some,
        parsed_all(list)->0.len() == list.len(),
        forall|i: int|
            0 <= i < list.len() ==> #[trigger] parsed_all(list)->0[i] == parsed_i32(list[i])->0,
    decreases list.len(),
{
    if list.len() > 0 {
        let less = list.drop_last();
        assert forall|i: int| 0 <= i < less.len() implies parsed_i32(#[trigger] less[i]) is Some by {
            assert(less[i] == list[i]);
        }
        lemma_all_parsed(less);
        assert(list[list.len() - 1] == list.last());
        assert forall|i: int| 0 <= i < list.len() implies #[trigger] parsed_all(list)->0[i]
            == parsed_i32(list[i])->0 by {
            if i < less.len() {
                assert(less[i] == list[i]);
                assert(parsed_all(less)->0[i] == parsed_i32(less[i])->0);
            }
        }
    }
}

/// A report of numbers, two at least, is read as the first two of them. White space around
/// it does not matter.
pub proof fn law_cursor_report_is_read(
    before: Text,
    numbers: Seq<Text>,
    behind: Text,
    x: i32,
    y: i32,
)
    requires
        forall|i: int| 0 <= i < before.len() ==> is_white_space(#[trigger] before[i]),
        forall|i: int| 0 <= i < behind.len() ==> is_white_space(#[trigger] behind[i]),
        numbers.len() >= 2,
        forall|i: int| 0 <= i < numbers.len() ==> parsed_i32(#[trigger] numbers[i]) is Some,
        parsed_i32(numbers[0]) == Some(x),
        parsed_i32(numbers[1]) == Some(y),
    ensures
        parsed_cursor(before + joined(numbers, seq![':']) + behind) == Some((x, y)),
{
    let s = joined(numbers, seq![':']);
    lemma_number_text(numbers[0]);
    assert(numbers[numbers.len() - 1] == numbers.last());
    lemma_number_text(numbers.last());
    lemma_joined_ends(numbers, seq![':']);
    law_white_space_is_trimmed_off_both(before, s, behind);
    assert forall|i: int| 0 <= i < numbers.len() implies !(#[trigger] numbers[i]).contains(':') by {
        lemma_number_text(numbers[i]);
    }
    law_fields_are_the_columns(numbers);
    lemma_all_parsed(numbers);
}

/// A report with less than two fields, or with one that is not a number, is not read.
pub proof fn law_bad_cursor_report_is_refused(list: Seq<Text>, i: int)
    requires
        list.len() > 0,
        forall|k: int| 0 <= k < list.len() ==> !(#[trigger] list[k]).contains(':'),
        trimmed(joined(list, seq![':'])) == joined(list, seq![':']),
        list.len() < 2 || (0 <= i < list.len() && parsed_i32(list[i]) is None),
    ensures
        parsed_cursor(joined(list, seq![':'])) is None,
{
    law_fields_are_the_columns(list);
    if 0 <= i < list.len() && parsed_i32(list[i]) is None {
        assert(list.take(i + 1).last() == list[i]);
        lemma_parsed_prefix(list, i + 1);
    } else {
        lemma_parsed_len(list);
    }
}

proof fn lemma_parsed_len(list: Seq<Text>)
    ensures
        parsed_all(list) is Some ==> parsed_all(list)->0.len() == list.len(),
    decreases list.len(),
{
    if list.len() > 0 {
        lemma_parsed_len(list.drop_last());
    }
}

/// Of a position report the second and the third field count: the row and the scroll
/// position. What is missing or is not a number counts as zero.
pub proof fn law_position_report_is_read(list: Seq<Text>)
    requires
        list.len() > 0,
        forall|k: int| 0 <= k < list.len() ==> !(#[trigger] list[k]).contains(':'),
        trimmed(joined(list, seq![':'])) == joined(list, seq![':']),
    ensures
        parsed_position(joined(list, seq![':'])).0 == (if list.len() > 1 && parsed_i32(
            list[1],
        ) is Some {
            parsed_i32(list[1])->0
        } else {
            0
        }),
        parsed_position(joined(list, seq![':'])).1 == (if list.len() > 2 && parsed_i32(
            list[2],
        ) is Some {
            parsed_i32(list[2])->0
        } else {
            0
        }),
{
    law_fields_are_the_columns(list);
}

/// A position report of three numbers is read, white space around it or not.
pub proof fn law_full_position_report_is_read(
    before: Text,
    column: Text,
    row: Text,
    scroll: Text,
    behind: Text,
    from: i32,
    now: i32,
)
    requires
        forall|i: int| 0 <= i < before.len() ==> is_white_space(#[trigger] before[i]),
        forall|i: int| 0 <= i < behind.len() ==> is_white_space(#[trigger] behind[i]),
        parsed_i32(column) is Some,
        parsed_i32(row) == Some(from),
        parsed_i32(scroll) == Some(now),
    ensures
        parsed_position(before + joined(seq![column, row, scroll], seq![':']) + behind) == (
            from,
            now,
        ),
{
    let list = seq![column, row, scroll];
    lemma_number_text(column);
    lemma_number_text(row);
    lemma_number_text(scroll);
    lemma_joined_ends(list, seq![':']);
    law_white_space_is_trimmed_off_both(before, joined(list, seq![':']), behind);
    law_fields_are_the_columns(list);
}

} // verus!
