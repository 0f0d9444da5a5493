//! Decimal numbers: how they are written into commands and read from replies.

use crate::text::{chars_of, Text};
use vstd::prelude::*;
use vstd::string::*;

verus! {

/// `c` is one of the ten ASCII digits.
pub open spec fn is_digit(c: char) -> bool {
    '0' <= c <= '9'
}

/// The character of the digit `d`.
pub open spec fn digit_char(d: nat) -> char {
    ('0' as nat + d) as char
}

/// The number that a run of digits stands for; none if another character occurs.
pub open spec fn digits_value(s: Text) -> Option<nat>
    decreases s.len(),
{
    if s.len() == 0 {
        Some(0)
    } else {
        match digits_value(s.drop_last()) {
            Some(v) => if is_digit(s.last()) {
                Some((10 * v + (s.last() as nat - '0' as nat)) as nat)
            } else {
                None
            },
            None => None,
        }
    }
}

/// The digits of a number text: what follows the sign, if there is one.
pub open spec fn unsigned_part(s: Text) -> Text {
    if s.len() > 0 && (s[0] == '-' || s[0] == '+') {
        s.skip(1)
    } else {
        s
    }
}

/// The number that a text stands for: an optional sign and at least one digit,
/// with a value that fits.
pub open spec fn parsed_i32(s: Text) -> Option<i32> {
    match digits_value(unsigned_part(s)) {
        Some(v) => {
            let n = if s.len() > 0 && s[0] == '-' {
                -(v as int)
            } else {
                v as int
            };
            if unsigned_part(s).len() > 0 && i32::MIN <= n <= i32::MAX {
                Some(n as i32)
            } else {
                None
            }
        },
        None => None,
    }
}

/// The decimal digits of a number without sign, the first one not zero unless it
/// is the only one.
pub open spec fn decimal_digits(n: nat) -> Text
    decreases n,
{
    if n < 10 {
        seq![digit_char(n)]
    } else {
        decimal_digits(n / 10).push(digit_char(n % 10))
    }
}

/// The decimal text of a number.
pub open spec fn decimal(n: int) -> Text {
    if n < 0 {
        seq!['-'] + decimal_digits((-n) as nat)
    } else {
        decimal_digits(n as nat)
    }
}

/// Reads a number.
pub fn parse_i32(s: &str) -> (number: Option<i32>)
    ensures
        number == parsed_i32(s@),
{
    let chars = chars_of(s);
    let signed = chars.len() > 0 && (chars[0] == '-' || chars[0] == '+');
    let start: usize = if signed { 1 } else { 0 };
    let ghost digits = unsigned_part(s@);
    if start == chars.len() {
        return None;
    }
    let mut value: i64 = 0;
    let mut i: usize = start;
    assert(digits.take(0) =~= Seq::<char>::empty());
    while i < chars.len()
        invariant
            chars@ == s@,
            digits == unsigned_part(s@),
            start <= i <= chars@.len(),
            digits =~= chars@.skip(start as int),
            digits_value(digits.take(i - start)) matches Some(v) && (v == value || (v > value
                > 3_000_000_000)),
            0 <= value <= 30_000_000_009,
        decreases chars@.len() - i,
    {
        let c = chars[i];
        proof {
            assert(digits.take(i - start + 1).drop_last() =~= digits.take(i - start));
            assert(digits.take(i - start + 1).last() == c);
        }
        if c < '0' || c > '9' {
            proof {
                lemma_digits_prefix(digits, i - start + 1);
            }
            return None;
        }
        if value <= 3_000_000_000 {
            value = value * 10 + (c as i64 - '0' as i64);
        }
        i += 1;
    }
    assert(digits.take(digits.len() as int) =~= digits);
    let number: i64 = if signed && chars[0] == '-' { -value } else { value };
    if -2_147_483_648 <= number && number <= 2_147_483_647 {
        Some(number as i32)
    } else {
        None
    }
}

/// A text with a prefix that is not made of digits is not made of digits.
proof fn lemma_digits_prefix(s: Text, n: int)
    requires
        0 <= n <= s.len(),
        digits_value(s.take(n)) is None,
    ensures
        digits_value(s) is None,
    decreases s.len(),
{
    if n < s.len() {
        assert(s.drop_last().take(n) =~= s.take(n));
        lemma_digits_prefix(s.drop_last(), n);
    } else {
        assert(s.take(n) =~= s);
    }
}

/// The digits of a number are digits, and stand for it.
pub proof fn lemma_decimal_digits(n: nat)
    ensures
        digits_value(decimal_digits(n)) == Some(n),
        decimal_digits(n).len() > 0,
        forall|i: int|
            0 <= i < decimal_digits(n).len() ==> is_digit(#[trigger] decimal_digits(n)[i]),
    decreases n,
{
    let s = decimal_digits(n);
    if n < 10 {
        assert(s.drop_last() =~= Seq::<char>::empty());
        assert(digits_value(s.drop_last()) == Some(0nat));
    } else {
        lemma_decimal_digits(n / 10);
        assert(s.drop_last() =~= decimal_digits(n / 10));
    }
}

/// A number that was written is read back.
pub proof fn law_number_is_read_back(n: i32)
    ensures
        parsed_i32(decimal(n as int)) == Some(n),
{
    let s = decimal(n as int);
    if n < 0 {
        lemma_decimal_digits((-n) as nat);
        assert(s.skip(1) =~= decimal_digits((-n) as nat));
    } else {
        lemma_decimal_digits(n as nat);
        assert(is_digit(s[0]));
    }
}

/// A number is written digit by digit, with a sign before it if it is negative.
pub proof fn law_numbers_are_written_in_digits(n: nat, d: nat)
    requires
        d < 10,
    ensures
        decimal(d as int) == seq![('0' as nat + d) as char],
        n > 0 ==> decimal((10 * n + d) as int) == decimal(n as int).push(('0' as nat + d) as char),
        n > 0 ==> decimal(-(n as int)) == seq!['-'] + decimal(n as int),
{
    assert((10 * n + d) / 10 == n);
    assert((10 * n + d) % 10 == d);
}

/// A text of digits.
pub open spec fn all_digits(s: Text) -> bool {
    s.len() > 0 && forall|i: int| 0 <= i < s.len() ==> '0' <= #[trigger] s[i] <= '9'
}

proof fn lemma_digits_have_a_value(s: Text)
    requires
        forall|i: int| 0 <= i < s.len() ==> '0' <= #[trigger] s[i] <= '9',
    ensures
        digits_value(s) is Some,
        digits_value(seq!['0'] + s) == digits_value(s),
    decreases s.len(),
{
    let z = seq!['0'] + s;
    if s.len() > 0 {
        let less = s.drop_last();
        assert forall|i: int| 0 <= i < less.len() implies '0' <= #[trigger] less[i] <= '9' by {
            assert(less[i] == s[i]);
        }
        lemma_digits_have_a_value(less);
        assert(z.drop_last() =~= seq!['0'] + less);
        assert(s[s.len() - 1] == s.last());
    } else {
        assert(z.drop_last() =~= s);
        assert(digits_value(z.drop_last()) == Some(0nat));
    }
}

proof fn lemma_valued_is_digits(s: Text, i: int)
    requires
        digits_value(s) is Some,
        0 <= i < s.len(),
    ensures
        '0' <= s[i] <= '9',
    decreases s.len(),
{
    if i < s.len() - 1 {
        lemma_valued_is_digits(s.drop_last(), i);
    }
}

/// A number is digits, with a sign before them or without one; leading zeros and a plus
/// sign make no difference, and a minus sign makes the number negative.
pub proof fn law_numbers_are_read_from_digits(s: Text)
    ensures
        parsed_i32(s) is Some ==> all_digits(s) || (s.len() > 1 && (s[0] == '-' || s[0] == '+')
            && all_digits(s.skip(1))),
        all_digits(s) ==> parsed_i32(seq!['0'] + s) == parsed_i32(s),
        all_digits(s) ==> parsed_i32(seq!['+'] + s) == parsed_i32(s),
        all_digits(s) && parsed_i32(s) is Some ==> parsed_i32(seq!['-'] + s) == Some(
            (-(parsed_i32(s)->0)) as i32,
        ),
{
    let digits = unsigned_part(s);
    if parsed_i32(s) is Some {
        assert forall|i: int| 0 <= i < digits.len() implies '0' <= #[trigger] digits[i] <= '9' by {
            lemma_valued_is_digits(digits, i);
        }
    }
    if all_digits(s) {
        assert('0' <= s[0] <= '9');
        lemma_digits_have_a_value(s);
        assert((seq!['+'] + s).skip(1) =~= s);
        assert((seq!['-'] + s).skip(1) =~= s);
    }
}

/// A number that does not fit is not read.
pub proof fn law_large_numbers_are_refused(n: int)
    requires
        n < i32::MIN || n > i32::MAX,
    ensures
        parsed_i32(decimal(n)) is None,
{
    let s = decimal(n);
    if n < 0 {
        lemma_decimal_digits((-n) as nat);
        assert(s.skip(1) =~= decimal_digits((-n) as nat));
    } else {
        lemma_decimal_digits(n as nat);
        assert(is_digit(s[0]));
    }
}

/// Different numbers are written differently.
pub proof fn law_decimals_differ(a: nat, b: nat)
    requires
        decimal(a as int) == decimal(b as int),
    ensures
        a == b,
{
    lemma_decimal_digits(a);
    lemma_decimal_digits(b);
}

/// The character of a digit.
fn digit(d: u64) -> (c: char)
    requires
        d < 10,
    ensures
        c == digit_char(d as nat),
{
    (48u8 + d as u8) as char
}

/// Writes a number without sign.
pub fn unsigned_to_string(n: u64) -> (s: String)
    ensures
        s@ == decimal(n as int),
    decreases n,
{
    if n < 10 {
        let mut s = String::new();
        s.push(digit(n));
        assert(s@ =~= seq![digit_char(n as nat)]);
        s
    } else {
        let mut s = unsigned_to_string(n / 10);
        s.push(digit(n % 10));
        s
    }
}

/// Writes a number.
pub fn int_to_string(n: i64) -> (s: String)
    requires
        n > i64::MIN,
    ensures
        s@ == decimal(n as int),
{
    if n < 0 {
        let mut s = String::new();
        s.push('-');
        let digits = unsigned_to_string((-n) as u64);
        s.append(digits.as_str());
        assert(s@ =~= seq!['-'] + digits@);
        s
    } else {
        unsigned_to_string(n as u64)
    }
}

} // verus!
