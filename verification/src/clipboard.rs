//! The escape sequence that copies a text to the clipboard of the terminal, wrapped
//! so that tmux hands it on.

use crate::text::{replace, replaced, Text};
use vstd::prelude::*;
use vstd::string::*;
use vstd::utf8::*;

verus! {

/// The base64 character of a number below 64, in the standard alphabet.
pub open spec fn sextet_char(n: int) -> char {
    if n < 26 {
        ('A' as int + n) as char
    } else if n < 52 {
        ('a' as int + (n - 26)) as char
    } else if n < 62 {
        ('0' as int + (n - 52)) as char
    } else if n == 62 {
        '+'
    } else {
        '/'
    }
}

/// The base64 text of some bytes: each three bytes are read as four numbers of six bits,
/// the highest bits first. What is missing at the end counts as zero bits, and a number
/// without a bit of the bytes is written as padding.
pub open spec fn base64_text(bytes: Seq<u8>) -> Text
    decreases bytes.len(),
{
    let a = bytes[0] as int;
    let b = bytes[1] as int;
    let c = bytes[2] as int;
    if bytes.len() == 0 {
        Seq::empty()
    } else if bytes.len() == 1 {
        seq![sextet_char(a / 4), sextet_char(a % 4 * 16), '=', '=']
    } else if bytes.len() == 2 {
        seq![sextet_char(a / 4), sextet_char(a % 4 * 16 + b / 16), sextet_char(b % 16 * 4), '=']
    } else {
        seq![
            sextet_char(a / 4),
            sextet_char(a % 4 * 16 + b / 16),
            sextet_char(b % 16 * 4 + c / 64),
            sextet_char(c % 64),
        ] + base64_text(bytes.skip(3))
    }
}

/// Calls `base64::encode`. The result is the base64 text of the bytes, in the standard
/// alphabet and padded.
#[verifier::external_body]
fn base64_encode(bytes: &[u8]) -> (encoded: String)
    ensures
        encoded@ == base64_text(bytes@),
{
    base64::encode(bytes)
}

/// Sets the clipboard to what is encoded.
pub open spec fn osc52_text(encoded: Text) -> Text {
    "\x1b]52;0;"@ + encoded + "\x07"@
}

/// Makes tmux hand a sequence on to the terminal: the sequence with each escape
/// character doubled, between two marks.
pub open spec fn passthrough_text(sequence: Text) -> Text {
    "\x1bPtmux;"@ + replaced(sequence, "\x1b"@, "\x1b\x1b"@) + "\x1b\\"@
}

/// What sets the clipboard of the terminal around tmux to what is encoded.
pub fn clipboard_sequence(encoded: &str) -> (sequence: String)
    ensures
        sequence@ == passthrough_text(osc52_text(encoded@)),
{
    let osc52 = "\x1b]52;0;".to_owned().concat(encoded).concat("\x07");
    proof {
        reveal_strlit("\x1b");
    }
    let doubled = replace(osc52.as_str(), "\x1b", "\x1b\x1b");
    "\x1bPtmux;".to_owned().concat(doubled.as_str()).concat("\x1b\\")
}

/// What sets the clipboard of the terminal around tmux to a text.
pub open spec fn copy_text(text: Text) -> Text {
    passthrough_text(osc52_text(base64_text(encode_utf8(text))))
}

/// Builds the sequence that copies a text. The encoded text stands in it as it is,
/// and the one escape character of the inner sequence is doubled.
pub fn copy_sequence(text: &str) -> (sequence: String)
    ensures
        sequence@ == copy_text(text@),
        sequence@ == "\x1bPtmux;\x1b\x1b]52;0;"@ + base64_text(encode_utf8(text@))
            + "\x07\x1b\\"@,
{
    let encoded = base64_encode(text.as_bytes());
    proof {
        lemma_no_escape_in_base64(encode_utf8(text@));
        lemma_single_escape(encoded@);
    }
    clipboard_sequence(encoded.as_str())
}

/// A text without escape characters is not changed by doubling them.
proof fn lemma_no_escape(s: Text)
    requires
        forall|i: int| 0 <= i < s.len() ==> s[i] != '\x1b',
    ensures
        replaced(s, "\x1b"@, "\x1b\x1b"@) == s,
    decreases s.len(),
{
    reveal_strlit("\x1b");
    if s.len() > 0 {
        assert(s.take(1)[0] != "\x1b"@[0]);
        lemma_no_escape(s.skip(1));
        assert(s =~= seq![s[0]] + s.skip(1));
    }
}

proof fn lemma_no_escape_in_base64(bytes: Seq<u8>)
    ensures
        forall|i: int| 0 <= i < base64_text(bytes).len() ==> base64_text(bytes)[i] != '\x1b',
    decreases bytes.len(),
{
    let text = base64_text(bytes);
    if bytes.len() > 2 {
        let rest = base64_text(bytes.skip(3));
        lemma_no_escape_in_base64(bytes.skip(3));
        assert forall|i: int| 0 <= i < text.len() implies text[i] != '\x1b' by {
            if i >= 4 {
                assert(text[i] == rest[i - 4]);
            }
        }
    }
}

proof fn lemma_single_escape(encoded: Text)
    requires
        forall|i: int| 0 <= i < encoded.len() ==> encoded[i] != '\x1b',
    ensures
        passthrough_text(osc52_text(encoded)) == "\x1bPtmux;\x1b\x1b]52;0;"@ + encoded
            + "\x07\x1b\\"@,
{
    reveal_strlit("\x1b");
    reveal_strlit("\x1b\x1b");
    reveal_strlit("\x1b]52;0;");
    reveal_strlit("\x07");
    reveal_strlit("\x1bPtmux;");
    reveal_strlit("\x1b\\");
    reveal_strlit("\x1bPtmux;\x1b\x1b]52;0;");
    reveal_strlit("\x07\x1b\\");
    let osc52 = osc52_text(encoded);
    let rest = osc52.skip(1);
    assert(osc52.take(1) =~= "\x1b"@);
    assert forall|i: int| 0 <= i < rest.len() implies rest[i] != '\x1b' by {
        if 6 <= i < 6 + encoded.len() {
            assert(rest[i] == encoded[i - 6]);
        }
    }
    lemma_no_escape(rest);
    assert(passthrough_text(osc52) =~= "\x1bPtmux;\x1b\x1b]52;0;"@ + encoded + "\x07\x1b\\"@);
}

/// The number that a base64 character stands for.
pub open spec fn sextet_value(c: char) -> int {
    if 'A' <= c <= 'Z' {
        c as int - 'A' as int
    } else if 'a' <= c <= 'z' {
        c as int - 'a' as int + 26
    } else if '0' <= c <= '9' {
        c as int - '0' as int + 52
    } else if c == '+' {
        62
    } else {
        63
    }
}

/// The bytes that a padded base64 text stands for.
pub open spec fn base64_bytes(text: Text) -> Seq<u8>
    decreases text.len(),
{
    let a = sextet_value(text[0]);
    let b = sextet_value(text[1]);
    let c = sextet_value(text[2]);
    let d = sextet_value(text[3]);
    if text.len() < 4 {
        Seq::empty()
    } else if text[2] == '=' {
        seq![(a * 4 + b / 16) as u8]
    } else if text[3] == '=' {
        seq![(a * 4 + b / 16) as u8, (b % 16 * 16 + c / 4) as u8]
    } else {
        seq![
            (a * 4 + b / 16) as u8,
            (b % 16 * 16 + c / 4) as u8,
            (c % 4 * 64 + d) as u8,
        ] + base64_bytes(text.skip(4))
    }
}

proof fn lemma_sextet(n: int)
    requires
        0 <= n < 64,
    ensures
        sextet_value(sextet_char(n)) == n,
        sextet_char(n) != '=',
{
}

/// What the terminal decodes are the bytes that were encoded.
pub proof fn law_encoded_bytes_are_read_back(bytes: Seq<u8>)
    ensures
        base64_bytes(base64_text(bytes)) == bytes,
    decreases bytes.len(),
{
    let text = base64_text(bytes);
    if bytes.len() > 0 {
        let a = bytes[0] as int;
        lemma_sextet(a / 4);
        if bytes.len() == 1 {
            lemma_sextet(a % 4 * 16);
            assert(base64_bytes(text) =~= bytes);
        } else {
            let b = bytes[1] as int;
            lemma_sextet(a % 4 * 16 + b / 16);
            if bytes.len() == 2 {
                lemma_sextet(b % 16 * 4);
                assert(base64_bytes(text) =~= bytes);
            } else {
                let c = bytes[2] as int;
                lemma_sextet(b % 16 * 4 + c / 64);
                lemma_sextet(c % 64);
                law_encoded_bytes_are_read_back(bytes.skip(3));
                assert(text.skip(4) =~= base64_text(bytes.skip(3)));
                assert(base64_bytes(text) =~= bytes);
            }
        }
    }
}

/// What is left of a sequence when each pair of escape characters is read as one.
pub open spec fn halved(s: Text) -> Text
    decreases s.len(),
{
    if s.len() == 0 {
        s
    } else if s.len() > 1 && s[0] == '\x1b' && s[1] == '\x1b' {
        seq!['\x1b'] + halved(s.skip(2))
    } else {
        seq![s[0]] + halved(s.skip(1))
    }
}

/// The terminal gets the sequence that was wrapped: reading the doubled escape
/// characters as single ones undoes the doubling.
pub proof fn law_passthrough_keeps_the_sequence(s: Text)
    ensures
        halved(replaced(s, "\x1b"@, "\x1b\x1b"@)) == s,
    decreases s.len(),
{
    reveal_strlit("\x1b");
    reveal_strlit("\x1b\x1b");
    let to = "\x1b\x1b"@;
    if s.len() > 0 {
        let rest = replaced(s.skip(1), "\x1b"@, to);
        law_passthrough_keeps_the_sequence(s.skip(1));
        assert(s =~= seq![s[0]] + s.skip(1));
        if s[0] == '\x1b' {
            assert(s.take(1) =~= "\x1b"@);
            assert((to + rest).skip(2) =~= rest);
        } else {
            assert(s.take(1)[0] != "\x1b"@[0]);
            assert((seq![s[0]] + rest).skip(1) =~= rest);
        }
    }
}

/// The sequence for a text holds its base64 text as it is, between the marks that make tmux
/// hand it on and the terminal take it.
pub proof fn law_copying_wraps_the_text(text: Text)
    ensures
        copy_text(text) == "\x1bPtmux;\x1b\x1b]52;0;"@ + base64_text(encode_utf8(text))
            + "\x07\x1b\\"@,
{
    lemma_no_escape_in_base64(encode_utf8(text));
    lemma_single_escape(base64_text(encode_utf8(text)));
}

} // verus!
