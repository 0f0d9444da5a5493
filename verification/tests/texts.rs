use tmux_thumbs::number::{int_to_string, parse_i32, unsigned_to_string};
use tmux_thumbs::quote::shell_quote;
use tmux_thumbs::text::{
    chars_of, join, replace, same_text, split, splitn, starts_with, string_of, trim, trim_end,
    white_space, without_empty,
};

const SAMPLES: [&str; 14] = [
    "",
    ":",
    "::",
    "a",
    "a:b",
    ":a:",
    "%1:0:24::0:active:80",
    "true:url:3:4:https://example.com:8080/x",
    "a:b:c:d:e:f:g",
    " \t padded \r\n",
    "\u{a0}\u{3000}wide\u{2003}",
    "\u{200b}not white\u{200b}",
    "aaaa",
    "'it''s'",
];

fn strings(list: Vec<&str>) -> Vec<String> {
    list.iter().map(|s| s.to_string()).collect()
}

#[test]
fn white_space_is_that_of_unicode() {
    for code in 0..=0x10ffff_u32 {
        if let Some(c) = char::from_u32(code) {
            assert_eq!(white_space(c), c.is_whitespace(), "{:x}", code);
        }
    }
}

#[test]
fn splitting_is_that_of_strings() {
    for s in SAMPLES {
        for sep in [':', ' ', 'a', '\n'] {
            let expected: Vec<&str> = s.split(sep).collect();
            assert_eq!(split(s, sep), expected);
            for limit in 1..7_usize {
                let expected: Vec<&str> = s.splitn(limit, sep).collect();
                assert_eq!(splitn(s, limit, sep), expected);
            }
        }
    }
}

#[test]
fn a_limit_keeps_separators_in_the_last_piece() {
    assert_eq!(splitn("a:b:c:d:e:f", 5, ':'), vec!["a", "b", "c", "d", "e:f"]);
    assert_eq!(splitn("a:b", 5, ':'), vec!["a", "b"]);
    assert_eq!(splitn("a:b", 1, ':'), vec!["a:b"]);
}

#[test]
fn pieces_join_back() {
    for s in SAMPLES {
        for sep in [":", " ", "a"] {
            let c = sep.chars().next().unwrap();
            assert_eq!(join(&split(s, c), sep), s);
            assert_eq!(join(&splitn(s, 3, c), sep), s);
        }
    }
}

#[test]
fn joined_texts_come_back() {
    let list = strings(vec!["one", "", "three"]);
    assert_eq!(join(&list, "\n"), "one\n\nthree");
    assert_eq!(split(&join(&list, "\n"), '\n'), list);
    assert_eq!(join(&vec![], "\n"), "");
}

#[test]
fn trimming_is_that_of_strings() {
    for s in SAMPLES {
        assert_eq!(trim(s), s.trim());
        assert_eq!(trim_end(s), s.trim_end());
        assert_eq!(trim_end(&trim_end(s)), trim_end(s));
    }
}

#[test]
fn replacing_is_that_of_strings() {
    for s in SAMPLES {
        for (pat, to) in [(":", ""), ("a", "bb"), ("aa", "a"), ("'", "'\\''"), ("::", ":")] {
            assert_eq!(replace(s, pat, to), s.replace(pat, to));
        }
    }
    assert_eq!(replace("{} and {}", "{}", "${THUMB}"), "${THUMB} and ${THUMB}");
    assert_eq!(replace("{{}}", "{}", "${THUMB}"), "{${THUMB}}");
}

#[test]
fn beginnings_are_those_of_strings() {
    for s in SAMPLES {
        for prefix in ["", ":", "a", "aa", "true:", "%1:0:24::0:active:80", "b"] {
            assert_eq!(starts_with(s, prefix), s.starts_with(prefix));
        }
    }
}

#[test]
fn characters_make_strings() {
    let list = chars_of("a\u{e9}\u{1f600}z");
    assert_eq!(list, vec!['a', '\u{e9}', '\u{1f600}', 'z']);
    assert_eq!(string_of(&list, 1, 3), "\u{e9}\u{1f600}");
    assert_eq!(string_of(&list, 2, 2), "");
    assert!(same_text("abc", "abc"));
    assert!(!same_text("abc", "abd"));
}

#[test]
fn empty_strings_are_dropped() {
    assert_eq!(without_empty(strings(vec!["", "a", "", "b", ""])), vec!["a", "b"]);
    assert_eq!(without_empty(strings(vec!["", ""])), Vec::<String>::new());
}

#[test]
fn numbers_are_read_like_integers() {
    let samples = [
        "",
        "0",
        "-0",
        "+0",
        "7",
        "+7",
        "-7",
        "007",
        "2147483647",
        "2147483648",
        "-2147483648",
        "-2147483649",
        "99999999999999999999999999",
        "-99999999999999999999999999",
        "00000000000000000000000000000005",
        "+",
        "-",
        "--1",
        "+-1",
        "1-",
        " 1",
        "1 ",
        "1.0",
        "1_000",
        "0x10",
        "\u{661}",
        "12a",
        "30000000000a",
    ];
    for s in samples {
        assert_eq!(parse_i32(s), s.parse::<i32>().ok(), "{}", s);
    }
}

#[test]
fn numbers_are_written_like_integers() {
    for n in [0, 1, 9, 10, 11, 99, 100, 4242, 1_700_000_000, u64::MAX - 1, u64::MAX] {
        assert_eq!(unsigned_to_string(n), n.to_string());
    }
    for n in [0, -1, -9, -10, 42, -2147483648, 2147483648, i64::MAX, i64::MIN + 1] {
        assert_eq!(int_to_string(n), n.to_string());
    }
}

#[test]
fn written_numbers_are_read_back() {
    for n in [0, 1, -1, 10, -10, 12345, i32::MAX, i32::MIN] {
        assert_eq!(parse_i32(&int_to_string(n as i64)), Some(n));
    }
    assert_ne!(unsigned_to_string(12), unsigned_to_string(21));
}

#[test]
fn quotes_are_taken_out_of_quotes() {
    assert_eq!(shell_quote("a"), "'a'");
    assert_eq!(shell_quote(""), "''");
    assert_eq!(shell_quote("'"), "''\\'''");
    assert_eq!(shell_quote("it's $HOME"), "'it'\\''s $HOME'");
}
