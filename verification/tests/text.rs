//! Text primitives.

use bpolicy::text::{
    below, find_with_prefix, from_chars, hex_to_u64, joined, not_after, occurs, padded, replaced,
    same_str, split, split_lines, split_words, stripped, to_chars, to_decimal, trimmed, white,
    Separator,
};

fn strings(v: Vec<Vec<char>>) -> Vec<String> {
    v.iter().map(|t| from_chars(t)).collect()
}

const SAMPLES: [&str; 12] = [
    "",
    "a",
    "\n",
    "a\nb",
    "a\r\nb\r",
    "\r\n\n\r",
    "  a \t b\u{2003}c ",
    "lsm=a,b,,c,",
    "\u{85}x\u{a0}y\u{3000}",
    "é—\n—é",
    " ",
    "x\r\r\ny",
];

#[test]
fn lines_words_and_pieces_are_those_of_std() {
    for s in SAMPLES {
        let cs = to_chars(s);
        assert_eq!(from_chars(&cs), s);
        assert_eq!(strings(split_lines(&cs)), s.lines().collect::<Vec<_>>(), "{s:?}");
        assert_eq!(strings(split_words(&cs)), s.split_whitespace().collect::<Vec<_>>(), "{s:?}");
        assert_eq!(
            strings(split(&cs, Separator::Char(','))),
            s.split(',').collect::<Vec<_>>(),
            "{s:?}"
        );
        assert_eq!(strings(split(&cs, Separator::Char(','))).join(","), s);
        assert_eq!(from_chars(&trimmed(&cs)), s.trim(), "{s:?}");
    }
}

#[test]
fn white_space_is_that_of_std() {
    for n in 0..0x11_0000u32 {
        if let Some(c) = char::from_u32(n) {
            assert_eq!(white(c), c.is_whitespace(), "{n:x}");
        }
    }
}

#[test]
fn order_is_that_of_std() {
    let words = ["", "a", "ab", "b", "Z", "é", "ébc", "\u{ffff}", "\u{10000}"];
    for a in words {
        for b in words {
            assert_eq!(not_after(a, b), a <= b, "{a} {b}");
            assert_eq!(same_str(a, b), a == b);
        }
    }
}

#[test]
fn search_and_strip() {
    let has = |s: &str, p: &str| occurs(&to_chars(s), &to_chars(p));
    for (s, p) in [("abc", "b"), ("abc", "abc"), ("abc", ""), ("", ""), ("aab", "ab"), ("ab", "abc"), ("", "a")] {
        assert_eq!(has(s, p), s.contains(p), "{s} {p}");
    }
    let strip = |s: &str, p: &str| from_chars(&stripped(&to_chars(s), &to_chars(p)));
    assert_eq!(strip("lsm=lsm=x", "lsm="), "x");
    assert_eq!(strip("xlsm=", "lsm="), "xlsm=");
    assert_eq!(strip("x", ""), "x");
    let lines = vec![to_chars("b"), to_chars("ab"), to_chars("abc")];
    assert_eq!(find_with_prefix(&lines, &to_chars("a")), Some(to_chars("ab")));
    assert_eq!(find_with_prefix(&lines, &to_chars("c")), None);
}

#[test]
fn numbers() {
    for n in [0u64, 9, 10, 255, 1800, u64::MAX] {
        assert_eq!(to_decimal(n), n.to_string());
        assert_eq!(hex_to_u64(&to_chars(&format!("{n:016x}"))), Some(n));
        assert_eq!(hex_to_u64(&to_chars(&format!("{n:X}"))), Some(n));
    }
    for s in ["", "+", "-", "+1f", "0000000000000000000001", "ffffffffffffffff0", "g", "1 ", "++1"] {
        assert_eq!(hex_to_u64(&to_chars(s)), u64::from_str_radix(s, 16).ok(), "{s}");
    }
}

#[test]
fn building() {
    assert_eq!(joined(&vec![], ", "), "");
    assert_eq!(joined(&vec!["a".to_owned()], ", "), "a");
    assert_eq!(joined(&vec!["a".to_owned(), String::new(), "c".to_owned()], ", "), "a, , c");
    assert_eq!(replaced("a b  c", ' ', '_'), "a_b__c");
    assert_eq!(padded("é", 3), "é  ");
    assert_eq!(padded("abcd", 3), "abcd");
    assert_eq!(below("/a", "b"), "/a/b");
    assert_eq!(below("/a/", "b"), "/a/b");
    assert_eq!(below("", "b"), "b");
}
