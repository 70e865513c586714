use clparse::text::{
    chars_of, contains, eq_ignoring_case, find_from, first_line_of, first_visible_char,
    is_whitespace, matches_here, replace_all, same_text, slice_of, string_of, string_of_range,
    strip_prefix, trim, unbracket,
};

fn c(s: &str) -> Vec<char> {
    s.chars().collect()
}

#[test]
fn chars_and_strings() {
    assert_eq!(chars_of("añb"), vec!['a', 'ñ', 'b']);
    assert_eq!(string_of(&c("añb")), "añb");
    assert_eq!(string_of_range(&c("hello"), 1, 3), "el");
    assert_eq!(slice_of(&c("hello"), 2, 5), c("llo"));
    assert_eq!(slice_of(&c("hello"), 2, 2), c(""));
}

#[test]
fn whitespace_is_the_unicode_property() {
    for ch in [' ', '\t', '\n', '\r', '\u{0B}', '\u{0C}', '\u{85}', '\u{A0}', '\u{1680}', '\u{2000}',
        '\u{200A}', '\u{2028}', '\u{2029}', '\u{202F}', '\u{205F}', '\u{3000}']
    {
        assert!(is_whitespace(ch), "{:?}", ch);
    }
    for ch in ['a', '#', '{', '-', '\u{200B}', '\u{180E}', '\u{FEFF}', '\0'] {
        assert!(!is_whitespace(ch), "{:?}", ch);
    }
}

#[test]
fn whitespace_agrees_with_std_on_every_char() {
    let mut n: u32 = 0;
    while n <= 0x10FFFF {
        if let Some(ch) = char::from_u32(n) {
            assert_eq!(is_whitespace(ch), ch.is_whitespace(), "U+{:04X}", n);
        }
        n += 1;
    }
}

#[test]
fn trimming() {
    assert_eq!(trim(&c("  a b \n")), c("a b"));
    assert_eq!(trim(&c("a")), c("a"));
    assert_eq!(trim(&c(" \t\n")), c(""));
    assert_eq!(trim(&c("")), c(""));
    assert_eq!(trim(&c("\u{3000}x\u{A0}")), c("x"));
}

#[test]
fn trimming_agrees_with_std() {
    for s in ["", " ", "a", " a", "a ", "  a  b  ", "\n\ta\r\n", "- 2020-01-01 "] {
        assert_eq!(string_of(&trim(&c(s))), s.trim());
    }
}

#[test]
fn matching_and_finding() {
    assert!(matches_here(&c("hello"), &c("ell"), 1));
    assert!(!matches_here(&c("hello"), &c("ell"), 0));
    assert!(!matches_here(&c("hello"), &c("lo"), 4));
    assert!(!matches_here(&c("hi"), &c("hello"), 0));
    assert!(matches_here(&c("hi"), &c(""), 2));
    assert!(!matches_here(&c("hi"), &c(""), 3));
    assert_eq!(find_from(&c("a - b - c"), &c(" - "), 0), Some(1));
    assert_eq!(find_from(&c("a - b - c"), &c(" - "), 2), Some(5));
    assert_eq!(find_from(&c("a - b - c"), &c(" / "), 0), None);
    assert_eq!(find_from(&c("abc"), &c(""), 0), Some(0));
    assert_eq!(find_from(&c("abc"), &c(""), 3), Some(3));
    assert_eq!(find_from(&c("abc"), &c(""), 4), None);
    assert!(contains(&c("2020 [YANKED]"), &c("YANKED")));
    assert!(!contains(&c("2020 [yanked]"), &c("YANKED")));
}

#[test]
fn replacing() {
    assert_eq!(replace_all(&c("a\nb\n"), &c("\n"), &c(" ")), c("a b "));
    assert_eq!(replace_all(&c("x [YANKED]"), &c(" [YANKED]"), &c("")), c("x"));
    assert_eq!(replace_all(&c("aaaa"), &c("aa"), &c("b")), c("bb"));
    assert_eq!(replace_all(&c("aaa"), &c("aa"), &c("b")), c("ba"));
    assert_eq!(replace_all(&c("abc"), &c(""), &c("x")), c("abc"));
    assert_eq!(replace_all(&c(""), &c("a"), &c("x")), c(""));
    assert_eq!(replace_all(&c("abc"), &c("abcd"), &c("x")), c("abc"));
}

#[test]
fn replacing_agrees_with_std() {
    for (s, from, to) in [("a\nb", "\n", " "), ("[Unreleased]", "Unreleased", ""), ("ababab", "aba", "-")] {
        assert_eq!(string_of(&replace_all(&c(s), &c(from), &c(to))), s.replace(from, to));
    }
}

#[test]
fn prefixes_and_brackets() {
    assert_eq!(strip_prefix(&c("- 2020"), &c("- ")), Some(c("2020")));
    assert_eq!(strip_prefix(&c("2020"), &c("- ")), None);
    assert_eq!(strip_prefix(&c("-"), &c("- ")), None);
    assert_eq!(unbracket(&c("[1.0.0]")), c("1.0.0"));
    assert_eq!(unbracket(&c("1.0.0")), c("1.0.0"));
    assert_eq!(unbracket(&c("[1.0.0")), c("1.0.0"));
    assert_eq!(unbracket(&c("1.0.0]")), c("1.0.0"));
    assert_eq!(unbracket(&c("[]")), c(""));
    assert_eq!(unbracket(&c("[")), c(""));
    assert_eq!(unbracket(&c("]")), c(""));
    assert_eq!(unbracket(&c("")), c(""));
    assert_eq!(unbracket(&c("[[a]]")), c("[a]"));
}

#[test]
fn lines_and_first_characters() {
    assert_eq!(first_line_of(&c("---\ntitle: x")), c("---"));
    assert_eq!(first_line_of(&c("no line feed")), c("no line feed"));
    assert_eq!(first_line_of(&c("\nsecond")), c(""));
    assert_eq!(first_visible_char(&c(" \n\t# T")), Some('#'));
    assert_eq!(first_visible_char(&c("x")), Some('x'));
    assert_eq!(first_visible_char(&c("  ")), None);
    assert_eq!(first_visible_char(&c("")), None);
}

#[test]
fn comparing() {
    assert!(same_text(&c("---"), &c("---")));
    assert!(!same_text(&c("---"), &c("----")));
    assert!(!same_text(&c("---"), &c("--x")));
    assert!(same_text(&c(""), &c("")));
    assert!(eq_ignoring_case(&c("AdDeD"), &c("added")));
    assert!(!eq_ignoring_case(&c("added"), &c("addes")));
    assert!(!eq_ignoring_case(&c("added"), &c("adde")));
    assert!(!eq_ignoring_case(&c("[dded"), &c("{dded")));
    assert!(!eq_ignoring_case(&c("@"), &c("`")));
}
