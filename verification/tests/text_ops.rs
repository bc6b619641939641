//! The text utilities against concrete inputs.

use openvcs::porcelain::tokens_of;
use openvcs::text::{
    contains_sub, ends_with, find_char, is_lower_hex, lines_of, lowercase, parse_u32, rfind_char,
    split_char, starts_with, str_eq, str_le, substr, trim, trim_end, u32_dec,
};

#[test]
fn trim_both_sides() {
    assert_eq!(trim("  main\n"), "main");
    assert_eq!(trim("\t\r\n "), "");
    assert_eq!(trim("x"), "x");
    assert_eq!(trim(""), "");
}

#[test]
fn trim_end_only() {
    assert_eq!(trim_end("  a  \n"), "  a");
    assert_eq!(trim_end("a"), "a");
    assert_eq!(trim_end("\n\n"), "");
}

#[test]
fn lines_match_std() {
    let cases = ["a\nb\n", "a\nb", "", "\n", "a\r\nb\r\n", "one"];
    for c in cases {
        let got = lines_of(c);
        let want: Vec<String> = c.lines().map(|l| l.to_string()).collect();
        assert_eq!(got, want, "lines of {:?}", c);
    }
}

#[test]
fn split_keeps_empties() {
    let got = split_char("a\0\0b", '\0');
    assert_eq!(got, vec!["a".to_string(), "".to_string(), "b".to_string()]);
    assert_eq!(split_char("", ','), vec!["".to_string()]);
    assert_eq!(split_char("x,", ','), vec!["x".to_string(), "".to_string()]);
}

#[test]
fn tokens_match_std() {
    let cases = ["a b  c", "  lead", "trail  ", "", "\t\n", "one"];
    for c in cases {
        let got = tokens_of(c);
        let want: Vec<String> = c.split_whitespace().map(|t| t.to_string()).collect();
        assert_eq!(got, want, "tokens of {:?}", c);
    }
}

#[test]
fn find_and_rfind() {
    assert_eq!(find_char("abcabc", 0, 'b'), Some(1));
    assert_eq!(find_char("abcabc", 2, 'b'), Some(4));
    assert_eq!(find_char("abc", 0, 'z'), None);
    assert_eq!(rfind_char("abcabc", 'b'), Some(4));
    assert_eq!(rfind_char("abc", 'z'), None);
}

#[test]
fn affix_tests() {
    assert!(starts_with("refs/heads/main", "refs/heads/"));
    assert!(!starts_with("refs/remotes/o/m", "refs/heads/"));
    assert!(ends_with("origin/HEAD", "/HEAD"));
    assert!(!ends_with("origin/head", "/HEAD"));
    assert!(str_eq("same", "same"));
    assert!(!str_eq("same", "samé"));
}

#[test]
fn substring_and_contains() {
    assert_eq!(substr("hello", 1, 4), "ell");
    assert!(contains_sub("hello world", "o w"));
    assert!(contains_sub("abc", ""));
    assert!(!contains_sub("abc", "cb"));
}

#[test]
fn parse_and_render_u32() {
    assert_eq!(parse_u32("0"), Some(0));
    assert_eq!(parse_u32("4294967295"), Some(u32::MAX));
    assert_eq!(parse_u32("4294967296"), None);
    assert_eq!(parse_u32(""), None);
    assert_eq!(parse_u32("12a"), None);
    assert_eq!(parse_u32("0042"), Some(42));
    assert_eq!(u32_dec(0), "0");
    assert_eq!(u32_dec(105), "105");
    assert_eq!(u32_dec(u32::MAX), "4294967295");
}

#[test]
fn hex_check() {
    assert!(is_lower_hex("0123456789abcdef"));
    assert!(!is_lower_hex("ABC"));
    assert!(!is_lower_hex("12g4"));
}

#[test]
fn lowercase_through_wrapper() {
    // This fails if the wrapper handed its argument back unchanged.
    assert_eq!(lowercase("MiXeD"), "mixed");
    assert_eq!(lowercase(""), "");
}

#[test]
fn lex_order() {
    assert!(str_le("abc", "abd"));
    assert!(str_le("ab", "abc"));
    assert!(!str_le("b", "ab"));
    assert!(str_le("same", "same"));
}
