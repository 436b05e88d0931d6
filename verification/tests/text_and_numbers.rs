use lib::num::{i64_decimal, parse_u32, parse_u64, u64_decimal};
use lib::text::{
    chars_eq, chars_of, find_first, is_whitespace, join_parts, remove_occurrences, split_char,
    split_lines, split_whitespace, starts_with, string_of, trim_chars,
};

fn cs(s: &str) -> Vec<char> {
    s.chars().collect()
}

fn strs(v: &Vec<Vec<char>>) -> Vec<String> {
    v.iter().map(|w| w.iter().collect()).collect()
}

#[test]
fn whitespace_is_unicode_white_space() {
    assert!(is_whitespace(' '));
    assert!(is_whitespace('\t'));
    assert!(is_whitespace('\u{a0}'));
    assert!(is_whitespace('\u{3000}'));
    assert!(!is_whitespace('a'));
    assert!(!is_whitespace('\u{200b}'));
    for c in ['\u{85}', '\u{1680}', '\u{2000}', '\u{200a}', '\u{2028}', '\u{205f}', 'x', '0'] {
        assert_eq!(is_whitespace(c), c.is_whitespace());
    }
}

#[test]
fn split_whitespace_matches_std() {
    for s in ["  GET   /index.html HTTP/1.1 ", "", "   ", "a", "a\tb\u{a0}c", "x  y"] {
        let expected: Vec<String> = s.split_whitespace().map(|w| w.to_string()).collect();
        assert_eq!(strs(&split_whitespace(&cs(s))), expected);
    }
}

#[test]
fn split_char_matches_std() {
    for s in ["a&b", "", "&", "a&&b&", "basket=1=2"] {
        for sep in ['&', '='] {
            let expected: Vec<String> = s.split(sep).map(|w| w.to_string()).collect();
            assert_eq!(strs(&split_char(&cs(s), sep)), expected);
        }
    }
}

#[test]
fn lines_match_std() {
    for s in ["a\r\nb\n", "x\r", "", "\n", "\n\n", "one", "a\r\r\nb"] {
        let expected: Vec<String> = s.lines().map(|w| w.to_string()).collect();
        assert_eq!(strs(&split_lines(&cs(s))), expected);
    }
}

#[test]
fn trim_matches_std() {
    for s in ["  a b  ", "", "   ", "\n64\n", "x"] {
        let t: String = trim_chars(&cs(s)).iter().collect();
        assert_eq!(t, s.trim());
    }
}

#[test]
fn prefixes_and_equality() {
    assert!(starts_with(&cs("VmRSS: 10"), &cs("VmRSS:")));
    assert!(!starts_with(&cs("Vm"), &cs("VmRSS:")));
    assert!(starts_with(&cs("abc"), &cs("")));
    assert!(chars_eq(&cs("GET"), &cs("GET")));
    assert!(!chars_eq(&cs("GET"), &cs("GETS")));
    assert_eq!(find_first(&cs("/a?b?c"), '?'), 2);
    assert_eq!(find_first(&cs("/abc"), '?'), 4);
}

#[test]
fn removal_matches_std_replace() {
    for (s, p) in [("PRETTY_NAME=\"Ubuntu\"", "\""), ("aaa", "aa"), ("abc", ""), ("xPRETTY_NAME=y", "PRETTY_NAME=")] {
        let r: String = remove_occurrences(&cs(s), &cs(p)).iter().collect();
        if p.is_empty() {
            assert_eq!(r, s);
        } else {
            assert_eq!(r, s.replace(p, ""));
        }
    }
}

#[test]
fn join_with_separator() {
    let parts = vec![cs("a"), cs("b"), cs("c")];
    let j: String = join_parts(&parts, &cs(" ")).iter().collect();
    assert_eq!(j, "a b c");
    let none: Vec<Vec<char>> = Vec::new();
    assert!(join_parts(&none, &cs(" ")).is_empty());
}

#[test]
fn conversions_keep_the_text() {
    let s = "héllo wörld";
    assert_eq!(chars_of(s), cs(s));
    assert_eq!(string_of(&cs(s)), s.to_string());
}

#[test]
fn parse_u64_matches_std() {
    for s in ["0", "+12", "", "+", "-1", "18446744073709551615", "18446744073709551616", "12a", " 1", "007"] {
        assert_eq!(parse_u64(&cs(s)), s.parse::<u64>().ok(), "{}", s);
    }
}

#[test]
fn parse_u32_matches_std() {
    for s in ["4294967295", "4294967296", "64", "N/A", "+7"] {
        assert_eq!(parse_u32(&cs(s)), s.parse::<u32>().ok(), "{}", s);
    }
}

#[test]
fn decimal_rendering_matches_display() {
    for n in [0u64, 7, 10, 1234, u64::MAX] {
        let d: String = u64_decimal(n).iter().collect();
        assert_eq!(d, n.to_string());
        assert_eq!(parse_u64(&u64_decimal(n)), Some(n));
    }
    for v in [0i64, -1, 4096, i64::MIN, i64::MAX] {
        let d: String = i64_decimal(v).iter().collect();
        assert_eq!(d, v.to_string());
    }
}
