use redis_clone::text::{
    chars_of, is_whitespace_char, parse_usize_chars, push_decimal, split_lines,
    split_once_space, split_words, trim_chars, utf8_of,
};

fn cs(s: &str) -> Vec<char> {
    s.chars().collect()
}

fn strs(v: Vec<Vec<char>>) -> Vec<String> {
    v.into_iter().map(|w| w.into_iter().collect()).collect()
}

#[test]
fn words_split_on_unicode_whitespace() {
    assert_eq!(strs(split_words(&cs("  a\tbc\u{3000}d\u{a0}e  "))), vec!["a", "bc", "d", "e"]);
    assert!(split_words(&cs(" \n ")).is_empty());
    assert!(is_whitespace_char('\u{85}'));
    assert!(!is_whitespace_char('x'));
    assert_eq!(chars_of("héllo"), cs("héllo"));
}

#[test]
fn lines_follow_str_lines() {
    let check = |s: &str| {
        let ours = strs(split_lines(&cs(s)));
        let std: Vec<String> = s.lines().map(|l| l.to_string()).collect();
        assert_eq!(ours, std, "{:?}", s);
    };
    check("");
    check("a");
    check("a\n");
    check("a\nb");
    check("a\r\nb\r\n");
    check("\n\n");
    check("x\r");
    check("x\r\ry\n");
}

#[test]
fn trim_and_split_once() {
    assert_eq!(trim_chars(&cs("  ab c \t")), cs("ab c"));
    assert_eq!(trim_chars(&cs("   ")), cs(""));
    let (a, b) = split_once_space(&cs("string set a b"));
    assert_eq!((a, b), (cs("string"), cs("set a b")));
    let (a, b) = split_once_space(&cs("alone"));
    assert_eq!((a, b), (cs("alone"), cs("")));
    let (a, b) = split_once_space(&cs(" lead"));
    assert_eq!((a, b), (cs(""), cs("lead")));
}

#[test]
fn parse_matches_std() {
    for s in ["0", "17", "+5", "", "+", "-1", "1a", "007", "18446744073709551615", "18446744073709551616"] {
        let ours = parse_usize_chars(&cs(s));
        let std = s.parse::<usize>().ok();
        assert_eq!(ours, std, "{:?}", s);
    }
}

#[test]
fn decimal_digits() {
    let mut out = Vec::new();
    push_decimal(&mut out, 0);
    assert_eq!(out, cs("0"));
    let mut out = Vec::new();
    push_decimal(&mut out, 90210);
    assert_eq!(out, cs("90210"));
}

#[test]
fn utf8_encoding_matches_std() {
    let s = "aé€😀";
    assert_eq!(utf8_of(&cs(s)), s.as_bytes().to_vec());
}
