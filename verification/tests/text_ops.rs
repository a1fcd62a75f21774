use ccterm::text::{
    char_is_ascii_alphanumeric, char_is_whitespace, chars_of, has_substring, replace_chars,
    split_lines, str_eq, string_of, trim_chars, trim_end_chars, trim_start_chars,
};

fn lines_of(s: &str) -> Vec<String> {
    split_lines(&chars_of(s)).iter().map(string_of).collect()
}

#[test]
fn whitespace_agrees_with_std_on_every_char() {
    let mut code: u32 = 0;
    while code <= 0x10FFFF {
        if let Some(c) = char::from_u32(code) {
            assert_eq!(char_is_whitespace(c), c.is_whitespace(), "U+{:04X}", code);
            assert_eq!(char_is_ascii_alphanumeric(c), c.is_ascii_alphanumeric(), "U+{:04X}", code);
        }
        code += 1;
    }
}

#[test]
fn chars_round_trip() {
    let s = "a\u{276F}b\u{00A0}\n";
    assert_eq!(string_of(&chars_of(s)), s);
    assert!(str_eq("abc", "abc"));
    assert!(!str_eq("abc", "abd"));
    assert!(!str_eq("abc", "ab"));
}

#[test]
fn trimming_agrees_with_std() {
    for s in ["", "  ", " a b \t\n", "\u{3000}x\u{2003}", "x", "\r\n x"] {
        let chars = chars_of(s);
        assert_eq!(string_of(&trim_chars(&chars)), s.trim());
        assert_eq!(string_of(&trim_start_chars(&chars)), s.trim_start());
        assert_eq!(string_of(&trim_end_chars(&chars)), s.trim_end());
    }
}

#[test]
fn lines_agree_with_std() {
    for s in ["", "a", "a\n", "a\n\n", "a\r\nb", "a\rb\n", "\n", "\r", "x\r\n\r\ny\n", "a\n\r"] {
        let expected: Vec<String> = s.lines().map(|l| l.to_string()).collect();
        assert_eq!(lines_of(s), expected, "{:?}", s);
    }
}

#[test]
fn replace_and_contains_agree_with_std() {
    let cases = [
        ("aaa", "aa", "b"),
        ("abcabc", "bc", "XY"),
        ("abc", "abcd", "x"),
        ("", "a", "b"),
        ("hello", "l", ""),
        ("aXbXc", "X", "XX"),
        ("abc", "", "z"),
    ];
    for (s, pat, to) in cases {
        let got = string_of(&replace_chars(&chars_of(s), &chars_of(pat), &chars_of(to)));
        if pat.is_empty() {
            assert_eq!(got, s);
        } else {
            assert_eq!(got, s.replace(pat, to), "{:?} {:?} {:?}", s, pat, to);
        }
        assert_eq!(has_substring(&chars_of(s), &chars_of(pat)), s.contains(pat));
    }
}
