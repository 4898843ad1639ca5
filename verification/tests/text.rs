use httpserver::text::{
    char_is_whitespace, find_first, find_piece, find_substring, has_substring, has_suffix,
    next_line, next_word, push_decimal, range_is, read_numeral, slice_chars, str_eq,
    string_from_chars, to_chars, CharClass, Numeral,
};

fn chars(s: &str) -> Vec<char> {
    s.chars().collect()
}

#[test]
fn chars_and_strings() {
    assert_eq!(to_chars("a\u{e9}b"), vec!['a', '\u{e9}', 'b']);
    assert_eq!(to_chars(""), Vec::<char>::new());
    let v = chars("hello");
    assert_eq!(string_from_chars(&v, 1, 4), "ell");
    assert_eq!(string_from_chars(&v, 2, 2), "");
    assert_eq!(slice_chars(&v, 0, 5), v);
    assert!(str_eq("abc", "abc"));
    assert!(!str_eq("abc", "abd"));
    assert!(!str_eq("abc", "ab"));
}

#[test]
fn whitespace_is_unicode_white_space() {
    for c in ['\t', '\n', '\u{b}', '\u{c}', '\r', ' ', '\u{85}', '\u{a0}', '\u{1680}', '\u{2000}',
        '\u{200a}', '\u{2028}', '\u{2029}', '\u{202f}', '\u{205f}', '\u{3000}']
    {
        assert!(char_is_whitespace(c));
        assert!(c.is_whitespace());
    }
    for c in ['a', '0', '/', '\u{8}', '\u{e}', '\u{200b}', '\u{feff}', '\u{180e}'] {
        assert!(!char_is_whitespace(c));
        assert!(!c.is_whitespace());
    }
}

#[test]
fn find_first_of_a_class() {
    let v = chars("ab c:d");
    assert_eq!(find_first(&v, 0, CharClass::Exactly(':')), 4);
    assert_eq!(find_first(&v, 5, CharClass::Exactly(':')), 6);
    assert_eq!(find_first(&v, 0, CharClass::Whitespace), 2);
    assert_eq!(find_first(&v, 2, CharClass::NonWhitespace), 3);
    assert_eq!(find_first(&v, 6, CharClass::Whitespace), 6);
}

#[test]
fn lines_like_std() {
    for text in ["", "a", "a\n", "a\r\n", "a\r", "\n", "\r\n", "a\n\nb", "a\r\n\r\nb\r\n",
        "a\r\r\nb", "\r", "x\ny\r"]
    {
        let v = chars(text);
        let mut got: Vec<String> = Vec::new();
        let mut i: usize = 0;
        while i < v.len() {
            let (end, next) = next_line(&v, i);
            got.push(string_from_chars(&v, i, end));
            i = next;
        }
        let expected: Vec<String> = text.lines().map(|l| l.to_string()).collect();
        assert_eq!(got, expected);
    }
}

#[test]
fn words_like_std() {
    for text in ["", " ", "a", " a ", "a b", "a  b\tc\n", "\u{a0}x\u{3000}y"] {
        let v = chars(text);
        let mut got: Vec<String> = Vec::new();
        let mut i: usize = 0;
        loop {
            let (start, end) = next_word(&v, i);
            if start == end {
                break;
            }
            got.push(string_from_chars(&v, start, end));
            i = end;
        }
        let expected: Vec<String> = text.split_whitespace().map(|w| w.to_string()).collect();
        assert_eq!(got, expected);
    }
}

#[test]
fn substrings_and_suffixes() {
    assert!(has_substring(&chars("GET / HTTP/1.1"), &chars("HTTP")));
    assert!(has_substring(&chars("HTTP"), &chars("HTTP")));
    assert!(!has_substring(&chars("HTT"), &chars("HTTP")));
    assert!(!has_substring(&chars("HTxTP"), &chars("HTTP")));
    assert!(has_substring(&chars("abc"), &chars("")));
    assert!(has_substring(&chars(""), &chars("")));
    assert!(has_suffix(&chars("a.css"), &chars(".css")));
    assert!(!has_suffix(&chars("a.cs"), &chars(".css")));
    assert!(!has_suffix(&chars("css"), &chars(".css")));
    assert!(range_is(&chars("/api/x"), 1, 4, "api"));
    assert!(!range_is(&chars("/api/x"), 1, 5, "api"));
    assert!(!range_is(&chars("/apx/x"), 1, 4, "api"));
}

#[test]
fn pieces_like_split() {
    for text in ["", "/", "/a", "/a/b", "a/b/", "//", "/api/shipping/orders", "abc"] {
        let v = chars(text);
        let expected: Vec<&str> = text.split('/').collect();
        for n in 0..6 {
            let (from, to) = find_piece(&v, '/', n);
            let want = if n < expected.len() { expected[n] } else { "" };
            assert_eq!(string_from_chars(&v, from, to), want);
        }
    }
}

#[test]
fn decimal_numerals() {
    for n in [0usize, 1, 9, 10, 11, 33, 99, 100, 101, 1234, 90210, usize::MAX] {
        let mut s = String::from("n=");
        push_decimal(&mut s, n);
        assert_eq!(s, format!("n={}", n));
    }
}

#[test]
fn first_occurrences() {
    assert_eq!(find_substring(&chars("a\r\n\r\nb\r\n\r\n"), &chars("\r\n\r\n")), Some(1));
    assert_eq!(find_substring(&chars("abab"), &chars("ab")), Some(0));
    assert_eq!(find_substring(&chars("aab"), &chars("ab")), Some(1));
    assert_eq!(find_substring(&chars("abc"), &chars("abcd")), None);
    assert_eq!(find_substring(&chars("abc"), &chars("x")), None);
    assert_eq!(find_substring(&chars("abc"), &chars("")), Some(0));
}

#[test]
fn numerals() {
    let v = chars("x123y");
    assert_eq!(read_numeral(&v, 1, 4), Numeral::Value(123));
    assert_eq!(read_numeral(&v, 1, 2), Numeral::Value(1));
    assert_eq!(read_numeral(&v, 1, 1), Numeral::Invalid);
    assert_eq!(read_numeral(&v, 0, 4), Numeral::Invalid);
    assert_eq!(read_numeral(&v, 1, 5), Numeral::Invalid);
    let v = chars("007");
    assert_eq!(read_numeral(&v, 0, 3), Numeral::Value(7));
    let v = chars(&usize::MAX.to_string());
    assert_eq!(read_numeral(&v, 0, v.len()), Numeral::Value(usize::MAX));
    let v = chars(&format!("{}0", usize::MAX));
    assert_eq!(read_numeral(&v, 0, v.len()), Numeral::TooLarge);
    let v = chars("18446744073709551616");
    assert_eq!(read_numeral(&v, 0, v.len()), Numeral::TooLarge);
    let v = chars("18446744073709551616x");
    assert_eq!(read_numeral(&v, 0, v.len()), Numeral::Invalid);
    let v = chars("\u{661}\u{662}");
    assert_eq!(read_numeral(&v, 0, 2), Numeral::Invalid);
}
