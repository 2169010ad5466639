use mcp_discovery::text::{chars_of, contains, is_whitespace, parse_u32, split_fields, split_lines, text_between};

fn std_lines(s: &str) -> Vec<String> {
    s.lines().map(String::from).collect()
}

fn std_fields(s: &str) -> Vec<String> {
    s.split_whitespace().map(String::from).collect()
}

#[test]
fn lines_of_texts() {
    assert_eq!(split_lines("a\nb"), vec!["a".to_string(), "b".to_string()]);
    assert_eq!(split_lines("a\nb\n"), vec!["a".to_string(), "b".to_string()]);
    assert_eq!(split_lines("a\r\n\r\nb\r"), vec!["a".to_string(), "".to_string(), "b\r".to_string()]);
    assert_eq!(split_lines("\n"), vec!["".to_string()]);
    assert_eq!(split_lines("\r\n"), vec!["".to_string()]);
    assert_eq!(split_lines("\r"), vec!["\r".to_string()]);
    assert_eq!(split_lines("a\rb\n"), vec!["a\rb".to_string()]);
    assert!(split_lines("").is_empty());
}

#[test]
fn lines_as_the_standard_library_gives_them() {
    for s in ["", "\n", "\n\n", "a", "a\n", "a\r\n", "\r\n\r\n", "a\r", "\r", "\r\r\n", "x\n\ny", "é\r\nü\n", "a\n\r", "a\n\rb"] {
        assert_eq!(split_lines(s), std_lines(s), "{:?}", s);
    }
}

#[test]
fn fields_as_the_standard_library_gives_them() {
    for s in ["", " ", "a", " a ", "a b", "a\tb\nc", "\u{a0}a\u{3000}b\u{2003}", "a\u{200b}b", "  x  y  ", "é ü", "a\u{85}b\u{1680}c\u{2028}d\u{2029}e\u{202f}f\u{205f}g", "a\u{b}b\u{c}c\rd", "a\u{180e}b\u{feff}c"] {
        assert_eq!(split_fields(s), std_fields(s), "{:?}", s);
    }
}

#[test]
fn numbers_of_texts() {
    assert_eq!(parse_u32("0"), Some(0));
    assert_eq!(parse_u32("12345"), Some(12345));
    assert_eq!(parse_u32("+7"), Some(7));
    assert_eq!(parse_u32("007"), Some(7));
    assert_eq!(parse_u32("4294967295"), Some(4294967295));
    assert_eq!(parse_u32("4294967296"), None);
    assert_eq!(parse_u32("99999999999999999999999"), None);
    assert_eq!(parse_u32(""), None);
    assert_eq!(parse_u32("+"), None);
    assert_eq!(parse_u32("-"), None);
    assert_eq!(parse_u32("-1"), None);
    assert_eq!(parse_u32("-0"), None);
    assert_eq!(parse_u32("++1"), None);
    assert_eq!(parse_u32("1 "), None);
    assert_eq!(parse_u32(" 1"), None);
    assert_eq!(parse_u32("1_000"), None);
    assert_eq!(parse_u32("12a"), None);
    assert_eq!(parse_u32("١٢"), None);
}

#[test]
fn numbers_as_the_standard_library_reads_them() {
    for s in ["", "+", "-", "0", "+0", "-0", "1", "+1", "++1", "+-1", "00042", "4294967295", "4294967296", "+4294967295", "42949672950", "0x10", "1e3", "1.0", " 1", "1\n", "٣", "1+"] {
        assert_eq!(parse_u32(s), s.parse::<u32>().ok(), "{:?}", s);
    }
}

#[test]
fn characters_of_texts() {
    assert_eq!(chars_of("aé日"), vec!['a', 'é', '日']);
    assert!(chars_of("").is_empty());
    let cs = chars_of("hello");
    assert_eq!(text_between(&cs, 1, 3), "el");
    assert_eq!(text_between(&cs, 0, 5), "hello");
    assert_eq!(text_between(&cs, 2, 2), "");
}

#[test]
fn white_space_as_the_standard_library_knows_it() {
    for u in 0u32..0x3100 {
        if let Some(c) = char::from_u32(u) {
            assert_eq!(is_whitespace(c), c.is_whitespace(), "{:x}", u);
        }
    }
    for c in ['\u{feff}', '\u{e000}', '\u{10ffff}', '\u{1f600}'] {
        assert_eq!(is_whitespace(c), c.is_whitespace());
    }
}

#[test]
fn parts_of_texts() {
    assert!(contains("abc", ""));
    assert!(contains("", ""));
    assert!(!contains("", "a"));
    assert!(contains("abc", "abc"));
    assert!(contains("abc", "bc"));
    assert!(contains("abc", "a"));
    assert!(!contains("abc", "abcd"));
    assert!(!contains("abc", "ac"));
    assert!(contains("aab", "ab"));
    assert!(contains("日本語", "本"));
    assert!(!contains("abc", "B"));
    for (h, n) in [("npx -y @azure/mcp", "@azure/mcp"), ("mcp-serve", "mcp-server"), ("xxmcp-serverxx", "mcp-server"), ("aaa", "aa"), ("ab", "ba")] {
        assert_eq!(contains(h, n), h.contains(n), "{:?} {:?}", h, n);
    }
}
