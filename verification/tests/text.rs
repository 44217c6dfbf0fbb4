use storage_cli::text::{
    chars_of, format_decimal, parse_index, split_attribute, split_whitespace, str_eq, whitespace,
};

fn words(list: &[&str]) -> Vec<String> {
    list.iter().map(|word| word.to_string()).collect()
}

#[test]
fn str_eq_compares_bytes() {
    assert!(str_eq("", ""));
    assert!(str_eq("file", "file"));
    assert!(!str_eq("file", "files"));
    assert!(!str_eq("file", "fild"));
    assert!(!str_eq("File", "file"));
    assert!(!str_eq("", "a"));
    assert!(str_eq("\u{e9}t\u{e9}", "\u{e9}t\u{e9}"));
    assert!(!str_eq("\u{e9}", "e\u{301}"));
}

#[test]
fn chars_of_gives_each_character() {
    assert_eq!(chars_of(""), Vec::<char>::new());
    assert_eq!(chars_of("a\u{e9}\u{1F600}z"), vec!['a', '\u{e9}', '\u{1F600}', 'z']);
}

#[test]
fn whitespace_is_the_unicode_white_space_property() {
    let mut found: Vec<u32> = Vec::new();
    for code in 0..=0x10FFFFu32 {
        if let Some(c) = char::from_u32(code) {
            assert_eq!(whitespace(c), c.is_whitespace(), "at U+{:04X}", code);
            if whitespace(c) {
                found.push(code);
            }
        }
    }
    assert_eq!(
        found,
        vec![
            0x09, 0x0A, 0x0B, 0x0C, 0x0D, 0x20, 0x85, 0xA0, 0x1680, 0x2000, 0x2001, 0x2002, 0x2003,
            0x2004, 0x2005, 0x2006, 0x2007, 0x2008, 0x2009, 0x200A, 0x2028, 0x2029, 0x202F, 0x205F,
            0x3000
        ]
    );
}

#[test]
fn split_whitespace_of_an_empty_or_blank_line_gives_no_token() {
    assert_eq!(split_whitespace(""), Vec::<String>::new());
    assert_eq!(split_whitespace(" "), Vec::<String>::new());
    assert_eq!(split_whitespace(" \t \r\n"), Vec::<String>::new());
}

#[test]
fn split_whitespace_splits_on_runs_of_whitespace() {
    assert_eq!(split_whitespace("a"), words(&["a"]));
    assert_eq!(split_whitespace("file create /a hello"), words(&["file", "create", "/a", "hello"]));
    assert_eq!(
        split_whitespace("  file \t\tcreate   /a hello\n"),
        words(&["file", "create", "/a", "hello"])
    );
    assert_eq!(split_whitespace("a\u{a0}b\u{3000}c\u{2003}d"), words(&["a", "b", "c", "d"]));
    assert_eq!(split_whitespace("\u{e9}t\u{e9} \u{1F600}"), words(&["\u{e9}t\u{e9}", "\u{1F600}"]));
    // a zero-width space is no whitespace
    assert_eq!(split_whitespace("a\u{200b}b"), words(&["a\u{200b}b"]));
}

#[test]
fn split_whitespace_agrees_with_the_standard_library() {
    let lines = [
        "",
        "x",
        " x",
        "x ",
        " x ",
        "block write 2 hello",
        "object create o1 payload color=red size=big",
        "\t\ta  b\u{85}c\u{1680}d\u{2028}e\u{2029}f\u{202f}g\u{205f}h\n",
        "\u{b}\u{c}end",
    ];
    for line in lines {
        let expected: Vec<String> = line.split_whitespace().map(|w| w.to_string()).collect();
        assert_eq!(split_whitespace(line), expected, "for {:?}", line);
    }
}

#[test]
fn split_attribute_splits_at_the_first_equals_sign() {
    assert_eq!(split_attribute("k=v"), Some(("k".to_string(), "v".to_string())));
    assert_eq!(split_attribute("color=red"), Some(("color".to_string(), "red".to_string())));
    assert_eq!(split_attribute("a=b=c"), Some(("a".to_string(), "b=c".to_string())));
    assert_eq!(split_attribute("a=="), Some(("a".to_string(), "=".to_string())));
    assert_eq!(
        split_attribute("\u{e9}=\u{1F600}"),
        Some(("\u{e9}".to_string(), "\u{1F600}".to_string()))
    );
}

#[test]
fn split_attribute_takes_an_empty_value() {
    assert_eq!(split_attribute("k="), Some(("k".to_string(), String::new())));
}

#[test]
fn split_attribute_refuses_a_token_without_a_key_or_without_an_equals_sign() {
    assert_eq!(split_attribute(""), None);
    assert_eq!(split_attribute("kv"), None);
    assert_eq!(split_attribute("=v"), None);
    assert_eq!(split_attribute("="), None);
    assert_eq!(split_attribute("=="), None);
}

#[test]
fn parse_index_reads_decimal_digits() {
    assert_eq!(parse_index("0"), Some(0));
    assert_eq!(parse_index("2"), Some(2));
    assert_eq!(parse_index("10"), Some(10));
    assert_eq!(parse_index("007"), Some(7));
    assert_eq!(parse_index("12345"), Some(12345));
    assert_eq!(parse_index("+5"), Some(5));
    assert_eq!(parse_index("+0"), Some(0));
}

#[test]
fn parse_index_refuses_what_is_no_index() {
    assert_eq!(parse_index(""), None);
    assert_eq!(parse_index("+"), None);
    assert_eq!(parse_index("-1"), None);
    assert_eq!(parse_index("-0"), None);
    assert_eq!(parse_index("++1"), None);
    assert_eq!(parse_index("1+"), None);
    assert_eq!(parse_index("abc"), None);
    assert_eq!(parse_index("1a"), None);
    assert_eq!(parse_index("a1"), None);
    assert_eq!(parse_index("1.5"), None);
    assert_eq!(parse_index("0x10"), None);
    assert_eq!(parse_index("1_000"), None);
    assert_eq!(parse_index("\u{661}"), None);
}

#[test]
fn parse_index_stops_at_the_largest_index() {
    let max = usize::MAX.to_string();
    assert_eq!(parse_index(&max), Some(usize::MAX));
    assert_eq!(parse_index(&format!("+000{}", max)), Some(usize::MAX));
    let mut beyond = max.clone().into_bytes();
    let last = beyond.len() - 1;
    beyond[last] += 1;
    assert_eq!(parse_index(&String::from_utf8(beyond).unwrap()), None);
    assert_eq!(parse_index(&format!("{}0", max)), None);
    assert_eq!(parse_index("99999999999999999999999999999999999999999999"), None);
    assert_eq!(parse_index("99999999999999999999999999999999999999999999x"), None);
}

#[test]
fn parse_index_agrees_with_the_standard_library() {
    let tokens = ["0", "5", "+5", "-5", "", "+", "00", "4294967295", "4294967296",
        "18446744073709551615", "18446744073709551616", "1e3", " 1", "1 "];
    for token in tokens {
        assert_eq!(parse_index(token), token.parse::<usize>().ok(), "for {:?}", token);
    }
}

#[test]
fn format_decimal_writes_base_ten() {
    assert_eq!(format_decimal(0), "0");
    assert_eq!(format_decimal(7), "7");
    assert_eq!(format_decimal(9), "9");
    assert_eq!(format_decimal(10), "10");
    assert_eq!(format_decimal(16), "16");
    assert_eq!(format_decimal(100), "100");
    assert_eq!(format_decimal(1234567890), "1234567890");
    assert_eq!(format_decimal(usize::MAX), usize::MAX.to_string());
}

#[test]
fn format_decimal_then_parse_index_gives_the_number_back() {
    for n in [0usize, 1, 9, 10, 11, 99, 100, 101, 65535, 65536, usize::MAX - 1, usize::MAX] {
        assert_eq!(parse_index(&format_decimal(n)), Some(n));
    }
}
