use what::text::{
    decimal_text, has_prefix, join_text, keep_filled, lines, reversed, same_text, split_text,
    trim_text, without_first, Separator,
};

fn strings(items: &[&str]) -> Vec<String> {
    items.iter().map(|item| item.to_string()).collect()
}

#[test]
fn prefixes() {
    assert!(has_prefix("$ ls", "$ "));
    assert!(has_prefix("$ ", "$ "));
    assert!(has_prefix("anything", ""));
    assert!(has_prefix("", ""));
    assert!(!has_prefix("$", "$ "));
    assert!(!has_prefix(" $ ls", "$ "));
    assert!(!has_prefix("", "$"));
    assert!(has_prefix("\u{276f} ls", "\u{276f}"));
    assert!(!has_prefix("e\u{301}", "\u{e9}"));
}

#[test]
fn same_texts() {
    assert!(same_text("stop", "stop"));
    assert!(same_text("", ""));
    assert!(!same_text("stop", "Stop"));
    assert!(!same_text("stop", "stop "));
}

#[test]
fn rest_of_a_text() {
    assert_eq!(without_first("$ ls", 2), "ls");
    assert_eq!(without_first("$ ls", 0), "$ ls");
    assert_eq!(without_first("$ ls", 4), "");
    assert_eq!(without_first("$ ls", 5), "");
    assert_eq!(without_first("", usize::MAX), "");
    assert_eq!(without_first("\u{276f}\u{276f} ls", 2), " ls");
}

#[test]
fn pieces_of_a_text() {
    assert_eq!(split_text("a/b//c", Separator::Char('/')), strings(&["a", "b", "", "c"]));
    assert_eq!(split_text("", Separator::Char('/')), strings(&[""]));
    assert_eq!(split_text("/", Separator::Char('/')), strings(&["", ""]));
    assert_eq!(split_text("abc", Separator::Char('/')), strings(&["abc"]));
    assert_eq!(split_text(" a\tb ", Separator::Whitespace), strings(&["", "a", "b", ""]));
    for text in ["", "x", "a\nb\n", "\n\n", "caf\u{e9}\n\u{276f}"] {
        let expected: Vec<String> = text.split('\n').map(String::from).collect();
        assert_eq!(split_text(text, Separator::Char('\n')), expected);
    }
}

#[test]
fn whitespace_is_what_unicode_says() {
    for code in 0..=0x10ffffu32 {
        if let Some(c) = char::from_u32(code) {
            assert_eq!(Separator::Whitespace.separates(c), c.is_whitespace());
        }
    }
    assert!(Separator::Char('x').separates('x'));
    assert!(!Separator::Char('x').separates('y'));
}

#[test]
fn filled_pieces() {
    assert_eq!(keep_filled(&strings(&["", "a", "", "", "b", ""])), strings(&["a", "b"]));
    assert_eq!(keep_filled(&strings(&["", ""])), Vec::<String>::new());
    assert_eq!(keep_filled(&Vec::new()), Vec::<String>::new());
}

#[test]
fn lines_of_a_text() {
    assert_eq!(lines("a\nb\n"), strings(&["a", "b"]));
    assert_eq!(lines("a\nb"), strings(&["a", "b"]));
    assert_eq!(lines("a\n\nb\n\n"), strings(&["a", "", "b", ""]));
    assert_eq!(lines(""), Vec::<String>::new());
    assert_eq!(lines("\n"), strings(&[""]));
    assert_eq!(lines("a\r\nb\r"), strings(&["a", "b\r"]));
    assert_eq!(lines("\r\n"), strings(&[""]));
    for text in ["", "x", "a\nb\n", "\n\n", "a\r\n\r\nb", "\r", "a\r\r\n", "caf\u{e9}\n\u{276f}\n"] {
        let expected: Vec<String> = text.lines().map(String::from).collect();
        assert_eq!(lines(text), expected);
    }
}

#[test]
fn trimmed_texts() {
    assert_eq!(trim_text("\"abc\"", '"'), "abc");
    assert_eq!(trim_text("\"\"a\"b\"\"\"", '"'), "a\"b");
    assert_eq!(trim_text("abc", '"'), "abc");
    assert_eq!(trim_text("\"\"", '"'), "");
    assert_eq!(trim_text("", '"'), "");
    assert_eq!(trim_text("\"", '"'), "");
    assert_eq!(trim_text("x\"", '"'), "x");
    assert_eq!(trim_text("\"x", '"'), "x");
    for text in ["\"\u{e9}\"", "a\"\"", "\"\"\"", "\" \""] {
        assert_eq!(trim_text(text, '"'), text.trim_matches('"'));
    }
}

#[test]
fn decimal_notation() {
    assert_eq!(decimal_text(0), "0");
    assert_eq!(decimal_text(7), "7");
    assert_eq!(decimal_text(10), "10");
    assert_eq!(decimal_text(418), "418");
    assert_eq!(decimal_text(1234567890), "1234567890");
    assert_eq!(decimal_text(u64::MAX), "18446744073709551615");
}

#[test]
fn joined_texts() {
    assert_eq!(join_text(&strings(&["a", "b", "c"]), ", "), "a, b, c");
    assert_eq!(join_text(&strings(&["a"]), ", "), "a");
    assert_eq!(join_text(&strings(&["", ""]), "-"), "-");
    assert_eq!(join_text(&Vec::new(), ", "), "");
}

#[test]
fn reversed_texts() {
    assert_eq!(reversed(strings(&["a", "b", "c"])), strings(&["c", "b", "a"]));
    assert_eq!(reversed(Vec::new()), Vec::<String>::new());
    assert_eq!(reversed(reversed(strings(&["x", "y"]))), strings(&["x", "y"]));
}
