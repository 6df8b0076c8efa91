use sentences::space::{is_blank_str, is_whitespace, trim};
use sentences::split::{
    split_char, split_each_char, split_each_spaces, split_on_comma_etc, split_spaces,
    ASCII_COMMA, FULLWIDTH_COMMA,
};

#[test]
fn whitespace_is_that_of_unicode() {
    let mut code: u32 = 0;
    while code <= 0x10ffff {
        if let Some(c) = char::from_u32(code) {
            assert_eq!(is_whitespace(c), c.is_whitespace(), "U+{:04X}", code);
        }
        code += 1;
    }
}

#[test]
fn blank_strings() {
    assert!(is_blank_str(""));
    assert!(is_blank_str(" \t\r\n\u{3000}"));
    assert!(!is_blank_str(" a "));
    assert!(!is_blank_str("，"));
}

#[test]
fn trim_removes_both_ends_only() {
    assert_eq!(trim("  a b \n"), "a b");
    assert_eq!(trim("a"), "a");
    assert_eq!(trim(""), "");
    assert_eq!(trim(" \t "), "");
    assert_eq!(trim("\u{3000}你 好\u{3000}"), "你 好");
    for s in ["", " ", "x", " x", "x ", " x y ", "\t\n", "a\u{a0}", "\u{2003}b c\u{2003}"] {
        assert_eq!(trim(s), s.trim());
    }
}

#[test]
fn the_commas_are_what_they_are_called() {
    assert_eq!(ASCII_COMMA, ',');
    assert_eq!(FULLWIDTH_COMMA, '，');
}

#[test]
fn split_char_keeps_empty_pieces() {
    assert_eq!(split_char("a,b", ','), vec!["a", "b"]);
    assert_eq!(split_char("", ','), vec![""]);
    assert_eq!(split_char(",", ','), vec!["", ""]);
    assert_eq!(split_char(",a,,b,", ','), vec!["", "a", "", "b", ""]);
    assert_eq!(split_char("你，好", '，'), vec!["你", "好"]);
    for s in ["", "abc", "a,b", ",,", "a,", ",a", "x,，y,z"] {
        let expected: Vec<&str> = s.split(',').collect();
        assert_eq!(split_char(s, ','), expected);
    }
}

#[test]
fn split_spaces_takes_a_run_as_one_delimiter() {
    assert_eq!(split_spaces("a b"), vec!["a", "b"]);
    assert_eq!(split_spaces("a \t\n b"), vec!["a", "b"]);
    assert_eq!(split_spaces("a\u{3000}b  c"), vec!["a", "b", "c"]);
    assert_eq!(split_spaces("abc"), vec!["abc"]);
    assert_eq!(split_spaces(""), vec![""]);
    assert_eq!(split_spaces(" a"), vec!["", "a"]);
    assert_eq!(split_spaces("a  "), vec!["a", ""]);
    assert_eq!(split_spaces("   "), vec!["", ""]);
}

#[test]
fn split_each_flattens_in_order() {
    assert_eq!(split_each_char(&vec!["a，b", "", "c"], '，'), vec!["a", "b", "", "c"]);
    assert_eq!(split_each_char(&Vec::new(), ','), Vec::<&str>::new());
    assert_eq!(split_each_spaces(&vec!["a b", "", "c  d"]), vec!["a", "b", "", "c", "d"]);
    assert_eq!(split_each_spaces(&Vec::new()), Vec::<&str>::new());
}

#[test]
fn delimiter_precedence() {
    assert_eq!(split_on_comma_etc("a,b，c"), vec!["a", "b", "c"]);
}

#[test]
fn consecutive_delimiters_leave_an_empty_clause() {
    assert_eq!(split_on_comma_etc("a,,b"), vec!["a", "", "b"]);
    assert_eq!(split_on_comma_etc("a，，b"), vec!["a", "", "b"]);
    assert_eq!(split_on_comma_etc("a,，b"), vec!["a", "", "b"]);
    assert_eq!(split_on_comma_etc("a, b"), vec!["a", "", "b"]);
}

#[test]
fn no_delimiter_gives_the_sentence() {
    assert_eq!(split_on_comma_etc("你好"), vec!["你好"]);
    assert_eq!(split_on_comma_etc(""), vec![""]);
}

#[test]
fn clauses_hold_no_delimiter() {
    let found = split_on_comma_etc("one two,three，four\tfive  six,，seven");
    assert_eq!(found, vec!["one", "two", "three", "four", "five", "six", "", "seven"]);
    for clause in found {
        assert!(!clause.contains(','));
        assert!(!clause.contains('，'));
        assert!(!clause.contains(char::is_whitespace));
    }
}

fn rebuilds(sentence: &str) {
    let found = split_on_comma_etc(sentence);
    assert!(!found.is_empty());
    let mut rest = sentence;
    let last = found.len() - 1;
    for (i, clause) in found.iter().enumerate() {
        assert!(rest.starts_with(clause), "{:?} in {:?}", clause, sentence);
        rest = &rest[clause.len()..];
        if i < last {
            let first = rest.chars().next().unwrap();
            if first == ',' || first == '，' {
                rest = &rest[first.len_utf8()..];
            } else {
                assert!(first.is_whitespace(), "{:?} in {:?}", first, sentence);
                rest = rest.trim_start();
            }
        }
    }
    assert_eq!(rest, "");
}

#[test]
fn clauses_and_delimiters_rebuild_the_sentence() {
    for sentence in [
        "",
        "abc",
        "a,b，c",
        "a,,b",
        "a, b",
        " a ",
        ",",
        "  ",
        "今天天气真好，我们去公园 散步吧。",
        "one two,three，four\tfive  six,，seven",
        "，， ,, \t\n x",
    ] {
        rebuilds(sentence);
    }
}
