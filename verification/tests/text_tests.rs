use rusty_suite::text::{
    chars_of, decimal_string, parse_decimal_usize, split_lines, split_whitespace, string_of,
    trim_end_colons_of, white_space,
};

fn strings(v: &Vec<Vec<char>>) -> Vec<String> {
    v.iter().map(|t| t.iter().collect()).collect()
}

#[test]
fn tokens_split_at_any_white_space() {
    let s = chars_of("  push\t 12 \u{3000}extra\r\n");
    assert_eq!(strings(&split_whitespace(&s)), vec!["push", "12", "extra"]);
}

#[test]
fn tokens_of_blank_text_are_none() {
    assert!(split_whitespace(&chars_of("")).is_empty());
    assert!(split_whitespace(&chars_of(" \t\r\n ")).is_empty());
}

#[test]
fn white_space_agrees_with_std() {
    for code in 0u32..0x3100 {
        if let Some(c) = char::from_u32(code) {
            assert_eq!(white_space(c), c.is_whitespace(), "code point {:x}", code);
        }
    }
}

#[test]
fn lines_agree_with_std() {
    for text in ["", "a", "a\n", "a\nb", "a\r\nb\r\n", "\n\n", "x\n\ny", "tail\r"] {
        let ours = strings(&split_lines(&chars_of(text)));
        let theirs: Vec<String> = text.lines().map(|l| l.to_string()).collect();
        assert_eq!(ours, theirs, "text {:?}", text);
    }
}

#[test]
fn trailing_colons_are_removed() {
    assert_eq!(string_of(&trim_end_colons_of(&chars_of("ERROR:::"))), "ERROR");
    assert_eq!(string_of(&trim_end_colons_of(&chars_of(":a:b"))), ":a:b");
    assert_eq!(string_of(&trim_end_colons_of(&chars_of(":::"))), "");
}

#[test]
fn decimal_numbers_parse_like_std() {
    let max = usize::MAX.to_string();
    let over = format!("{}0", max);
    for text in ["0", "42", "+7", "", "+", "-1", "12a", " 3", "007", max.as_str(), over.as_str()] {
        assert_eq!(parse_decimal_usize(&chars_of(text)), text.parse::<usize>().ok(), "text {:?}", text);
    }
}

#[test]
fn decimal_spelling_matches_to_string() {
    for n in [0u64, 7, 10, 1234, 9_999_999, u64::MAX] {
        assert_eq!(decimal_string(n), n.to_string());
    }
}

#[test]
fn decimal_spelling_reads_back() {
    for n in [0u64, 9, 10, 99, 100, 65535, 4_294_967_295] {
        let spelled = decimal_string(n);
        assert_eq!(parse_decimal_usize(&chars_of(&spelled)), Some(n as usize));
    }
}

#[test]
fn tokens_are_nonempty_words() {
    let s = chars_of("a  b\u{2028}c\u{85}\u{a0}dd ");
    for t in split_whitespace(&s) {
        assert!(!t.is_empty());
        assert!(t.iter().all(|c| !c.is_whitespace()));
    }
}
