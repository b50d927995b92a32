use cyoa::input::{is_whitespace, is_yes, parse_key, parse_label};

#[test]
fn parse_label_reads_plain_numbers() {
    assert_eq!(parse_label("1"), Some(1));
    assert_eq!(parse_label("0"), Some(0));
    assert_eq!(parse_label("42"), Some(42));
    assert_eq!(parse_label("4294967295"), Some(4294967295));
}

#[test]
fn parse_label_ignores_white_space_around_the_number() {
    assert_eq!(parse_label("2\n"), Some(2));
    assert_eq!(parse_label("  17\t\r\n"), Some(17));
    assert_eq!(parse_label("\u{a0}3\u{3000}"), Some(3));
}

#[test]
fn parse_label_takes_a_plus_sign_and_leading_zeros() {
    assert_eq!(parse_label("+5"), Some(5));
    assert_eq!(parse_label("007"), Some(7));
    assert_eq!(parse_label("+0004294967295"), Some(4294967295));
}

#[test]
fn parse_label_refuses_what_is_no_number() {
    assert_eq!(parse_label("abc"), None);
    assert_eq!(parse_label(""), None);
    assert_eq!(parse_label("   "), None);
    assert_eq!(parse_label("+"), None);
    assert_eq!(parse_label("-1"), None);
    assert_eq!(parse_label("-0"), None);
    assert_eq!(parse_label("++1"), None);
    assert_eq!(parse_label("1 2"), None);
    assert_eq!(parse_label("1.0"), None);
    assert_eq!(parse_label("1e3"), None);
    assert_eq!(parse_label("12a"), None);
    assert_eq!(parse_label("1_000"), None);
    assert_eq!(parse_label("\u{0661}"), None);
}

#[test]
fn parse_label_refuses_numbers_beyond_32_bits() {
    assert_eq!(parse_label("4294967296"), None);
    assert_eq!(parse_label("4294967300"), None);
    assert_eq!(parse_label("99999999999999999999999999"), None);
    assert_eq!(parse_label("42949672950"), None);
}

#[test]
fn parse_label_agrees_with_trim_and_parse() {
    let pieces = ["", " ", "\n", "+", "-", "0", "1", "9", "42", "4294967295", "4294967296", "a", "\u{2003}", "\t"];
    for a in pieces {
        for b in pieces {
            for c in pieces {
                let line = format!("{}{}{}", a, b, c);
                assert_eq!(parse_label(&line), line.trim().parse::<u32>().ok(), "line {:?}", line);
            }
        }
    }
}

#[test]
fn is_whitespace_agrees_with_the_standard_library() {
    for n in 0..=0x10ffffu32 {
        if let Some(c) = char::from_u32(n) {
            assert_eq!(is_whitespace(c), c.is_whitespace(), "char {:?}", c);
        }
    }
}

#[test]
fn parse_key_reads_digits_only() {
    assert_eq!(parse_key("1"), Some(1));
    assert_eq!(parse_key("0"), Some(0));
    assert_eq!(parse_key("10"), Some(10));
    assert_eq!(parse_key("4294967295"), Some(4294967295));
}

#[test]
fn parse_key_refuses_signs_spaces_and_leading_zeros() {
    assert_eq!(parse_key(""), None);
    assert_eq!(parse_key("01"), None);
    assert_eq!(parse_key("00"), None);
    assert_eq!(parse_key("+1"), None);
    assert_eq!(parse_key("-1"), None);
    assert_eq!(parse_key(" 1"), None);
    assert_eq!(parse_key("1 "), None);
    assert_eq!(parse_key("1.0"), None);
    assert_eq!(parse_key("one"), None);
    assert_eq!(parse_key("4294967296"), None);
}

#[test]
fn is_yes_takes_y_in_either_case() {
    assert!(is_yes("y"));
    assert!(is_yes("Y"));
    assert!(is_yes("y\n"));
    assert!(is_yes("  Y \r\n"));
}

#[test]
fn is_yes_takes_nothing_else() {
    assert!(!is_yes(""));
    assert!(!is_yes("\n"));
    assert!(!is_yes("n"));
    assert!(!is_yes("yes"));
    assert!(!is_yes("yy"));
    assert!(!is_yes("y y"));
    assert!(!is_yes("1"));
}

#[test]
fn is_yes_agrees_with_trim_and_lowercase() {
    let pieces = ["", " ", "\n", "y", "Y", "n", "e", "\u{212a}", "\u{130}"];
    for a in pieces {
        for b in pieces {
            for c in pieces {
                let line = format!("{}{}{}", a, b, c);
                assert_eq!(is_yes(&line), line.trim().to_lowercase() == "y", "line {:?}", line);
            }
        }
    }
}

#[test]
fn only_the_letter_y_is_lowered_to_y() {
    for n in 0..=0x10ffffu32 {
        if let Some(c) = char::from_u32(n) {
            let line = c.to_string();
            assert_eq!(is_yes(&line), line.to_lowercase() == "y", "char {:?}", c);
        }
    }
}
