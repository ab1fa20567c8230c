use web_server_core::text::chars_of;
use web_server_core::text::format_decimal;
use web_server_core::text::non_empty;
use web_server_core::text::parse_decimal;
use web_server_core::text::push_decimal;
use web_server_core::text::push_text;
use web_server_core::text::split;
use web_server_core::text::split_once;
use web_server_core::text::split_words;
use web_server_core::text::text_of;
use web_server_core::text::trim;
use web_server_core::text::Delimiter;
use web_server_core::text::has_char;
use web_server_core::text::has_prefix;
use web_server_core::text::is_trimmed;
use web_server_core::text::strip_prefix;

fn strings(items: &[&str]) -> Vec<String> {
    items.iter().map(|s| s.to_string()).collect()
}

#[test]
fn split_keeps_empty_pieces() {
    assert_eq!(split("a,b", Delimiter::Char(',')), strings(&["a", "b"]));
    assert_eq!(split("", Delimiter::Char(',')), strings(&[""]));
    assert_eq!(split(",", Delimiter::Char(',')), strings(&["", ""]));
    assert_eq!(split("a,,b,", Delimiter::Char(',')), strings(&["a", "", "b", ""]));
    assert_eq!(split("no separator", Delimiter::Char(',')), strings(&["no separator"]));
}

#[test]
fn split_agrees_with_std_split() {
    for text in ["/images/cat.png", "//a///b/", "", "/", "a=b&c=d&&e"] {
        for sep in ['/', '&', '='] {
            let expected: Vec<String> = text.split(sep).map(String::from).collect();
            assert_eq!(split(text, Delimiter::Char(sep)), expected);
        }
    }
}

#[test]
fn delimiter_tests_characters() {
    assert!(Delimiter::Char('/').test('/'));
    assert!(!Delimiter::Char('/').test(' '));
    assert!(Delimiter::Whitespace.test(' '));
    assert!(Delimiter::Whitespace.test('\t'));
    assert!(Delimiter::Whitespace.test('\u{a0}'));
    assert!(!Delimiter::Whitespace.test('x'));
}

#[test]
fn non_empty_drops_only_empty_strings() {
    assert_eq!(non_empty(strings(&["", "a", "", "", "b", ""])), strings(&["a", "b"]));
    assert_eq!(non_empty(strings(&["", ""])), strings(&[]));
    assert_eq!(non_empty(strings(&[" "])), strings(&[" "]));
}

#[test]
fn split_words_agrees_with_split_whitespace() {
    for text in ["GET /home HTTP/1.1", "  a \t b\u{a0}c  ", "", "   ", "one", "a\r\nb"] {
        let expected: Vec<String> = text.split_whitespace().map(String::from).collect();
        assert_eq!(split_words(text), expected);
    }
    assert_eq!(split_words("GET /home HTTP/1.1"), strings(&["GET", "/home", "HTTP/1.1"]));
}

#[test]
fn split_once_cuts_at_the_first_separator() {
    assert_eq!(split_once("a=b", '='), Some(("a".to_string(), "b".to_string())));
    assert_eq!(split_once("a=b=c", '='), Some(("a".to_string(), "b=c".to_string())));
    assert_eq!(split_once("=", '='), Some(("".to_string(), "".to_string())));
    assert_eq!(split_once("host: localhost:8000", ':'), Some(("host".to_string(), " localhost:8000".to_string())));
    assert_eq!(split_once("abc", '='), None);
    assert_eq!(split_once("", '='), None);
}

#[test]
fn trim_removes_whitespace_at_both_ends_only() {
    assert_eq!(trim("  a b  "), "a b");
    assert_eq!(trim("\t\r\n x \u{a0}"), "x");
    assert_eq!(trim(""), "");
    assert_eq!(trim("   "), "");
    assert_eq!(trim("x"), "x");
    for text in [" theme=dark", "a  ", "\u{2003}wide\u{2003}", " interior space "] {
        assert_eq!(trim(text), text.trim());
    }
}

#[test]
fn parse_decimal_reads_non_negative_integers() {
    assert_eq!(parse_decimal("0"), Some(0));
    assert_eq!(parse_decimal("31"), Some(31));
    assert_eq!(parse_decimal("+31"), Some(31));
    assert_eq!(parse_decimal("007"), Some(7));
    assert_eq!(parse_decimal(&usize::MAX.to_string()), Some(usize::MAX));
}

#[test]
fn parse_decimal_refuses_what_is_no_number() {
    assert_eq!(parse_decimal(""), None);
    assert_eq!(parse_decimal("+"), None);
    assert_eq!(parse_decimal("-1"), None);
    assert_eq!(parse_decimal("-0"), None);
    assert_eq!(parse_decimal("1 "), None);
    assert_eq!(parse_decimal(" 1"), None);
    assert_eq!(parse_decimal("12a"), None);
    assert_eq!(parse_decimal("++1"), None);
    assert_eq!(parse_decimal("1.5"), None);
    assert_eq!(parse_decimal("\u{663}"), None);
}

#[test]
fn parse_decimal_refuses_what_does_not_fit() {
    let mut too_large = usize::MAX.to_string();
    too_large.push('0');
    assert_eq!(parse_decimal(&too_large), None);
    let digits = usize::MAX.to_string();
    let (head, last) = digits.split_at(digits.len() - 1);
    let next = format!("{}{}", head, last.parse::<u8>().unwrap() + 1);
    assert_eq!(parse_decimal(&next), None);
    assert_eq!(parse_decimal("99999999999999999999999999999999999999"), None);
}

#[test]
fn parse_decimal_agrees_with_std_parse() {
    for text in ["0", "10", "+5", "-5", "", "abc", "18446744073709551615", "18446744073709551616", "0000000000000000000000001"] {
        assert_eq!(parse_decimal(text), text.parse::<usize>().ok());
    }
}

#[test]
fn format_decimal_writes_digits_without_padding() {
    assert_eq!(format_decimal(0), "0");
    assert_eq!(format_decimal(9), "9");
    assert_eq!(format_decimal(10), "10");
    assert_eq!(format_decimal(404), "404");
    assert_eq!(format_decimal(u64::MAX), "18446744073709551615");
}

#[test]
fn decimal_round_trip_on_values() {
    for n in [0usize, 1, 9, 10, 99, 100, 12345, usize::MAX] {
        assert_eq!(parse_decimal(&format_decimal(n as u64)), Some(n));
    }
}

#[test]
fn push_decimal_and_push_text_append() {
    let mut out = String::from("n=");
    push_decimal(&mut out, 120);
    push_text(&mut out, "; ");
    push_text(&mut out, "");
    push_decimal(&mut out, 7);
    assert_eq!(out, "n=120; 7");
}

#[test]
fn chars_of_and_text_of_are_inverse() {
    let chars = chars_of("héllo");
    assert_eq!(chars, vec!['h', 'é', 'l', 'l', 'o']);
    assert_eq!(text_of(&chars, 0, 5), "héllo");
    assert_eq!(text_of(&chars, 1, 3), "él");
    assert_eq!(text_of(&chars, 2, 2), "");
}

#[test]
fn strip_prefix_and_has_prefix() {
    assert_eq!(strip_prefix("/images/cat.png", "/images/"), Some("cat.png".to_string()));
    assert_eq!(strip_prefix("/images/", "/images/"), Some("".to_string()));
    assert_eq!(strip_prefix("/images", "/images/"), None);
    assert_eq!(strip_prefix("ximages/", "/images/"), None);
    assert_eq!(strip_prefix("abc", ""), Some("abc".to_string()));
    assert_eq!(strip_prefix("", ""), Some("".to_string()));
    assert_eq!(strip_prefix("", "a"), None);
    assert!(has_prefix("assets/images/x", "assets/images/"));
    assert!(!has_prefix("/etc/passwd", "assets/images/"));
}


#[test]
fn has_char_and_is_trimmed() {
    assert!(has_char("a=b", '='));
    assert!(!has_char("ab", '='));
    assert!(!has_char("", '='));
    assert!(is_trimmed(""));
    assert!(is_trimmed("a b"));
    assert!(!is_trimmed(" a"));
    assert!(!is_trimmed("a\u{a0}"));
    assert!(!is_trimmed(" "));
    for text in ["", "x", " x", "x ", "\tx\n", "a b"] {
        assert_eq!(is_trimmed(text), text.trim() == text);
    }
}
