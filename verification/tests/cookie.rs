use web_server_core::http_server::cookie::is_plain;
use web_server_core::http_server::cookie::parse_cookies;
use web_server_core::http_server::Cookie;

fn pairs(cookies: &[Cookie]) -> Vec<(String, String)> {
    cookies.iter().map(|c| (c.name.clone(), c.value.clone())).collect()
}

fn pair(name: &str, value: &str) -> (String, String) {
    (name.to_string(), value.to_string())
}

#[test]
fn cookie_string_is_name_equals_value() {
    assert_eq!(Cookie::new("session_id", "abc123".to_string()).cookie_string(), "session_id=abc123");
    assert_eq!(Cookie::new("", "".to_string()).cookie_string(), "=");
    assert_eq!(Cookie::new("a", "b=c".to_string()).cookie_string(), "a=b=c");
}

#[test]
fn cookie_header_with_two_cookies() {
    let cookies = parse_cookies("session_id=abc123; theme=dark");
    assert_eq!(pairs(&cookies), vec![pair("session_id", "abc123"), pair("theme", "dark")]);
}

#[test]
fn cookie_pieces_without_equals_are_skipped() {
    let cookies = parse_cookies("a=1; broken; b=2;");
    assert_eq!(pairs(&cookies), vec![pair("a", "1"), pair("b", "2")]);
    assert_eq!(pairs(&parse_cookies("")), vec![]);
    assert_eq!(pairs(&parse_cookies("novalue")), vec![]);
}

#[test]
fn cookie_duplicates_are_kept_in_order() {
    let cookies = parse_cookies("a=1;a=2 ;  a = 3");
    assert_eq!(pairs(&cookies), vec![pair("a", "1"), pair("a", "2"), pair("a", "3")]);
}

#[test]
fn cookie_value_keeps_later_equals_signs() {
    let cookies = parse_cookies("token=a=b==");
    assert_eq!(pairs(&cookies), vec![pair("token", "a=b==")]);
}

#[test]
fn cookie_round_trip_on_values() {
    for (name, value) in [("session_id", "17300000001234567890"), ("theme", "dark"), ("empty", "")] {
        let text = Cookie::new(name, value.to_string()).cookie_string();
        assert_eq!(pairs(&parse_cookies(&text)), vec![pair(name, value)]);
    }
}

#[test]
fn cookie_clone_is_equal() {
    let cookie = Cookie::new("a", "b".to_string());
    let copy = cookie.clone();
    assert_eq!(copy.name, "a");
    assert_eq!(copy.value, "b");
}

#[test]
fn plain_cookies_read_back_as_themselves() {
    let cases = [
        ("session_id", "abc123", true),
        ("a", "b=c", true),
        ("", "", true),
        ("a b", "c d", true),
        ("a=b", "c", false),
        ("a;b", "c", false),
        ("a", "c;d", false),
        (" a", "c", false),
        ("a", "c ", false),
        ("a\t", "c", false),
    ];
    for (name, value, plain) in cases {
        assert_eq!(is_plain(name, value), plain, "{}={}", name, value);
        if plain {
            let text = Cookie::new(name, value.to_string()).cookie_string();
            assert_eq!(pairs(&parse_cookies(&text)), vec![pair(name, value)]);
        }
    }
}
