use web_server_core::http_server::parser::copy_range;
use web_server_core::http_server::parser::parse_headers;
use web_server_core::http_server::parser::parse_request;
use web_server_core::http_server::parser::read_request_line;
use web_server_core::http_server::parser::HeadersOutcome;
use web_server_core::http_server::parser::ParseOutcome;
use web_server_core::http_server::parser::ProtocolError;
use web_server_core::http_server::parser::RequestLineOutcome;
use web_server_core::http_server::request::parse_form;
use web_server_core::http_server::ContentType;
use web_server_core::http_server::HttpMethod;
use web_server_core::http_server::Request;
use web_server_core::string_map::StringMap;

fn complete(bytes: &[u8]) -> (Request, usize) {
    match parse_request(bytes) {
        ParseOutcome::Complete(request, consumed) => (request, consumed),
        ParseOutcome::Incomplete => panic!("incomplete"),
        ParseOutcome::Failed(e) => panic!("failed: {:?}", e),
    }
}

fn failure(bytes: &[u8]) -> Option<ProtocolError> {
    match parse_request(bytes) {
        ParseOutcome::Failed(e) => Some(e),
        _ => None,
    }
}

fn is_incomplete(bytes: &[u8]) -> bool {
    matches!(parse_request(bytes), ParseOutcome::Incomplete)
}

fn request_with(headers: &[(&str, &str)], body: &[u8]) -> Request {
    let mut map: StringMap<String> = StringMap::new();
    for (name, value) in headers {
        map.insert(name.to_string(), value.to_string());
    }
    Request {
        method: HttpMethod::POST,
        path: "/".to_string(),
        http_version: "HTTP/1.1".to_string(),
        headers: map,
        body: body.to_vec(),
    }
}

const LOGIN: &[u8] = b"POST /login HTTP/1.1\r\nHost: localhost:8000\r\nContent-Type: application/x-www-form-urlencoded\r\nContent-Length: 32\r\n\r\nusername=admin&password=hunter12";

#[test]
fn http_method_names() {
    assert_eq!(HttpMethod::from_str("GET"), Ok(HttpMethod::GET));
    assert_eq!(HttpMethod::from_str("POST"), Ok(HttpMethod::POST));
    assert_eq!(HttpMethod::from_str("get"), Ok(HttpMethod::GET));
    assert_eq!(HttpMethod::from_str("Post"), Ok(HttpMethod::POST));
    assert_eq!(HttpMethod::from_str("DELETE"), Err("Invalid Http method DELETE".to_string()));
    assert_eq!(HttpMethod::from_str(""), Err("Invalid Http method ".to_string()));
    assert_eq!(HttpMethod::from_str("GET "), Err("Invalid Http method GET ".to_string()));
}

#[test]
fn parse_get_without_body() {
    let (request, consumed) = complete(b"GET /home HTTP/1.1\r\nHost: Example.COM\r\n\r\n");
    assert_eq!(request.method, HttpMethod::GET);
    assert_eq!(request.path, "/home");
    assert_eq!(request.http_version, "HTTP/1.1");
    assert_eq!(request.headers.len(), 1);
    assert_eq!(request.headers.get("host"), Some(&"example.com".to_string()));
    assert_eq!(request.body, Vec::<u8>::new());
    assert_eq!(consumed, 41);
}

#[test]
fn parse_post_with_body_of_declared_length() {
    let (request, consumed) = complete(LOGIN);
    assert_eq!(request.method, HttpMethod::POST);
    assert_eq!(request.path, "/login");
    assert_eq!(request.body, b"username=admin&password=hunter12".to_vec());
    assert_eq!(request.body.len(), 32);
    assert_eq!(consumed, LOGIN.len());
    assert_eq!(request.headers.get("content-length"), Some(&"32".to_string()));
    assert_eq!(request.headers.key(0), "host");
    assert_eq!(request.headers.key(1), "content-type");
    assert_eq!(request.headers.key(2), "content-length");
}

#[test]
fn parse_needs_every_byte_of_the_message() {
    for k in 0..LOGIN.len() {
        assert!(is_incomplete(&LOGIN[..k]), "prefix of {} bytes", k);
    }
}

#[test]
fn parse_ignores_bytes_after_the_message() {
    let mut bytes = LOGIN.to_vec();
    bytes.extend_from_slice(b"GET /next HTTP/1.1\r\n\r\n");
    let (request, consumed) = complete(&bytes);
    assert_eq!(request.body, b"username=admin&password=hunter12".to_vec());
    assert_eq!(consumed, LOGIN.len());
    let (next, consumed_next) = complete(&bytes[consumed..]);
    assert_eq!(next.path, "/next");
    assert_eq!(consumed_next, 22);
}

#[test]
fn parse_accepts_bare_line_feeds() {
    let (request, consumed) = complete(b"GET / HTTP/1.0\nAccept: */*\n\n");
    assert_eq!(request.path, "/");
    assert_eq!(request.http_version, "HTTP/1.0");
    assert_eq!(request.headers.get("accept"), Some(&"*/*".to_string()));
    assert_eq!(consumed, 28);
}

#[test]
fn parse_trims_and_lowercases_headers() {
    let (request, _) = complete(b"GET / HTTP/1.1\r\n  X-Custom-HEADER :   Some VALUE  \r\n\r\n");
    assert_eq!(request.headers.get("x-custom-header"), Some(&"some value".to_string()));
    assert_eq!(request.headers.get("X-Custom-HEADER"), None);
}

#[test]
fn parse_keeps_the_later_of_two_equal_headers() {
    let (request, _) = complete(b"GET / HTTP/1.1\r\nA: 1\r\nB: 2\r\na: 3\r\n\r\n");
    assert_eq!(request.headers.len(), 2);
    assert_eq!(request.headers.get("a"), Some(&"3".to_string()));
    assert_eq!(request.headers.key(0), "a");
    assert_eq!(request.headers.key(1), "b");
}

#[test]
fn parse_splits_a_header_at_its_first_colon() {
    let (request, _) = complete(b"GET / HTTP/1.1\r\nHost: localhost:8000\r\n\r\n");
    assert_eq!(request.headers.get("host"), Some(&"localhost:8000".to_string()));
}

#[test]
fn parse_body_may_hold_any_bytes() {
    let mut bytes = b"POST /upload HTTP/1.1\r\nContent-Length: 5\r\n\r\n".to_vec();
    bytes.extend_from_slice(&[0, 255, 10, 13, 10]);
    let (request, consumed) = complete(&bytes);
    assert_eq!(request.body, vec![0, 255, 10, 13, 10]);
    assert_eq!(consumed, bytes.len());
}

#[test]
fn parse_content_length_zero_and_plus_sign() {
    let (request, _) = complete(b"POST / HTTP/1.1\r\nContent-Length: 0\r\n\r\n");
    assert_eq!(request.body.len(), 0);
    let (request, _) = complete(b"POST / HTTP/1.1\r\nContent-Length: +3\r\n\r\nabc");
    assert_eq!(request.body, b"abc".to_vec());
}

#[test]
fn parse_error_request_line() {
    assert_eq!(failure(b"GET /home\r\n\r\n"), Some(ProtocolError::RequestLine));
    assert_eq!(failure(b"GET /home HTTP/1.1 extra\r\n\r\n"), Some(ProtocolError::RequestLine));
    assert_eq!(failure(b"\r\n"), Some(ProtocolError::RequestLine));
    assert_eq!(failure(b"\n"), Some(ProtocolError::RequestLine));
}

#[test]
fn parse_error_header() {
    assert_eq!(
        failure(b"GET / HTTP/1.1\r\nno colon here\r\n\r\n"),
        Some(ProtocolError::Header)
    );
    assert_eq!(failure(b"GET / HTTP/1.1\r\n \r\n\r\n"), Some(ProtocolError::Header));
}

#[test]
fn parse_error_content_length() {
    assert_eq!(
        failure(b"POST / HTTP/1.1\r\nContent-Length: ten\r\n\r\n"),
        Some(ProtocolError::ContentLength)
    );
    assert_eq!(
        failure(b"POST / HTTP/1.1\r\nContent-Length: -1\r\n\r\n"),
        Some(ProtocolError::ContentLength)
    );
    assert_eq!(
        failure(b"POST / HTTP/1.1\r\nContent-Length:\r\n\r\n"),
        Some(ProtocolError::ContentLength)
    );
    assert_eq!(
        failure(b"POST / HTTP/1.1\r\nContent-Length: 99999999999999999999999999\r\n\r\n"),
        Some(ProtocolError::ContentLength)
    );
}

#[test]
fn parse_error_method() {
    assert_eq!(failure(b"DELETE /home HTTP/1.1\r\n\r\n"), Some(ProtocolError::Method));
    assert!(is_incomplete(b"DELETE /home HTTP/1.1\r\nContent-Length: 2\r\n\r\nx"));
    assert_eq!(
        failure(b"DELETE /home HTTP/1.1\r\nContent-Length: 2\r\n\r\nxy"),
        Some(ProtocolError::Method)
    );
}

#[test]
fn parse_error_encoding() {
    assert_eq!(failure(b"GET /\xff HTTP/1.1\r\n\r\n"), Some(ProtocolError::Encoding));
    assert_eq!(
        failure(b"GET / HTTP/1.1\r\nX: \xc3\x28\r\n\r\n"),
        Some(ProtocolError::Encoding)
    );
}

#[test]
fn parse_errors_come_in_the_order_of_the_lines() {
    assert_eq!(
        failure(b"GET /home\r\nno colon\r\n\r\n"),
        Some(ProtocolError::RequestLine)
    );
    assert_eq!(
        failure(b"DELETE / HTTP/1.1\r\nContent-Length: x\r\n\r\n"),
        Some(ProtocolError::ContentLength)
    );
    assert_eq!(failure(b"DELETE / HTTP/1.1\r\nbroken\r\n"), Some(ProtocolError::Header));
}

#[test]
fn parse_accepts_method_in_any_case_and_unicode_text() {
    let (request, _) = complete("get /caf\u{e9} HTTP/1.1\r\nX-Name: \u{c9}t\u{e9}\r\n\r\n".as_bytes());
    assert_eq!(request.method, HttpMethod::GET);
    assert_eq!(request.path, "/caf\u{e9}");
    assert_eq!(request.headers.get("x-name"), Some(&"\u{e9}t\u{e9}".to_string()));
}

#[test]
fn parse_incomplete_inputs() {
    assert!(is_incomplete(b""));
    assert!(is_incomplete(b"GET / HTTP/1.1"));
    assert!(is_incomplete(b"GET / HTTP/1.1\r\n"));
    assert!(is_incomplete(b"GET / HTTP/1.1\r\nHost: x\r\n"));
    assert!(is_incomplete(b"POST / HTTP/1.1\r\nContent-Length: 4\r\n\r\nabc"));
}

#[test]
fn read_request_line_outcomes() {
    assert!(matches!(read_request_line(b"GET /"), RequestLineOutcome::Incomplete));
    match read_request_line(b"GET  /a\tHTTP/1.1\r\nHost: x") {
        RequestLineOutcome::Done(tokens, next) => {
            assert_eq!(tokens, vec!["GET".to_string(), "/a".to_string(), "HTTP/1.1".to_string()]);
            assert_eq!(next, 18);
        }
        _ => panic!("expected a request line"),
    }
    assert!(matches!(
        read_request_line(b"GET\n"),
        RequestLineOutcome::Failed(ProtocolError::RequestLine)
    ));
}

#[test]
fn parse_headers_outcomes() {
    let bytes = b"A: 1\r\nB: 2\r\n\r\nrest";
    match parse_headers(bytes, 0) {
        HeadersOutcome::Done(headers, start) => {
            assert_eq!(headers.len(), 2);
            assert_eq!(headers.get("b"), Some(&"2".to_string()));
            assert_eq!(start, 14);
        }
        _ => panic!("expected headers"),
    }
    match parse_headers(bytes, 6) {
        HeadersOutcome::Done(headers, start) => {
            assert_eq!(headers.len(), 1);
            assert_eq!(start, 14);
        }
        _ => panic!("expected headers"),
    }
    assert!(matches!(parse_headers(b"A: 1\r\n", 0), HeadersOutcome::Incomplete));
    assert!(matches!(parse_headers(b"", 0), HeadersOutcome::Incomplete));
    match parse_headers(b"\r\n", 0) {
        HeadersOutcome::Done(headers, start) => {
            assert_eq!(headers.len(), 0);
            assert_eq!(start, 2);
        }
        _ => panic!("expected no headers"),
    }
}

#[test]
fn copy_range_copies_the_range() {
    assert_eq!(copy_range(b"abcdef", 2, 4), b"cd".to_vec());
    assert_eq!(copy_range(b"abcdef", 0, 6), b"abcdef".to_vec());
    assert_eq!(copy_range(b"abcdef", 3, 3), Vec::<u8>::new());
}

#[test]
fn form_decoding() {
    let (request, _) = complete(LOGIN);
    let form = request.form_urlencoded().expect("a form");
    assert_eq!(form.len(), 2);
    assert_eq!(form.get("username"), Some(&"admin".to_string()));
    assert_eq!(form.get("password"), Some(&"hunter12".to_string()));
}

#[test]
fn form_needs_the_form_content_type() {
    let body = b"username=admin&password=hunter12";
    assert!(request_with(&[], body).form_urlencoded().is_none());
    assert!(request_with(&[("content-type", "text/plain")], body).form_urlencoded().is_none());
    assert!(request_with(&[("content-type", "application/x-www-form-urlencoded; charset=utf-8")], body)
        .form_urlencoded()
        .is_none());
    assert!(request_with(&[("content-type", "application/x-www-form-urlencoded")], body)
        .form_urlencoded()
        .is_some());
}

#[test]
fn form_needs_utf8() {
    let request = request_with(&[("content-type", "application/x-www-form-urlencoded")], &[b'a', b'=', 0xff]);
    assert!(request.form_urlencoded().is_none());
}

#[test]
fn form_later_value_wins_and_pieces_without_equals_are_skipped() {
    let form = parse_form("a=1&b=2&a=3&novalue&&c=x=y&=empty");
    assert_eq!(form.len(), 4);
    assert_eq!(form.get("a"), Some(&"3".to_string()));
    assert_eq!(form.get("b"), Some(&"2".to_string()));
    assert_eq!(form.get("c"), Some(&"x=y".to_string()));
    assert_eq!(form.get(""), Some(&"empty".to_string()));
    assert_eq!(form.get("novalue"), None);
    assert_eq!(form.key(0), "a");
    assert_eq!(parse_form("").len(), 0);
}

#[test]
fn request_cookies_come_from_the_cookie_header() {
    let request = request_with(&[("cookie", "session_id=abc123; theme=dark")], b"");
    let cookies = request.cookies();
    assert_eq!(cookies.len(), 2);
    assert_eq!(cookies[0].name, "session_id");
    assert_eq!(cookies[0].value, "abc123");
    assert_eq!(cookies[1].name, "theme");
    assert_eq!(cookies[1].value, "dark");
    assert_eq!(request_with(&[], b"").cookies().len(), 0);
}

#[test]
fn request_content_type_is_absent_for_unknown_values() {
    assert_eq!(request_with(&[("content-type", "text/html")], b"").content_type(), Some(ContentType::Html));
    assert_eq!(request_with(&[("content-type", "TEXT/CSS")], b"").content_type(), Some(ContentType::Css));
    assert_eq!(request_with(&[("content-type", "text/markdown")], b"").content_type(), None);
    assert_eq!(request_with(&[], b"").content_type(), None);
}

#[test]
fn request_header_and_clone() {
    let request = request_with(&[("a", "1")], b"xyz");
    assert_eq!(request.header("a"), Some(&"1".to_string()));
    assert_eq!(request.header("b"), None);
    let copy = request.clone();
    assert_eq!(copy.method, HttpMethod::POST);
    assert_eq!(copy.path, "/");
    assert_eq!(copy.http_version, "HTTP/1.1");
    assert_eq!(copy.header("a"), Some(&"1".to_string()));
    assert_eq!(copy.body, b"xyz".to_vec());
}

#[test]
fn method_named_letter_for_letter() {
    assert_eq!(HttpMethod::named("GET"), Some(HttpMethod::GET));
    assert_eq!(HttpMethod::named("POST"), Some(HttpMethod::POST));
    assert_eq!(HttpMethod::named("get"), None);
    assert_eq!(HttpMethod::named("PUT"), None);
    assert_eq!(HttpMethod::named(""), None);
}
