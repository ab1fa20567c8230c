use web_server_core::http_server::response::format_headers;
use web_server_core::http_server::ContentType;
use web_server_core::http_server::Cookie;
use web_server_core::http_server::Response;
use web_server_core::http_server::ResponseBuilder;
use web_server_core::string_map::StringMap;

fn header<'a>(response: &'a Response, name: &str) -> Option<&'a str> {
    response.header(name).map(|s| s.as_str())
}

#[test]
fn default_response_is_200_ok() {
    let response = Response::default();
    assert_eq!(response.http_version, "HTTP/1.1");
    assert_eq!(response.status_code, 200);
    assert_eq!(response.reason_phrase, "OK");
    assert!(response.headers.is_none());
    assert!(response.body.is_none());
    assert!(response.location.is_none());
    let built = ResponseBuilder::new().build();
    assert_eq!(built.status_code, 200);
    assert_eq!(built.reason_phrase, "OK");
    assert!(built.headers.is_none());
    assert!(built.body.is_none());
}

#[test]
fn builder_sets_status_line_fields() {
    let response = ResponseBuilder::new()
        .http_version("HTTP/1.0".to_string())
        .status_code(404)
        .reason_phrase("Not Found".to_string())
        .build();
    assert_eq!(response.http_version, "HTTP/1.0");
    assert_eq!(response.status_code, 404);
    assert_eq!(response.reason_phrase, "Not Found");
    assert!(response.headers.is_none());
}

#[test]
fn body_comes_with_its_content_length() {
    let response = ResponseBuilder::new().body_string("hello".to_string()).build();
    assert_eq!(response.body, Some(b"hello".to_vec()));
    assert_eq!(header(&response, "Content-Length"), Some("5"));
    let response = ResponseBuilder::new().body_bytes(vec![0u8; 1234]).build();
    assert_eq!(header(&response, "Content-Length"), Some("1234"));
    let response = ResponseBuilder::new().body_bytes(Vec::new()).build();
    assert_eq!(response.body, Some(Vec::new()));
    assert_eq!(header(&response, "Content-Length"), Some("0"));
}

#[test]
fn content_length_counts_bytes_not_characters() {
    let response = ResponseBuilder::new().body_string("h\u{e9}llo \u{1f600}".to_string()).build();
    assert_eq!(header(&response, "Content-Length"), Some("11"));
    assert_eq!(response.body.as_ref().map(|b| b.len()), Some(11));
}

#[test]
fn a_later_body_replaces_body_and_length() {
    let response = ResponseBuilder::new()
        .body_string("first body".to_string())
        .body_bytes(b"2nd".to_vec())
        .build();
    assert_eq!(response.body, Some(b"2nd".to_vec()));
    assert_eq!(header(&response, "Content-Length"), Some("3"));
    assert_eq!(response.headers.as_ref().map(|h| h.len()), Some(1));
}

#[test]
fn replacing_the_headers_keeps_the_length_of_a_body() {
    let mut headers: StringMap<String> = StringMap::new();
    headers.insert("X-One".to_string(), "1".to_string());
    headers.insert("Content-Length".to_string(), "999".to_string());
    let response = ResponseBuilder::new()
        .body_string("hello".to_string())
        .content_type(ContentType::Html)
        .headers(headers)
        .build();
    assert_eq!(header(&response, "Content-Length"), Some("5"));
    assert_eq!(header(&response, "X-One"), Some("1"));
    assert_eq!(header(&response, "Content-Type"), None);
}

#[test]
fn replacing_the_headers_without_a_body_takes_them_as_they_are() {
    let mut headers: StringMap<String> = StringMap::new();
    headers.insert("X-One".to_string(), "1".to_string());
    let response = ResponseBuilder::new().content_type(ContentType::Html).headers(headers).build();
    assert_eq!(response.headers.as_ref().map(|h| h.len()), Some(1));
    assert_eq!(header(&response, "X-One"), Some("1"));
    assert_eq!(header(&response, "Content-Length"), None);
}

#[test]
fn content_type_cookie_and_redirect_set_their_headers() {
    let response = ResponseBuilder::new()
        .content_type(ContentType::Json)
        .cookie(Cookie::new("session_id", "abc".to_string()))
        .temp_redirect("/login")
        .build();
    assert_eq!(response.status_code, 302);
    assert_eq!(response.reason_phrase, "OK");
    assert_eq!(header(&response, "Content-Type"), Some("application/json"));
    assert_eq!(header(&response, "Set-Cookie"), Some("session_id=abc"));
    assert_eq!(header(&response, "Location"), Some("/login"));
    assert_eq!(header(&response, "location"), None);
    assert!(response.body.is_none());
}

#[test]
fn a_second_cookie_replaces_the_first() {
    let response = ResponseBuilder::new()
        .cookie(Cookie::new("a", "1".to_string()))
        .cookie(Cookie::new("b", "2".to_string()))
        .build();
    assert_eq!(header(&response, "Set-Cookie"), Some("b=2"));
    assert_eq!(response.headers.as_ref().map(|h| h.len()), Some(1));
}

#[test]
fn format_headers_joins_lines_with_crlf() {
    let mut headers: StringMap<String> = StringMap::new();
    assert_eq!(format_headers(&headers), "");
    headers.insert("Content-Type".to_string(), "text/css".to_string());
    assert_eq!(format_headers(&headers), "Content-Type: text/css");
    headers.insert("Content-Length".to_string(), "5".to_string());
    headers.insert("X".to_string(), "".to_string());
    assert_eq!(format_headers(&headers), "Content-Type: text/css\r\nContent-Length: 5\r\nX: ");
}

#[test]
fn wire_form_of_a_response_with_headers_and_body() {
    let response = ResponseBuilder::new()
        .content_type(ContentType::Css)
        .body_string("body{}".to_string())
        .build();
    assert_eq!(
        response.to_bytes(),
        b"HTTP/1.1 200 OK\r\nContent-Type: text/css\r\nContent-Length: 6\r\n\r\nbody{}".to_vec()
    );
}

#[test]
fn wire_form_of_a_response_without_headers() {
    let response = ResponseBuilder::new()
        .status_code(401)
        .reason_phrase("invalid login info".to_string())
        .build();
    assert_eq!(response.to_bytes(), b"HTTP/1.1 401 invalid login info\r\n\r\n\r\n".to_vec());
}

#[test]
fn wire_form_of_a_redirect() {
    let response = ResponseBuilder::new().temp_redirect("/login").build();
    assert_eq!(response.to_bytes(), b"HTTP/1.1 302 OK\r\nLocation: /login\r\n\r\n".to_vec());
}

#[test]
fn wire_form_carries_binary_bodies_unchanged() {
    let response = ResponseBuilder::new().body_bytes(vec![0, 159, 146, 150, 255]).build();
    let mut expected = b"HTTP/1.1 200 OK\r\nContent-Length: 5\r\n\r\n".to_vec();
    expected.extend_from_slice(&[0, 159, 146, 150, 255]);
    assert_eq!(response.to_bytes(), expected);
}

#[test]
fn response_clone_is_equal() {
    let response = ResponseBuilder::new()
        .content_type(ContentType::Html)
        .body_string("<p>x</p>".to_string())
        .status_code(201)
        .build();
    let copy = response.clone();
    assert_eq!(copy.to_bytes(), response.to_bytes());
    assert_eq!(copy.status_code, 201);
}
