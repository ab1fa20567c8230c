use std::sync::Arc;
use web_server_core::database::Database;
use web_server_core::error::AnyErr;
use web_server_core::handlers::CssHandler;
use web_server_core::handlers::PostLoginHandler;
use web_server_core::http_server::default_not_found_response;
use web_server_core::http_server::server::reply;
use web_server_core::http_server::server::server_error_response;
use web_server_core::http_server::parser::ProtocolError;
use web_server_core::http_server::server::Action;
use web_server_core::http_server::server::CloseReason;
use web_server_core::http_server::server::Connection;
use web_server_core::http_server::server::ConnectionState;
use web_server_core::http_server::server::Event;
use web_server_core::http_server::HttpMethod;
use web_server_core::http_server::Request;
use web_server_core::http_server::Response;
use web_server_core::http_server::ResponseBuilder;
use web_server_core::http_server::RouteHandler;
use web_server_core::http_server::Router;

struct Echo;

impl RouteHandler for Echo {
    fn handle(&self, request: Request) -> Result<Response, AnyErr> {
        Ok(ResponseBuilder::new().body_bytes(request.body).build())
    }
}

struct Failing;

impl RouteHandler for Failing {
    fn handle(&self, _request: Request) -> Result<Response, AnyErr> {
        Err(AnyErr::new("handler failed"))
    }
}

fn router() -> Router<Box<dyn RouteHandler>> {
    let database = match Database::database_init() {
        Ok(database) => Arc::new(database),
        Err(_) => panic!("database_init failed"),
    };
    Router::new()
        .add_route(HttpMethod::post("/echo"), Box::new(Echo) as Box<dyn RouteHandler>)
        .add_route(HttpMethod::get("/fail"), Box::new(Failing) as Box<dyn RouteHandler>)
        .add_route(HttpMethod::get("/styles.css"), Box::new(CssHandler) as Box<dyn RouteHandler>)
        .add_route(
            HttpMethod::post("/login"),
            Box::new(PostLoginHandler { database }) as Box<dyn RouteHandler>,
        )
}

fn written(action: Action) -> Vec<u8> {
    match action {
        Action::Write(bytes) => bytes,
        Action::Read => panic!("expected a write, got a read"),
        Action::Close(reason) => panic!("expected a write, got a close: {:?}", reason),
    }
}

fn echo_response(body: &[u8]) -> Vec<u8> {
    ResponseBuilder::new().body_bytes(body.to_vec()).build().to_bytes()
}

const ECHO: &[u8] = b"POST /echo HTTP/1.1\r\nContent-Length: 11\r\n\r\nhello world";

#[test]
fn a_new_connection_awaits_a_request() {
    let connection = Connection::new();
    assert_eq!(connection.current_state(), ConnectionState::AwaitingRequest);
    assert!(!connection.is_closed());
}

#[test]
fn a_whole_request_is_answered() {
    let router = router();
    let mut connection = Connection::new();
    let bytes = written(connection.step(&router, Event::Received(ECHO.to_vec())));
    assert_eq!(bytes, echo_response(b"hello world"));
    assert_eq!(connection.current_state(), ConnectionState::Writing);
    assert!(matches!(connection.step(&router, Event::Written), Action::Read));
    assert_eq!(connection.current_state(), ConnectionState::AwaitingRequest);
}

#[test]
fn a_request_delivered_one_byte_at_a_time_is_read_whole() {
    let router = router();
    let mut connection = Connection::new();
    for (i, byte) in ECHO.iter().enumerate() {
        let action = connection.step(&router, Event::Received(vec![*byte]));
        if i + 1 < ECHO.len() {
            assert!(matches!(action, Action::Read), "byte {}", i);
            assert_eq!(connection.current_state(), ConnectionState::Parsing);
        } else {
            assert_eq!(written(action), echo_response(b"hello world"));
        }
    }
}

#[test]
fn a_request_is_read_the_same_for_every_chunk_size() {
    let router = router();
    for size in 1..=ECHO.len() + 1 {
        let mut connection = Connection::new();
        let mut answer = None;
        for chunk in ECHO.chunks(size) {
            assert!(answer.is_none());
            match connection.step(&router, Event::Received(chunk.to_vec())) {
                Action::Read => {}
                Action::Write(bytes) => answer = Some(bytes),
                Action::Close(reason) => panic!("closed with chunks of {}: {:?}", size, reason),
            }
        }
        assert_eq!(answer, Some(echo_response(b"hello world")), "chunks of {}", size);
    }
}

#[test]
fn empty_chunks_change_nothing() {
    let router = router();
    let mut connection = Connection::new();
    assert!(matches!(connection.step(&router, Event::Received(Vec::new())), Action::Read));
    assert_eq!(connection.current_state(), ConnectionState::AwaitingRequest);
    assert!(matches!(connection.step(&router, Event::Received(b"POST".to_vec())), Action::Read));
    assert!(matches!(connection.step(&router, Event::Received(Vec::new())), Action::Read));
    assert_eq!(connection.current_state(), ConnectionState::Parsing);
}

#[test]
fn requests_follow_one_another_on_a_connection() {
    let router = router();
    let mut connection = Connection::new();
    for body in ["first", "second", "third"] {
        let request = format!("POST /echo HTTP/1.1\r\nContent-Length: {}\r\n\r\n{}", body.len(), body);
        let bytes = written(connection.step(&router, Event::Received(request.into_bytes())));
        assert_eq!(bytes, echo_response(body.as_bytes()));
        assert!(matches!(connection.step(&router, Event::Written), Action::Read));
    }
}

#[test]
fn bytes_after_a_request_wait_for_their_turn() {
    let router = router();
    let mut connection = Connection::new();
    let mut both = ECHO.to_vec();
    both.extend_from_slice(b"POST /echo HTTP/1.1\r\nContent-Length: 3\r\n\r\nabc");
    let bytes = written(connection.step(&router, Event::Received(both)));
    assert_eq!(bytes, echo_response(b"hello world"));
    let bytes = written(connection.step(&router, Event::Written));
    assert_eq!(bytes, echo_response(b"abc"));
    assert!(matches!(connection.step(&router, Event::Written), Action::Read));
    assert_eq!(connection.current_state(), ConnectionState::AwaitingRequest);
}

#[test]
fn no_route_gives_the_not_found_response() {
    let router = router();
    let mut connection = Connection::new();
    let bytes = written(connection.step(&router, Event::Received(b"GET /missing HTTP/1.1\r\n\r\n".to_vec())));
    assert_eq!(bytes, default_not_found_response().to_bytes());
    assert!(bytes.starts_with(b"HTTP/1.1 404 Not Found\r\n"));
    assert!(matches!(connection.step(&router, Event::Written), Action::Read));
}

#[test]
fn a_broken_request_closes_the_connection() {
    let router = router();
    let mut connection = Connection::new();
    assert!(matches!(
        connection.step(&router, Event::Received(b"nonsense\r\n".to_vec())),
        Action::Close(CloseReason::Malformed(ProtocolError::RequestLine))
    ));
    assert!(connection.is_closed());
    assert!(matches!(
        connection.step(&router, Event::Received(ECHO.to_vec())),
        Action::Close(CloseReason::OutOfTurn)
    ));
    assert!(connection.is_closed());
}

#[test]
fn a_failing_handler_gets_a_500_and_the_connection_closes() {
    let router = router();
    let mut connection = Connection::new();
    let bytes = written(connection.step(&router, Event::Received(b"GET /fail HTTP/1.1\r\n\r\n".to_vec())));
    assert_eq!(bytes, b"HTTP/1.1 500 Internal Server Error\r\n\r\n\r\n".to_vec());
    assert_eq!(bytes, server_error_response().to_bytes());
    assert!(matches!(connection.step(&router, Event::Written), Action::Close(CloseReason::Finished)));
    assert!(connection.is_closed());
}

#[test]
fn connection_close_is_respected() {
    let router = router();
    let mut connection = Connection::new();
    let request = b"GET /styles.css HTTP/1.1\r\nConnection: Close\r\n\r\n".to_vec();
    let bytes = written(connection.step(&router, Event::Received(request)));
    assert!(bytes.starts_with(b"HTTP/1.1 200 OK\r\nContent-Type: text/css\r\n"));
    assert!(matches!(connection.step(&router, Event::Written), Action::Close(CloseReason::Finished)));
    assert!(connection.is_closed());
}

#[test]
fn end_of_input_and_failed_writes_close_the_connection() {
    let router = router();
    let mut connection = Connection::new();
    assert!(matches!(connection.step(&router, Event::EndOfInput), Action::Close(CloseReason::EndOfInput)));
    assert!(connection.is_closed());
    let mut connection = Connection::new();
    connection.step(&router, Event::Received(b"GET /".to_vec()));
    assert!(matches!(connection.step(&router, Event::EndOfInput), Action::Close(CloseReason::EndOfInput)));
    let mut connection = Connection::new();
    connection.step(&router, Event::Received(ECHO.to_vec()));
    assert!(matches!(connection.step(&router, Event::WriteFailed), Action::Close(CloseReason::WriteFailed)));
    assert!(connection.is_closed());
}

#[test]
fn events_out_of_turn_close_the_connection() {
    let router = router();
    let mut connection = Connection::new();
    assert!(matches!(connection.step(&router, Event::Written), Action::Close(CloseReason::OutOfTurn)));
    let mut connection = Connection::new();
    connection.step(&router, Event::Received(ECHO.to_vec()));
    assert!(matches!(
        connection.step(&router, Event::Received(b"more".to_vec())),
        Action::Close(CloseReason::OutOfTurn)
    ));
    let mut connection = Connection::new();
    assert!(matches!(connection.step(&router, Event::WriteFailed), Action::Close(CloseReason::OutOfTurn)));
    assert!(connection.is_closed());
}

#[test]
fn reply_writes_the_response_or_the_server_error() {
    let (bytes, closing) = reply(Ok(ResponseBuilder::new().body_string("x".to_string()).build()));
    assert_eq!(bytes, b"HTTP/1.1 200 OK\r\nContent-Length: 1\r\n\r\nx".to_vec());
    assert!(!closing);
    let (bytes, closing) = reply(Err(AnyErr::new("broken")));
    assert_eq!(bytes, b"HTTP/1.1 500 Internal Server Error\r\n\r\n\r\n".to_vec());
    assert!(closing);
}

#[test]
fn login_end_to_end_over_a_connection() {
    let router = router();
    let mut connection = Connection::new();
    let good = b"POST /login HTTP/1.1\r\nContent-Type: application/x-www-form-urlencoded\r\nContent-Length: 32\r\n\r\nusername=admin&password=hunter12";
    let bytes = written(connection.step(&router, Event::Received(good.to_vec())));
    let text = String::from_utf8(bytes).unwrap();
    assert!(text.starts_with("HTTP/1.1 200 OK\r\nSet-Cookie: session_id="), "{}", text);
    assert!(text.ends_with("\r\n\r\n"));
    assert!(matches!(connection.step(&router, Event::Written), Action::Read));
    let bad = b"POST /login HTTP/1.1\r\nContent-Type: application/x-www-form-urlencoded\r\nContent-Length: 33\r\n\r\nusername=nobody&password=hunter12";
    let bytes = written(connection.step(&router, Event::Received(bad.to_vec())));
    assert_eq!(bytes, b"HTTP/1.1 401 invalid login info\r\n\r\n\r\n".to_vec());
}
