//! The life of one connection: read bytes, parse a request, route it, let
//! the handler answer, write the answer, and go on or close.
//!
//! Reading and writing belong to whoever owns the socket. Everything that
//! is decided in between is decided here: [`Connection::step`] takes what
//! the socket did and says what the socket must do next.

use crate::error::AnyErr;
use crate::http_server::parser::parse;
use crate::http_server::parser::parse_request;
use crate::http_server::parser::lemma_parse_is_final;
use crate::http_server::parser::ParseOutcome;
use crate::http_server::parser::Parsed;
use crate::http_server::parser::ProtocolError;
use crate::http_server::request::Request;
use crate::http_server::request::RequestModel;
use crate::http_server::response::default_response;
use crate::http_server::response::Response;
use crate::http_server::response::ResponseBuilder;
use crate::http_server::response::ResponseModel;
use crate::http_server::router::is_first_match;
use crate::http_server::router::some_match;
use crate::http_server::router::RouteHandler;
use crate::http_server::router::Router;
use vstd::prelude::*;

verus! {

impl RouteHandler for Box<dyn RouteHandler> {
    /// A boxed handler promises what the handler in the box promises.
    open spec fn answers(&self, request: RequestModel, result: Result<Response, AnyErr>) -> bool {
        (**self).answers(request, result)
    }

    /// Lets the handler in the box answer.
    fn handle(&self, request: Request) -> (r: Result<Response, AnyErr>) {
        (**self).handle(request)
    }
}

/// Where a connection stands between two steps. Routing and handling take
/// place within a step, between `Parsing` and `Writing`.
#[derive(Debug, Clone, Copy, PartialEq, Eq, Structural)]
pub enum ConnectionState {
    /// No byte of the next request has arrived.
    AwaitingRequest,
    /// Part of a request has arrived.
    Parsing,
    /// A response was handed to the socket.
    Writing,
    /// The connection is over.
    Closed,
}

/// What the socket did.
pub enum Event {
    /// These bytes arrived.
    Received(Vec<u8>),
    /// Nothing more will arrive: the peer closed, the read timed out or
    /// failed.
    EndOfInput,
    /// The bytes handed over were sent.
    Written,
    /// The bytes handed over could not be sent.
    WriteFailed,
}

/// Why a connection is closed.
#[derive(Debug, Clone, Copy, PartialEq, Eq, Structural)]
pub enum CloseReason {
    /// The bytes received can never become a request.
    Malformed(ProtocolError),
    /// Nothing more will arrive.
    EndOfInput,
    /// The response could not be sent.
    WriteFailed,
    /// The last response was sent: the request asked for the connection to
    /// be closed, or its handler failed.
    Finished,
    /// The socket reported something that cannot happen in this state, or
    /// the connection was closed already.
    OutOfTurn,
}

/// What the socket must do next.
pub enum Action {
    /// Read more bytes, within the idle timeout.
    Read,
    /// Send these bytes.
    Write(Vec<u8>),
    /// Close the connection.
    Close(CloseReason),
}

/// The response sent when a handler fails.
pub open spec fn server_error() -> ResponseModel {
    ResponseModel {
        status_code: 500,
        reason_phrase: "Internal Server Error"@,
        ..default_response()
    }
}

/// Whether the sender of a request asks for the connection to be closed
/// after the response.
pub open spec fn wants_close(request: RequestModel) -> bool {
    request.header("connection"@) == Some("close"@)
}

/// The response sent when a handler fails.
pub fn server_error_response() -> (r: Response)
    ensures
        r@ == server_error(),
{
    ResponseBuilder::new().status_code(500).reason_phrase(
        "Internal Server Error".to_owned(),
    ).build()
}

/// The bytes to send for what a handler returned, and whether the handler
/// failed: the response of a handler that succeeded, or the server error
/// for one that failed.
pub open spec fn reply_to(result: Result<Response, AnyErr>) -> (Seq<u8>, bool) {
    match result {
        Ok(response) => (response@.wire(), false),
        Err(_) => (server_error().wire(), true),
    }
}

/// Whether `result` may be what the routes of `router` answer to `request`:
/// an answer of the handler of the first route that matches, or the
/// not-found response where none does.
pub open spec fn may_answer<H: RouteHandler>(
    router: &Router<H>,
    request: RequestModel,
    result: Result<Response, AnyErr>,
) -> bool {
    if some_match(router.bindings(), request.method, request.path) {
        exists|i: int|
            is_first_match(router.bindings(), request.method, request.path, i)
                && router.bindings()[i].1.answers(request, result)
    } else {
        result matches Ok(response) && response@ == router.fallback()
    }
}

/// Routes a request and lets the handler of the first route that matches
/// answer. Where no route matches, the answer is the router's not-found
/// response.
pub fn dispatch<H: RouteHandler>(router: &Router<H>, request: Request) -> (r: Result<
    Response,
    AnyErr,
>)
    ensures
        may_answer(router, request@, r),
{
    match router.route(request.method, request.path.as_str()) {
        Some(handler) => handler.handle(request),
        None => Ok(router.not_found().clone()),
    }
}

/// The bytes to send for what a handler returned, and whether the
/// connection must close afterwards: the response of a handler that
/// succeeded, or the server error for one that failed, which also ends the
/// connection.
pub fn reply(result: Result<Response, AnyErr>) -> (r: (Vec<u8>, bool))
    ensures
        (r.0@, r.1) == reply_to(result),
{
    match result {
        Ok(response) => (response.to_bytes(), false),
        Err(_) => (server_error_response().to_bytes(), true),
    }
}

/// One connection.
pub struct Connection {
    state: ConnectionState,
    buffer: Vec<u8>,
    closing: bool,
}

impl Connection {
    /// Where the connection stands.
    pub closed spec fn state(&self) -> ConnectionState {
        self.state
    }

    /// The bytes that arrived and belong to no request read so far.
    pub closed spec fn pending(&self) -> Seq<u8> {
        self.buffer@
    }

    /// Whether the connection closes once the response is written.
    pub closed spec fn closing(&self) -> bool {
        self.closing
    }

    /// What holds after the bytes `b` were looked at for a request.
    pub open spec fn looked_at<H: RouteHandler>(
        &self,
        b: Seq<u8>,
        router: &Router<H>,
        action: Action,
    ) -> bool {
        match parse(b) {
            Parsed::Incomplete => {
                &&& self.pending() == b
                &&& self.state() == if b.len() == 0 {
                    ConnectionState::AwaitingRequest
                } else {
                    ConnectionState::Parsing
                }
                &&& action is Read
            },
            Parsed::Failed(e) => self.state() == ConnectionState::Closed && action
                == Action::Close(CloseReason::Malformed(e)),
            Parsed::Complete(request, consumed) => {
                &&& self.state() == ConnectionState::Writing
                &&& self.pending() == b.skip(consumed)
                &&& action matches Action::Write(bytes) && exists|
                    result: Result<Response, AnyErr>,
                |
                    {
                        &&& may_answer(router, request, result)
                        &&& bytes@ == reply_to(result).0
                        &&& self.closing() == (wants_close(request) || reply_to(result).1)
                    }
            },
        }
    }

    /// A connection that was just accepted. The socket starts by reading.
    pub fn new() -> (r: Connection)
        ensures
            r.state() == ConnectionState::AwaitingRequest,
            r.pending() == Seq::<u8>::empty(),
            !r.closing(),
    {
        Connection { state: ConnectionState::AwaitingRequest, buffer: Vec::new(), closing: false }
    }

    /// Whether the connection is over.
    pub fn is_closed(&self) -> (r: bool)
        ensures
            r == (self.state() == ConnectionState::Closed),
    {
        self.state == ConnectionState::Closed
    }

    /// Where the connection stands.
    pub fn current_state(&self) -> (r: ConnectionState)
        ensures
            r == self.state(),
    {
        self.state
    }

    fn close(&mut self, reason: CloseReason) -> (r: Action)
        ensures
            final(self).state() == ConnectionState::Closed,
            r == Action::Close(reason),
    {
        self.state = ConnectionState::Closed;
        Action::Close(reason)
    }

    fn look<H: RouteHandler>(&mut self, router: &Router<H>) -> (r: Action)
        ensures
            final(self).looked_at(old(self).pending(), router, r),
    {
        match parse_request(self.buffer.as_slice()) {
            ParseOutcome::Incomplete => {
                self.state = if self.buffer.len() == 0 {
                    ConnectionState::AwaitingRequest
                } else {
                    ConnectionState::Parsing
                };
                Action::Read
            },
            ParseOutcome::Failed(e) => self.close(CloseReason::Malformed(e)),
            ParseOutcome::Complete(request, consumed) => {
                let ghost b = self.buffer@;
                let mut rest: Vec<u8> = Vec::new();
                let mut i: usize = consumed;
                while i < self.buffer.len()
                    invariant
                        consumed <= i <= self.buffer.len(),
                        self.buffer@ == b,
                        rest@ == b.subrange(consumed as int, i as int),
                    decreases self.buffer.len() - i,
                {
                    rest.push(self.buffer[i]);
                    i += 1;
                }
                assert(rest@ == b.skip(consumed as int));
                let close_asked = match request.header("connection") {
                    Some(value) => *value.as_str() == *"close",
                    None => false,
                };
                let ghost asked = request@;
                let result = dispatch(router, request);
                let ghost answer = result;
                let (bytes, failed) = reply(result);
                assert(may_answer(router, asked, answer) && bytes@ == reply_to(answer).0
                    && failed == reply_to(answer).1);
                self.buffer = rest;
                self.closing = close_asked || failed;
                self.state = ConnectionState::Writing;
                Action::Write(bytes)
            },
        }
    }

    /// Takes what the socket did and says what it must do next.
    ///
    /// Bytes that arrive are added to those pending, and the whole is looked
    /// at for a request: an incomplete one asks for more bytes, a broken one
    /// closes the connection, a whole one is routed and answered, and the
    /// answer is to be written. Once it is written, the connection closes
    /// if the request asked for that or the handler failed; otherwise the
    /// pending bytes are looked at for the next request. The end of input
    /// while reading, a failed write and anything out of turn close the
    /// connection.
    pub fn step<H: RouteHandler>(&mut self, router: &Router<H>, event: Event) -> (r: Action)
        ensures
            match (old(self).state(), event) {
                (ConnectionState::AwaitingRequest, Event::Received(chunk)) => final(self).looked_at(
                    old(self).pending() + chunk@,
                    router,
                    r,
                ),
                (ConnectionState::Parsing, Event::Received(chunk)) => final(self).looked_at(
                    old(self).pending() + chunk@,
                    router,
                    r,
                ),
                (ConnectionState::Writing, Event::Written) => if old(self).closing() {
                    final(self).state() == ConnectionState::Closed && r == Action::Close(
                        CloseReason::Finished,
                    )
                } else {
                    final(self).looked_at(old(self).pending(), router, r)
                },
                (ConnectionState::AwaitingRequest, Event::EndOfInput) => final(self).state()
                    == ConnectionState::Closed && r == Action::Close(CloseReason::EndOfInput),
                (ConnectionState::Parsing, Event::EndOfInput) => final(self).state()
                    == ConnectionState::Closed && r == Action::Close(CloseReason::EndOfInput),
                (ConnectionState::Writing, Event::WriteFailed) => final(self).state()
                    == ConnectionState::Closed && r == Action::Close(CloseReason::WriteFailed),
                _ => final(self).state() == ConnectionState::Closed && r == Action::Close(
                    CloseReason::OutOfTurn,
                ),
            },
    {
        match (self.state, event) {
            (ConnectionState::AwaitingRequest, Event::Received(chunk)) => {
                self.receive(&chunk);
                self.look(router)
            },
            (ConnectionState::Parsing, Event::Received(chunk)) => {
                self.receive(&chunk);
                self.look(router)
            },
            (ConnectionState::Writing, Event::Written) => {
                if self.closing {
                    self.close(CloseReason::Finished)
                } else {
                    self.look(router)
                }
            },
            (ConnectionState::AwaitingRequest, Event::EndOfInput) => self.close(
                CloseReason::EndOfInput,
            ),
            (ConnectionState::Parsing, Event::EndOfInput) => self.close(CloseReason::EndOfInput),
            (ConnectionState::Writing, Event::WriteFailed) => self.close(CloseReason::WriteFailed),
            _ => self.close(CloseReason::OutOfTurn),
        }
    }

    fn receive(&mut self, chunk: &Vec<u8>)
        ensures
            final(self).pending() == old(self).pending() + chunk@,
            final(self).state() == old(self).state(),
            final(self).closing() == old(self).closing(),
    {
        let mut i: usize = 0;
        while i < chunk.len()
            invariant
                i <= chunk.len(),
                self.buffer@ == old(self).buffer@ + chunk@.take(i as int),
                self.state == old(self).state,
                self.closing == old(self).closing,
            decreases chunk.len() - i,
        {
            assert(chunk@.take(i + 1) == chunk@.take(i as int).push(chunk@[i as int]));
            self.buffer.push(chunk[i]);
            i += 1;
        }
        assert(chunk@.take(chunk@.len() as int) == chunk@);
    }
}

/// The bytes of a sequence of chunks, one after the other.
pub open spec fn joined(chunks: Seq<Seq<u8>>) -> Seq<u8>
    decreases chunks.len(),
{
    if chunks.len() == 0 {
        Seq::empty()
    } else {
        joined(chunks.drop_last()) + chunks.last()
    }
}

/// The chunks up to some point, joined, are the beginning of all chunks
/// joined.
pub proof fn lemma_joined_prefix(chunks: Seq<Seq<u8>>, i: int)
    requires
        0 <= i <= chunks.len(),
    ensures
        joined(chunks.take(i)) + joined(chunks.skip(i)) == joined(chunks),
    decreases chunks.len() - i,
{
    if i == chunks.len() {
        assert(chunks.take(i) == chunks);
        assert(chunks.skip(i) == Seq::<Seq<u8>>::empty());
        assert(joined(Seq::<Seq<u8>>::empty()) == Seq::<u8>::empty());
        assert(joined(chunks.take(i)) + Seq::<u8>::empty() == joined(chunks.take(i)));
    } else {
        lemma_joined_prefix(chunks, i + 1);
        assert(chunks.take(i + 1).drop_last() == chunks.take(i));
        assert(chunks.take(i + 1).last() == chunks[i]);
        lemma_joined_first(chunks.skip(i));
        assert(chunks.skip(i).drop_first() == chunks.skip(i + 1));
        assert(joined(chunks.take(i)) + (chunks[i] + joined(chunks.skip(i + 1))) == (joined(
            chunks.take(i),
        ) + chunks[i]) + joined(chunks.skip(i + 1)));
    }
}

/// Joining may as well start with the first chunk.
pub proof fn lemma_joined_first(chunks: Seq<Seq<u8>>)
    requires
        chunks.len() > 0,
    ensures
        joined(chunks) == chunks.first() + joined(chunks.drop_first()),
    decreases chunks.len(),
{
    if chunks.len() == 1 {
        assert(chunks.drop_last() == Seq::<Seq<u8>>::empty());
        assert(chunks.drop_first() == Seq::<Seq<u8>>::empty());
        assert(joined(Seq::<Seq<u8>>::empty()) == Seq::<u8>::empty());
        assert(joined(chunks) == Seq::<u8>::empty() + chunks.last());
        assert(chunks.first() + Seq::<u8>::empty() == Seq::<u8>::empty() + chunks.last());
    } else {
        lemma_joined_first(chunks.drop_last());
        assert(chunks.drop_last().drop_first() == chunks.drop_first().drop_last());
        assert(chunks.drop_last().first() == chunks.first());
        assert(chunks.drop_first().last() == chunks.last());
        assert((chunks.first() + joined(chunks.drop_first().drop_last())) + chunks.last()
            == chunks.first() + (joined(chunks.drop_first().drop_last()) + chunks.last()));
    }
}

/// However the socket cuts a message into chunks, the first answer of the
/// parser that is not "incomplete" is its answer for the whole message: the
/// same request with the same body, or the same error.
pub proof fn lemma_chunks_agree(chunks: Seq<Seq<u8>>, i: int)
    requires
        0 <= i <= chunks.len(),
        !(parse(joined(chunks.take(i))) is Incomplete),
    ensures
        parse(joined(chunks)) == parse(joined(chunks.take(i))),
{
    lemma_joined_prefix(chunks, i);
    lemma_parse_is_final(joined(chunks.take(i)), joined(chunks.skip(i)));
}

} // verus!
