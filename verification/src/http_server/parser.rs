//! Reading one request from the bytes received so far.
//!
//! The parser is a function of the bytes alone. It says whether they hold a
//! whole request, need more, or can never become a request, so the caller
//! may hand it the same buffer again each time the socket delivers a chunk.

use crate::http_server::request::method_named;
use crate::http_server::request::HttpMethod;
use crate::http_server::request::Request;
use crate::http_server::request::RequestModel;
use crate::string_map::has_key;
use crate::string_map::lemma_text_values;
use crate::string_map::lemma_text_values_put;
use crate::string_map::map_of;
use crate::string_map::put;
use crate::string_map::Entry;
use crate::string_map::StringMap;
use crate::text::decimal_value;
use crate::text::halves;
use crate::text::lowercase;
use crate::text::parse_decimal;
use crate::text::split_once;
use crate::text::split_words;
use crate::text::texts;
use crate::text::trim;
use crate::text::trimmed;
use crate::text::uppercase;
use crate::text::words;
use vstd::prelude::*;
use vstd::utf8::decode_utf8;
use vstd::utf8::valid_utf8;

verus! {

/// Why bytes can never become a request.
#[derive(Debug, Clone, Copy, PartialEq, Eq, Structural)]
pub enum ProtocolError {
    /// A line of the head is not UTF-8.
    Encoding,
    /// The request line does not have exactly three words.
    RequestLine,
    /// A header line has no colon.
    Header,
    /// The `content-length` header is not a non-negative integer that fits
    /// the machine word.
    ContentLength,
    /// The method is neither `GET` nor `POST`.
    Method,
}

/// Whether the line that starts at `from` ends with the line feed at `i`.
pub open spec fn is_line_end(b: Seq<u8>, from: int, i: int) -> bool {
    &&& 0 <= from <= i < b.len()
    &&& b[i] == 10u8
    &&& forall|j: int| from <= j < i ==> b[j] != 10u8
}

/// Whether a whole line starts at `from`.
pub open spec fn has_line(b: Seq<u8>, from: int) -> bool {
    exists|i: int| is_line_end(b, from, i)
}

/// The position of the line feed that ends the line starting at `from`.
pub open spec fn line_end(b: Seq<u8>, from: int) -> int {
    choose|i: int| is_line_end(b, from, i)
}

/// The bytes of the line `b[from..end]` without a carriage return at its end.
pub open spec fn line_content(b: Seq<u8>, from: int, end: int) -> Seq<u8> {
    let raw = b.subrange(from, end);
    if raw.len() > 0 && raw.last() == 13u8 {
        raw.drop_last()
    } else {
        raw
    }
}

/// What the header lines from some position on amount to.
pub enum HeaderBlock {
    /// The blank line that ends the headers has not arrived.
    Incomplete,
    Failed(ProtocolError),
    /// The headers and the position after the blank line.
    Done(Seq<Entry<Seq<char>>>, int),
}

/// Reads header lines from `from` on, adding them to `sofar`, until a blank
/// line. Names and values are trimmed and put in lower case; a name that
/// comes again takes the later value.
pub open spec fn headers_from(b: Seq<u8>, from: int, sofar: Seq<Entry<Seq<char>>>) -> HeaderBlock
    decreases b.len() - from,
    when 0 <= from
    via headers_from_decreases
{
    if !has_line(b, from) {
        HeaderBlock::Incomplete
    } else {
        let end = line_end(b, from);
        let raw = line_content(b, from, end);
        if !valid_utf8(raw) {
            HeaderBlock::Failed(ProtocolError::Encoding)
        } else if decode_utf8(raw).len() == 0 {
            HeaderBlock::Done(sofar, end + 1)
        } else {
            match halves(decode_utf8(raw), ':') {
                None => HeaderBlock::Failed(ProtocolError::Header),
                Some((name, value)) => headers_from(
                    b,
                    end + 1,
                    put(sofar, lowercase(trimmed(name)), lowercase(trimmed(value))),
                ),
            }
        }
    }
}

#[via_fn]
proof fn headers_from_decreases(b: Seq<u8>, from: int, sofar: Seq<Entry<Seq<char>>>) {
    if has_line(b, from) {
        assert(is_line_end(b, from, line_end(b, from)));
    }
}

/// What the request line and the headers amount to.
pub enum Head {
    Incomplete,
    Failed(ProtocolError),
    /// The three words of the request line, the headers, and the position
    /// at which the body starts.
    Done(Seq<Seq<char>>, Seq<Entry<Seq<char>>>, int),
}

/// Reads the request line and the headers.
pub open spec fn head_of(b: Seq<u8>) -> Head {
    if !has_line(b, 0) {
        Head::Incomplete
    } else {
        let end = line_end(b, 0);
        let raw = line_content(b, 0, end);
        if !valid_utf8(raw) {
            Head::Failed(ProtocolError::Encoding)
        } else if words(decode_utf8(raw)).len() != 3 {
            Head::Failed(ProtocolError::RequestLine)
        } else {
            match headers_from(b, end + 1, Seq::empty()) {
                HeaderBlock::Incomplete => Head::Incomplete,
                HeaderBlock::Failed(e) => Head::Failed(e),
                HeaderBlock::Done(headers, start) => Head::Done(
                    words(decode_utf8(raw)),
                    headers,
                    start,
                ),
            }
        }
    }
}

/// The length of the body that the headers declare: that of
/// `content-length`, or zero without one. `None` where the header is there
/// and is no number that fits the machine word.
pub open spec fn declared_length(headers: Seq<Entry<Seq<char>>>) -> Option<nat> {
    if has_key(headers, "content-length"@) {
        match decimal_value(map_of(headers)["content-length"@]) {
            Some(n) => if n <= usize::MAX {
                Some(n)
            } else {
                None
            },
            None => None,
        }
    } else {
        Some(0)
    }
}

/// What a sequence of bytes amounts to.
pub enum Parsed {
    /// The bytes are the beginning of a message and more are needed.
    Incomplete,
    /// No continuation of the bytes is a request.
    Failed(ProtocolError),
    /// The bytes start with this request, which takes up this many of them.
    Complete(RequestModel, int),
}

/// Reads one request from the start of `b`.
pub open spec fn parse(b: Seq<u8>) -> Parsed {
    match head_of(b) {
        Head::Incomplete => Parsed::Incomplete,
        Head::Failed(e) => Parsed::Failed(e),
        Head::Done(tokens, headers, start) => match declared_length(headers) {
            None => Parsed::Failed(ProtocolError::ContentLength),
            Some(n) => if b.len() < start + n {
                Parsed::Incomplete
            } else {
                match method_named(uppercase(tokens[0])) {
                    None => Parsed::Failed(ProtocolError::Method),
                    Some(method) => Parsed::Complete(
                        RequestModel {
                            method,
                            path: tokens[1],
                            http_version: tokens[2],
                            headers,
                            body: b.subrange(start, start + n),
                        },
                        start + n,
                    ),
                }
            },
        },
    }
}

/// A line that is whole stays the same line when more bytes follow.
pub proof fn lemma_line_is_final(b: Seq<u8>, more: Seq<u8>, from: int)
    requires
        has_line(b, from),
    ensures
        has_line(b + more, from),
        line_end(b + more, from) == line_end(b, from),
        line_content(b + more, from, line_end(b, from)) == line_content(
            b,
            from,
            line_end(b, from),
        ),
        0 <= from <= line_end(b, from) < b.len(),
{
    let i = line_end(b, from);
    assert(is_line_end(b, from, i));
    let c = b + more;
    assert forall|j: int| from <= j < i implies c[j] != 10u8 by {
        assert(c[j] == b[j]);
    }
    assert(c[i] == b[i]);
    assert(is_line_end(c, from, i));
    let k = line_end(c, from);
    assert(is_line_end(c, from, k));
    if k < i {
        assert(c[k] == b[k]);
    }
    assert(k == i);
    assert(c.subrange(from, i) == b.subrange(from, i));
}

/// Headers that are whole, or broken, stay so when more bytes follow.
pub proof fn lemma_headers_are_final(
    b: Seq<u8>,
    more: Seq<u8>,
    from: int,
    sofar: Seq<Entry<Seq<char>>>,
)
    requires
        0 <= from,
        !(headers_from(b, from, sofar) is Incomplete),
    ensures
        headers_from(b + more, from, sofar) == headers_from(b, from, sofar),
    decreases b.len() - from,
{
    if has_line(b, from) {
        lemma_line_is_final(b, more, from);
        let end = line_end(b, from);
        let raw = line_content(b, from, end);
        if valid_utf8(raw) && decode_utf8(raw).len() != 0 {
            match halves(decode_utf8(raw), ':') {
                None => {},
                Some((name, value)) => {
                    lemma_headers_are_final(
                        b,
                        more,
                        end + 1,
                        put(sofar, lowercase(trimmed(name)), lowercase(trimmed(value))),
                    );
                },
            }
        }
    }
}

/// Where the headers end, they end within the bytes.
pub proof fn lemma_headers_end_within(b: Seq<u8>, from: int, sofar: Seq<Entry<Seq<char>>>)
    requires
        0 <= from,
    ensures
        headers_from(b, from, sofar) matches HeaderBlock::Done(_, start) ==> from < start
            <= b.len(),
    decreases b.len() - from,
{
    if has_line(b, from) {
        let end = line_end(b, from);
        assert(is_line_end(b, from, end));
        let raw = line_content(b, from, end);
        if valid_utf8(raw) && decode_utf8(raw).len() != 0 {
            match halves(decode_utf8(raw), ':') {
                None => {},
                Some((name, value)) => {
                    lemma_headers_end_within(
                        b,
                        end + 1,
                        put(sofar, lowercase(trimmed(name)), lowercase(trimmed(value))),
                    );
                },
            }
        }
    }
}

/// A head that is whole, or broken, stays so when more bytes follow.
pub proof fn lemma_head_is_final(b: Seq<u8>, more: Seq<u8>)
    requires
        !(head_of(b) is Incomplete),
    ensures
        head_of(b + more) == head_of(b),
{
    lemma_line_is_final(b, more, 0);
    let end = line_end(b, 0);
    let raw = line_content(b, 0, end);
    if valid_utf8(raw) && words(decode_utf8(raw)).len() == 3 {
        lemma_headers_are_final(b, more, end + 1, Seq::empty());
    }
}

/// Once the bytes hold a whole request, or can hold none, bytes that follow
/// change nothing: the parser gives the same answer for every continuation.
pub proof fn lemma_parse_is_final(b: Seq<u8>, more: Seq<u8>)
    requires
        !(parse(b) is Incomplete),
    ensures
        parse(b + more) == parse(b),
{
    lemma_head_is_final(b, more);
    match head_of(b) {
        Head::Done(tokens, headers, start) => {
            lemma_line_is_final(b, more, 0);
            lemma_headers_end_within(b, line_end(b, 0) + 1, Seq::empty());
            match declared_length(headers) {
                Some(n) => {
                    assert((b + more).subrange(start, start + n) == b.subrange(start, start + n));
                },
                None => {},
            }
        },
        _ => {},
    }
}

/// A request is read with a body of exactly the declared length, taken from
/// the bytes right after the head.
pub proof fn lemma_body_has_declared_length(b: Seq<u8>)
    ensures
        parse(b) matches Parsed::Complete(request, consumed) ==> {
            &&& declared_length(request.headers) == Some(request.body.len())
            &&& 0 <= consumed - request.body.len() <= consumed <= b.len()
            &&& request.body == b.subrange(consumed - request.body.len(), consumed)
            &&& head_of(b) matches Head::Done(_, _, start) && start == consumed
                - request.body.len()
        },
{
    match head_of(b) {
        Head::Done(tokens, headers, start) => {
            assert(is_line_end(b, 0, line_end(b, 0)));
            lemma_headers_end_within(b, line_end(b, 0) + 1, Seq::empty());
        },
        _ => {},
    }
}

/// Whatever prefix of a message has arrived, the parser either asks for more
/// or already gives the answer it gives for the whole message. So a message
/// is read the same however the socket cuts it into chunks.
pub proof fn lemma_prefix_agrees(b: Seq<u8>, k: int)
    requires
        0 <= k <= b.len(),
    ensures
        parse(b.take(k)) is Incomplete || parse(b.take(k)) == parse(b),
{
    if !(parse(b.take(k)) is Incomplete) {
        assert(b.take(k) + b.skip(k) == b);
        lemma_parse_is_final(b.take(k), b.skip(k));
    }
}

/// A whole head followed by as many body bytes as it declares is read as a
/// request with exactly that body, and no shorter prefix of the body will do.
pub proof fn lemma_head_then_body(head: Seq<u8>, body: Seq<u8>, k: int)
    requires
        head_of(head) matches Head::Done(tokens, headers, start) && start == head.len()
            && declared_length(headers) == Some(body.len()) && method_named(
            uppercase(tokens[0]),
        ) is Some,
        0 <= k < body.len(),
    ensures
        parse(head + body) matches Parsed::Complete(request, consumed) && request.body == body
            && consumed == head.len() + body.len(),
        parse(head + body.take(k)) is Incomplete,
{
    lemma_head_is_final(head, body);
    lemma_head_is_final(head, body.take(k));
    assert((head + body).subrange(head.len() as int, (head.len() + body.len()) as int) == body);
}

/// What the header lines amount to, with the headers as a map.
pub enum HeadersOutcome {
    Incomplete,
    Failed(ProtocolError),
    Done(StringMap<String>, usize),
}

impl View for HeadersOutcome {
    type V = HeaderBlock;

    open spec fn view(&self) -> HeaderBlock {
        match self {
            HeadersOutcome::Incomplete => HeaderBlock::Incomplete,
            HeadersOutcome::Failed(e) => HeaderBlock::Failed(*e),
            HeadersOutcome::Done(headers, start) => HeaderBlock::Done(
                headers.text_entries(),
                *start as int,
            ),
        }
    }
}

/// What the request line amounts to.
pub enum RequestLineOutcome {
    Incomplete,
    Failed(ProtocolError),
    /// The three words of the line and the position after it.
    Done(Vec<String>, usize),
}

/// What the bytes received so far amount to.
pub enum ParseOutcome {
    Incomplete,
    Failed(ProtocolError),
    /// A request and the number of bytes that it takes up.
    Complete(Request, usize),
}

impl View for ParseOutcome {
    type V = Parsed;

    open spec fn view(&self) -> Parsed {
        match self {
            ParseOutcome::Incomplete => Parsed::Incomplete,
            ParseOutcome::Failed(e) => Parsed::Failed(*e),
            ParseOutcome::Complete(request, consumed) => Parsed::Complete(
                request@,
                *consumed as int,
            ),
        }
    }
}

fn find_line_end(buf: &[u8], from: usize) -> (r: Option<usize>)
    requires
        from <= buf.len(),
    ensures
        match r {
            Some(i) => has_line(buf@, from as int) && line_end(buf@, from as int) == i && from
                <= i < buf.len(),
            None => !has_line(buf@, from as int),
        },
{
    let mut i: usize = from;
    while i < buf.len()
        invariant
            from <= i <= buf.len(),
            forall|j: int| from <= j < i ==> buf@[j] != 10u8,
        decreases buf.len() - i,
    {
        if buf[i] == 10u8 {
            assert(is_line_end(buf@, from as int, i as int));
            proof {
                let k = line_end(buf@, from as int);
                assert(is_line_end(buf@, from as int, k));
                assert(k == i);
            }
            return Some(i);
        }
        i += 1;
    }
    assert forall|k: int| !is_line_end(buf@, from as int, k) by {}
    None
}

/// A copy of `buf[from..to]`.
pub fn copy_range(buf: &[u8], from: usize, to: usize) -> (r: Vec<u8>)
    requires
        from <= to <= buf.len(),
    ensures
        r@ == buf@.subrange(from as int, to as int),
{
    let mut out: Vec<u8> = Vec::new();
    let mut i: usize = from;
    while i < to
        invariant
            from <= i <= to <= buf.len(),
            out@ == buf@.subrange(from as int, i as int),
        decreases to - i,
    {
        out.push(buf[i]);
        i += 1;
    }
    out
}

fn read_line(buf: &[u8], from: usize, end: usize) -> (r: Option<String>)
    requires
        from <= end <= buf.len(),
    ensures
        match r {
            Some(line) => valid_utf8(line_content(buf@, from as int, end as int)) && line@
                == decode_utf8(line_content(buf@, from as int, end as int)),
            None => !valid_utf8(line_content(buf@, from as int, end as int)),
        },
{
    let stop: usize = if end > from && buf[end - 1] == 13u8 {
        end - 1
    } else {
        end
    };
    let raw = copy_range(buf, from, stop);
    assert(raw@ == line_content(buf@, from as int, end as int)) by {
        let whole = buf@.subrange(from as int, end as int);
        if end > from && buf@[end - 1] == 13u8 {
            assert(whole.last() == 13u8);
            assert(whole.drop_last() == raw@);
        }
    }
    match String::from_utf8(raw) {
        Ok(line) => Some(line),
        Err(_) => None,
    }
}

/// Reads the request line: the first line, which must have exactly three
/// words.
pub fn read_request_line(buf: &[u8]) -> (r: RequestLineOutcome)
    ensures
        match r {
            RequestLineOutcome::Incomplete => !has_line(buf@, 0),
            RequestLineOutcome::Failed(e) => has_line(buf@, 0) && {
                let raw = line_content(buf@, 0, line_end(buf@, 0));
                if valid_utf8(raw) {
                    e == ProtocolError::RequestLine && words(decode_utf8(raw)).len() != 3
                } else {
                    e == ProtocolError::Encoding
                }
            },
            RequestLineOutcome::Done(tokens, next) => has_line(buf@, 0) && {
                let raw = line_content(buf@, 0, line_end(buf@, 0));
                &&& valid_utf8(raw)
                &&& texts(tokens@) == words(decode_utf8(raw))
                &&& tokens.len() == 3
                &&& next == line_end(buf@, 0) + 1
                &&& next <= buf.len()
            },
        },
{
    match find_line_end(buf, 0) {
        None => RequestLineOutcome::Incomplete,
        Some(end) => match read_line(buf, 0, end) {
            None => RequestLineOutcome::Failed(ProtocolError::Encoding),
            Some(line) => {
                let tokens = split_words(line.as_str());
                assert(texts(tokens@).len() == tokens.len());
                if tokens.len() != 3 {
                    RequestLineOutcome::Failed(ProtocolError::RequestLine)
                } else {
                    RequestLineOutcome::Done(tokens, end + 1)
                }
            },
        },
    }
}

/// Reads the header lines that start at `from`, up to the blank line.
pub fn parse_headers(buf: &[u8], from: usize) -> (r: HeadersOutcome)
    requires
        from <= buf.len(),
    ensures
        r@ == headers_from(buf@, from as int, Seq::empty()),
        r matches HeadersOutcome::Done(_, start) ==> start <= buf.len(),
{
    let mut headers: StringMap<String> = StringMap::new();
    let mut at: usize = from;
    assert(headers.text_entries() == Seq::<Entry<Seq<char>>>::empty());
    loop
        invariant
            from <= at <= buf.len(),
            headers_from(buf@, from as int, Seq::empty()) == headers_from(
                buf@,
                at as int,
                headers.text_entries(),
            ),
        decreases buf.len() - at,
    {
        let end = match find_line_end(buf, at) {
            None => {
                return HeadersOutcome::Incomplete;
            },
            Some(end) => end,
        };
        let line = match read_line(buf, at, end) {
            None => {
                return HeadersOutcome::Failed(ProtocolError::Encoding);
            },
            Some(line) => line,
        };
        if line.as_str().is_empty() {
            return HeadersOutcome::Done(headers, end + 1);
        }
        match split_once(line.as_str(), ':') {
            None => {
                return HeadersOutcome::Failed(ProtocolError::Header);
            },
            Some((name, value)) => {
                let name = trim(name.as_str()).as_str().to_lowercase();
                let value = trim(value.as_str()).as_str().to_lowercase();
                headers.recall_distinct();
                proof {
                    lemma_text_values_put(headers.entries(), name@, value);
                }
                headers.insert(name, value);
                at = end + 1;
            },
        }
    }
}

/// Reads one request from the start of the bytes received so far.
///
/// `Incomplete` asks for more bytes; the other two answers are final, and
/// stay the same whatever bytes follow.
pub fn parse_request(buf: &[u8]) -> (r: ParseOutcome)
    ensures
        r@ == parse(buf@),
        r matches ParseOutcome::Complete(_, consumed) ==> consumed <= buf.len(),
{
    let (tokens, next) = match read_request_line(buf) {
        RequestLineOutcome::Incomplete => {
            return ParseOutcome::Incomplete;
        },
        RequestLineOutcome::Failed(e) => {
            return ParseOutcome::Failed(e);
        },
        RequestLineOutcome::Done(tokens, next) => (tokens, next),
    };
    let (headers, start) = match parse_headers(buf, next) {
        HeadersOutcome::Incomplete => {
            return ParseOutcome::Incomplete;
        },
        HeadersOutcome::Failed(e) => {
            return ParseOutcome::Failed(e);
        },
        HeadersOutcome::Done(headers, start) => (headers, start),
    };
    let found = headers.get("content-length");
    headers.recall_distinct();
    proof {
        lemma_text_values(headers.entries(), "content-length"@);
    }
    let length: usize = match found {
        Some(value) => match parse_decimal(value.as_str()) {
            Some(n) => n,
            None => {
                return ParseOutcome::Failed(ProtocolError::ContentLength);
            },
        },
        None => 0,
    };
    if length > buf.len() - start {
        return ParseOutcome::Incomplete;
    }
    let body = copy_range(buf, start, start + length);
    let mut tokens = tokens;
    let http_version = tokens.pop().unwrap();
    let path = tokens.pop().unwrap();
    let method_token = tokens.pop().unwrap();
    let method = match HttpMethod::from_str(method_token.as_str()) {
        Ok(method) => method,
        Err(_) => {
            return ParseOutcome::Failed(ProtocolError::Method);
        },
    };
    ParseOutcome::Complete(Request { method, path, http_version, headers, body }, start + length)
}

} // verus!
