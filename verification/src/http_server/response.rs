//! Responses, the builder that handlers make them with, and the bytes that
//! go on the wire.

use crate::http_server::content_type::ContentType;
use crate::http_server::cookie::cookie_text;
use crate::http_server::cookie::Cookie;
use crate::string_map::distinct_keys;
use crate::string_map::has_key;
use crate::string_map::key_at;
use crate::string_map::lemma_put;
use crate::string_map::lemma_text_values;
use crate::string_map::lemma_text_values_put;
use crate::string_map::map_of;
use crate::string_map::position_of;
use crate::string_map::put;
use crate::string_map::Entry;
use crate::string_map::StringMap;
use crate::text::decimal_digits;
use crate::text::decimal_value;
use crate::text::lemma_decimal_round_trip;
use crate::text::format_decimal;
use crate::text::push_decimal;
use crate::text::push_text;
use vstd::prelude::*;
use vstd::string::StrSliceExecFns;
use vstd::utf8::encode_utf8;

verus! {

/// A response: status line, headers, body.
#[derive(Debug)]
pub struct Response {
    pub http_version: String,
    pub status_code: u16,
    pub reason_phrase: String,
    pub headers: Option<StringMap<String>>,
    pub body: Option<Vec<u8>>,
    pub location: Option<String>,
}

/// A response as mathematics sees it.
pub struct ResponseModel {
    pub http_version: Seq<char>,
    pub status_code: u16,
    pub reason_phrase: Seq<char>,
    pub headers: Option<Seq<Entry<Seq<char>>>>,
    pub body: Option<Seq<u8>>,
    pub location: Option<Seq<char>>,
}

/// One header as it is written: `Name: value`.
pub open spec fn header_line(e: Entry<Seq<char>>) -> Seq<char> {
    e.0 + ": "@ + e.1
}

/// The headers as they are written: one line each, CR LF between them.
pub open spec fn header_block(e: Seq<Entry<Seq<char>>>) -> Seq<char>
    decreases e.len(),
{
    if e.len() == 0 {
        Seq::empty()
    } else if e.len() == 1 {
        header_line(e[0])
    } else {
        header_block(e.drop_last()) + "\r\n"@ + header_line(e.last())
    }
}

/// The response a builder starts from.
pub open spec fn default_response() -> ResponseModel {
    ResponseModel {
        http_version: "HTTP/1.1"@,
        status_code: 200,
        reason_phrase: "OK"@,
        headers: None,
        body: None,
        location: None,
    }
}

impl ResponseModel {
    /// The header entries; none where the response has no header map.
    pub open spec fn header_entries(self) -> Seq<Entry<Seq<char>>> {
        match self.headers {
            Some(h) => h,
            None => Seq::empty(),
        }
    }

    /// The value of the header `name`.
    pub open spec fn header(self, name: Seq<char>) -> Option<Seq<char>> {
        if has_key(self.header_entries(), name) {
            Some(map_of(self.header_entries())[name])
        } else {
            None
        }
    }

    /// The response with the header `name` set to `value`.
    pub open spec fn with_header(self, name: Seq<char>, value: Seq<char>) -> ResponseModel {
        ResponseModel { headers: Some(put(self.header_entries(), name, value)), ..self }
    }

    /// The response with `body` as its body and a `Content-Length` to match.
    pub open spec fn with_body(self, body: Seq<u8>) -> ResponseModel {
        ResponseModel { body: Some(body), ..self }.with_header(
            "Content-Length"@,
            decimal_digits(body.len()),
        )
    }

    /// The response with `headers` in place of its own; where it has a body,
    /// `Content-Length` is set again to the body's length.
    pub open spec fn with_headers(self, headers: Seq<Entry<Seq<char>>>) -> ResponseModel {
        let replaced = ResponseModel { headers: Some(headers), ..self };
        match self.body {
            Some(b) => replaced.with_header("Content-Length"@, decimal_digits(b.len())),
            None => replaced,
        }
    }

    /// Whether a body, where there is one, comes with a `Content-Length`
    /// header that gives its length in bytes.
    pub open spec fn length_declared(self) -> bool {
        self.body matches Some(b) ==> self.header("Content-Length"@) == Some(
            decimal_digits(b.len()),
        )
    }

    /// Status line and headers as they are written, up to the blank line.
    pub open spec fn head_text(self) -> Seq<char> {
        self.http_version + " "@ + decimal_digits(self.status_code as nat) + " "@
            + self.reason_phrase + "\r\n"@ + header_block(self.header_entries()) + "\r\n\r\n"@
    }

    /// The bytes of the response on the wire.
    pub open spec fn wire(self) -> Seq<u8> {
        encode_utf8(self.head_text()) + match self.body {
            Some(b) => b,
            None => Seq::empty(),
        }
    }
}

impl View for Response {
    type V = ResponseModel;

    open spec fn view(&self) -> ResponseModel {
        ResponseModel {
            http_version: self.http_version@,
            status_code: self.status_code,
            reason_phrase: self.reason_phrase@,
            headers: match self.headers {
                Some(h) => Some(h.text_entries()),
                None => None,
            },
            body: match self.body {
                Some(b) => Some(b@),
                None => None,
            },
            location: match self.location {
                Some(l) => Some(l@),
                None => None,
            },
        }
    }
}

impl Default for Response {
    fn default() -> (r: Self)
        ensures
            r@ == default_response(),
    {
        Response {
            http_version: "HTTP/1.1".to_owned(),
            status_code: 200,
            reason_phrase: "OK".to_owned(),
            headers: None,
            body: None,
            location: None,
        }
    }
}

impl Clone for Response {
    fn clone(&self) -> (r: Self)
        ensures
            r@ == self@,
    {
        let headers = match &self.headers {
            Some(h) => {
                let copy = h.clone();
                assert(copy.text_entries() == h.text_entries());
                Some(copy)
            },
            None => None,
        };
        let body = match &self.body {
            Some(b) => {
                let copy = b.clone();
                assert(copy@ == b@);
                Some(copy)
            },
            None => None,
        };
        let location = match &self.location {
            Some(l) => Some(l.clone()),
            None => None,
        };
        Response {
            http_version: self.http_version.clone(),
            status_code: self.status_code,
            reason_phrase: self.reason_phrase.clone(),
            headers,
            body,
            location,
        }
    }
}

/// Writes the headers one per line, with CR LF between the lines.
pub fn format_headers(headers: &StringMap<String>) -> (r: String)
    ensures
        r@ == header_block(headers.text_entries()),
{
    let mut out = String::new();
    let n: usize = headers.len();
    let mut i: usize = 0;
    while i < n
        invariant
            i <= n,
            n == headers.entries().len(),
            out@ == header_block(headers.text_entries().take(i as int)),
        decreases n - i,
    {
        proof {
            let longer = headers.text_entries().take(i + 1);
            assert(longer.drop_last() == headers.text_entries().take(i as int));
            assert(longer.last() == headers.text_entries()[i as int]);
            if i == 0 {
                assert(longer[0] == longer.last());
            }
        }
        if i > 0 {
            push_text(&mut out, "\r\n");
        }
        push_text(&mut out, headers.key(i).as_str());
        push_text(&mut out, ": ");
        push_text(&mut out, headers.value(i).as_str());
        i += 1;
    }
    assert(headers.text_entries().take(n as int) == headers.text_entries());
    out
}

impl Response {
    /// The value of the header `name`, written as it was set.
    pub fn header(&self, name: &str) -> (r: Option<&String>)
        ensures
            match r {
                Some(value) => self@.header(name@) == Some(value@),
                None => self@.header(name@) is None,
            },
    {
        match &self.headers {
            Some(h) => {
                let found = h.get(name);
                h.recall_distinct();
                proof {
                    lemma_text_values(h.entries(), name@);
                }
                found
            },
            None => {
                assert(!has_key(self@.header_entries(), name@)) by {
                    if has_key(self@.header_entries(), name@) {
                        let i = position_of(self@.header_entries(), name@);
                        assert(key_at(self@.header_entries(), name@, i));
                    }
                }
                None
            },
        }
    }

    /// The bytes to send: status line, headers, a blank line, the body.
    pub fn to_bytes(&self) -> (r: Vec<u8>)
        ensures
            r@ == self@.wire(),
    {
        let mut head = String::new();
        push_text(&mut head, self.http_version.as_str());
        push_text(&mut head, " ");
        push_decimal(&mut head, self.status_code as u64);
        push_text(&mut head, " ");
        push_text(&mut head, self.reason_phrase.as_str());
        push_text(&mut head, "\r\n");
        match &self.headers {
            Some(h) => {
                let block = format_headers(h);
                push_text(&mut head, block.as_str());
            },
            None => {},
        }
        push_text(&mut head, "\r\n\r\n");
        assert(head@ == self@.head_text());
        let mut out = head.as_str().as_bytes_vec();
        match &self.body {
            Some(b) => {
                let mut i: usize = 0;
                while i < b.len()
                    invariant
                        i <= b.len(),
                        out@ == encode_utf8(head@) + b@.take(i as int),
                    decreases b.len() - i,
                {
                    assert(b@.take(i + 1) == b@.take(i as int).push(b@[i as int]));
                    out.push(b[i]);
                    i += 1;
                }
                assert(b@.take(b@.len() as int) == b@);
            },
            None => {},
        }
        out
    }
}

/// Makes a response step by step. Whatever the steps, a body comes with the
/// `Content-Length` header that gives its length.
pub struct ResponseBuilder {
    response: Response,
}

/// Setting a header other than `Content-Length` leaves the declared length
/// as it was.
pub proof fn lemma_other_header_keeps_length(
    m: ResponseModel,
    name: Seq<char>,
    value: Seq<char>,
)
    requires
        distinct_keys(m.header_entries()),
        m.length_declared(),
        name != "Content-Length"@,
    ensures
        m.with_header(name, value).length_declared(),
        distinct_keys(m.with_header(name, value).header_entries()),
{
    let e = m.header_entries();
    lemma_put(e, name, value);
    assert(map_of(e).insert(name, value).contains_key("Content-Length"@) == map_of(
        e,
    ).contains_key("Content-Length"@));
    assert(map_of(put(e, name, value)).contains_key("Content-Length"@) == has_key(
        put(e, name, value),
        "Content-Length"@,
    ));
    assert(map_of(e).contains_key("Content-Length"@) == has_key(e, "Content-Length"@));
}

/// Setting `Content-Length` to the length of the body declares it.
pub proof fn lemma_length_header_declares(m: ResponseModel, value: Seq<char>)
    requires
        distinct_keys(m.header_entries()),
        m.body matches Some(b) ==> value == decimal_digits(b.len()),
    ensures
        m.with_header("Content-Length"@, value).length_declared(),
        distinct_keys(m.with_header("Content-Length"@, value).header_entries()),
{
    let e = m.header_entries();
    lemma_put(e, "Content-Length"@, value);
    assert(map_of(e).insert("Content-Length"@, value).contains_key("Content-Length"@));
    assert(map_of(put(e, "Content-Length"@, value)).contains_key("Content-Length"@) == has_key(
        put(e, "Content-Length"@, value),
        "Content-Length"@,
    ));
}

/// A declared length, read as a number, is the length of the body.
pub proof fn lemma_declared_length_reads_back(m: ResponseModel)
    requires
        m.length_declared(),
        m.body is Some,
    ensures
        m.header("Content-Length"@) matches Some(value) && decimal_value(value) == Some(
            m.body->0.len(),
        ),
{
    lemma_decimal_round_trip(m.body->0.len());
}

impl ResponseBuilder {
    /// The response as built so far.
    pub closed spec fn model(&self) -> ResponseModel {
        self.response@
    }

    #[verifier::type_invariant]
    spec fn body_length_is_declared(&self) -> bool {
        self.response@.length_declared()
    }

    fn set_header(self, name: &str, value: String) -> (r: Self)
        requires
            name@ == "Content-Length"@ ==> (self.model().body matches Some(b) ==> value@
                == decimal_digits(b.len())),
        ensures
            r.model() == self.model().with_header(name@, value@),
    {
        proof {
            use_type_invariant(&self);
        }
        let ghost before = self.response@;
        let mut response = self.response;
        let mut headers = match response.headers {
            Some(h) => h,
            None => StringMap::new(),
        };
        headers.recall_distinct();
        assert(headers.text_entries() == before.header_entries());
        proof {
            lemma_text_values(headers.entries(), name@);
            lemma_text_values_put(headers.entries(), name@, value);
            if name@ == "Content-Length"@ {
                lemma_length_header_declares(before, value@);
            } else {
                lemma_other_header_keeps_length(before, name@, value@);
            }
        }
        headers.insert(name.to_owned(), value);
        response.headers = Some(headers);
        ResponseBuilder { response }
    }

    /// Sets the `Content-Type` header.
    pub fn content_type(self, content_type: ContentType) -> (r: Self)
        ensures
            r.model() == self.model().with_header("Content-Type"@, content_type.media_type()),
    {
        proof {
            reveal_strlit("Content-Type");
            reveal_strlit("Content-Length");
            assert("Content-Type"@.len() != "Content-Length"@.len());
        }
        self.set_header("Content-Type", content_type.to_string())
    }

    /// Makes the response a temporary redirect to `location`: status 302 and
    /// a `Location` header.
    pub fn temp_redirect(self, location: &str) -> (r: Self)
        ensures
            r.model() == (ResponseModel {
                status_code: 302,
                ..self.model().with_header("Location"@, location@)
            }),
    {
        proof {
            reveal_strlit("Location");
            reveal_strlit("Content-Length");
            assert("Location"@.len() != "Content-Length"@.len());
        }
        self.set_header("Location", location.to_owned()).status_code(302)
    }

    /// Sets the body to the bytes of `body`, and `Content-Length` with it.
    pub fn body_string(self, body: String) -> (r: Self)
        ensures
            r.model() == self.model().with_body(encode_utf8(body@)),
    {
        self.body_bytes(body.as_str().as_bytes_vec())
    }

    fn content_length(self, content_length: usize) -> (r: Self)
        requires
            self.model().body matches Some(b) ==> content_length == b.len(),
        ensures
            r.model() == self.model().with_header(
                "Content-Length"@,
                decimal_digits(content_length as nat),
            ),
    {
        self.set_header("Content-Length", format_decimal(content_length as u64))
    }

    /// A builder that starts from the default response: `HTTP/1.1 200 OK`
    /// without headers or body.
    pub fn new() -> (r: ResponseBuilder)
        ensures
            r.model() == default_response(),
    {
        ResponseBuilder { response: Response::default() }
    }

    /// Sets the protocol version of the status line.
    pub fn http_version(self, http_version: String) -> (r: Self)
        ensures
            r.model() == (ResponseModel { http_version: http_version@, ..self.model() }),
    {
        proof {
            use_type_invariant(&self);
        }
        let mut response = self.response;
        response.http_version = http_version;
        ResponseBuilder { response }
    }

    /// Sets the status code.
    pub fn status_code(self, status_code: u16) -> (r: Self)
        ensures
            r.model() == (ResponseModel { status_code, ..self.model() }),
    {
        proof {
            use_type_invariant(&self);
        }
        let mut response = self.response;
        response.status_code = status_code;
        ResponseBuilder { response }
    }

    /// Sets the reason phrase of the status line.
    pub fn reason_phrase(self, reason_phrase: String) -> (r: Self)
        ensures
            r.model() == (ResponseModel { reason_phrase: reason_phrase@, ..self.model() }),
    {
        proof {
            use_type_invariant(&self);
        }
        let mut response = self.response;
        response.reason_phrase = reason_phrase;
        ResponseBuilder { response }
    }

    /// Replaces all headers by `headers`. Where a body is set, its
    /// `Content-Length` is set again afterwards.
    pub fn headers(self, headers: StringMap<String>) -> (r: Self)
        ensures
            r.model() == self.model().with_headers(headers.text_entries()),
    {
        proof {
            use_type_invariant(&self);
        }
        headers.recall_distinct();
        proof {
            lemma_text_values(headers.entries(), "Content-Length"@);
        }
        let mut response = self.response;
        let length: Option<usize> = match &response.body {
            Some(b) => Some(b.len()),
            None => None,
        };
        match length {
            Some(n) => {
                let mut headers = headers;
                let text = format_decimal(n as u64);
                proof {
                    lemma_text_values_put(headers.entries(), "Content-Length"@, text);
                    lemma_length_header_declares(
                        ResponseModel { headers: Some(headers.text_entries()), ..response@ },
                        text@,
                    );
                }
                headers.insert("Content-Length".to_owned(), text);
                response.headers = Some(headers);
                ResponseBuilder { response }
            },
            None => {
                response.headers = Some(headers);
                ResponseBuilder { response }
            },
        }
    }

    /// Sets the body, and `Content-Length` with it.
    pub fn body_bytes(self, body: Vec<u8>) -> (r: Self)
        ensures
            r.model() == self.model().with_body(body@),
    {
        proof {
            use_type_invariant(&self);
        }
        let ghost before = self.response@;
        let content_length: usize = body.len();
        let text = format_decimal(content_length as u64);
        let mut response = self.response;
        let mut headers = match response.headers {
            Some(h) => h,
            None => StringMap::new(),
        };
        headers.recall_distinct();
        assert(headers.text_entries() == before.header_entries());
        proof {
            lemma_text_values(headers.entries(), "Content-Length"@);
            lemma_text_values_put(headers.entries(), "Content-Length"@, text);
            lemma_length_header_declares(
                ResponseModel { body: Some(body@), ..before },
                text@,
            );
        }
        headers.insert("Content-Length".to_owned(), text);
        response.headers = Some(headers);
        response.body = Some(body);
        ResponseBuilder { response }
    }

    /// Sets the `Set-Cookie` header to the wire form of `cookie`.
    pub fn cookie(self, cookie: Cookie) -> (r: Self)
        ensures
            r.model() == self.model().with_header(
                "Set-Cookie"@,
                cookie_text(cookie.name@, cookie.value@),
            ),
    {
        proof {
            reveal_strlit("Set-Cookie");
            reveal_strlit("Content-Length");
            assert("Set-Cookie"@.len() != "Content-Length"@.len());
        }
        self.set_header("Set-Cookie", cookie.cookie_string())
    }

    /// The response. A body, where one was set, has its length declared.
    pub fn build(self) -> (r: Response)
        ensures
            r@ == self.model(),
            r@.length_declared(),
    {
        proof {
            use_type_invariant(&self);
        }
        self.response
    }
}

} // verus!
