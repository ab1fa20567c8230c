//! A parsed request and the views that handlers derive from it.

use crate::http_server::content_type::content_type_named;
use crate::http_server::content_type::ContentType;
use crate::http_server::cookie::cookies_in;
use crate::http_server::cookie::parse_cookies;
use crate::http_server::cookie::Cookie;
use crate::http_server::cookie::cookie_views;
use crate::string_map::has_key;
use crate::string_map::lemma_text_values;
use crate::string_map::lemma_text_values_put;
use crate::string_map::map_of;
use crate::string_map::put;
use crate::string_map::put_all;
use crate::string_map::Entry;
use crate::string_map::StringMap;
use crate::text::halves;
use crate::text::joined_with;
use crate::text::lemma_halves_of_joined;
use crate::text::lemma_pieces_of_joined;
use crate::text::lowercase;
use crate::text::pieces;
use crate::text::push_text;
use crate::text::split;
use crate::text::split_once;
use crate::text::texts;
use crate::text::uppercase;
use crate::text::Delimiter;
use vstd::prelude::*;
use vstd::utf8::decode_utf8;
use vstd::utf8::valid_utf8;

verus! {

/// The methods that the server answers.
#[derive(Debug, Clone, Copy, PartialEq, Eq, Hash, Structural)]
pub enum HttpMethod {
    GET,
    POST,
}

/// The method that a token names, letter for letter.
pub open spec fn method_named(s: Seq<char>) -> Option<HttpMethod> {
    if s == "GET"@ {
        Some(HttpMethod::GET)
    } else if s == "POST"@ {
        Some(HttpMethod::POST)
    } else {
        None
    }
}

impl HttpMethod {
    /// The method that a token names, letter for letter.
    pub fn named(token: &str) -> (r: Option<HttpMethod>)
        ensures
            r == method_named(token@),
    {
        if *token == *"GET" {
            Some(HttpMethod::GET)
        } else if *token == *"POST" {
            Some(HttpMethod::POST)
        } else {
            None
        }
    }

    /// Reads a method name without regard to letter case. An unknown one is
    /// an error whose text names it.
    pub fn from_str(s: &str) -> (r: Result<HttpMethod, String>)
        ensures
            match r {
                Ok(m) => method_named(uppercase(s@)) == Some(m),
                Err(message) => method_named(uppercase(s@)) is None && message@
                    == "Invalid Http method "@ + s@,
            },
    {
        let upper = s.to_uppercase();
        match HttpMethod::named(upper.as_str()) {
            Some(method) => Ok(method),
            None => {
                let mut message = "Invalid Http method ".to_owned();
                push_text(&mut message, s);
                Err(message)
            },
        }
    }
}

/// A request as it was read: header names and values are trimmed and in
/// lower case, the body is as it came.
#[derive(Debug)]
pub struct Request {
    pub method: HttpMethod,
    pub path: String,
    pub http_version: String,
    pub headers: StringMap<String>,
    pub body: Vec<u8>,
}

/// A request as mathematics sees it.
pub struct RequestModel {
    pub method: HttpMethod,
    pub path: Seq<char>,
    pub http_version: Seq<char>,
    pub headers: Seq<Entry<Seq<char>>>,
    pub body: Seq<u8>,
}

/// The fields among the pieces of a form body: each piece with an `=` sets
/// the text before the first one to the text after it; a piece without is
/// skipped. A key that comes again takes the later value.
pub open spec fn form_pairs(parts: Seq<Seq<char>>) -> Seq<Entry<Seq<char>>>
    decreases parts.len(),
{
    if parts.len() == 0 {
        Seq::empty()
    } else {
        let before = form_pairs(parts.drop_last());
        match halves(parts.last(), '=') {
            Some((key, value)) => put(before, key, value),
            None => before,
        }
    }
}

/// The fields of a form body.
pub open spec fn form_fields(body: Seq<char>) -> Seq<Entry<Seq<char>>> {
    form_pairs(pieces(body, Delimiter::Char('&')))
}

impl RequestModel {
    /// The value of the header `name`, which is written in lower case.
    pub open spec fn header(self, name: Seq<char>) -> Option<Seq<char>> {
        if has_key(self.headers, name) {
            Some(map_of(self.headers)[name])
        } else {
            None
        }
    }

    /// The content type that the `content-type` header names, if it is a
    /// known one.
    pub open spec fn content_type(self) -> Option<ContentType> {
        match self.header("content-type"@) {
            Some(value) => content_type_named(lowercase(value)),
            None => None,
        }
    }

    /// The cookies of the `cookie` header, in order; none without one.
    pub open spec fn cookies(self) -> Seq<(Seq<char>, Seq<char>)> {
        match self.header("cookie"@) {
            Some(value) => cookies_in(value),
            None => Seq::empty(),
        }
    }

    /// The form fields, where the request declares a form and its body is
    /// well-formed UTF-8.
    pub open spec fn form(self) -> Option<Seq<Entry<Seq<char>>>> {
        if self.content_type() == Some(ContentType::FormUrlEncoded) && valid_utf8(self.body) {
            Some(form_fields(decode_utf8(self.body)))
        } else {
            None
        }
    }
}

impl View for Request {
    type V = RequestModel;

    open spec fn view(&self) -> RequestModel {
        RequestModel {
            method: self.method,
            path: self.path@,
            http_version: self.http_version@,
            headers: self.headers.text_entries(),
            body: self.body@,
        }
    }
}

impl Clone for Request {
    fn clone(&self) -> (r: Self)
        ensures
            r@ == self@,
    {
        let headers = self.headers.clone();
        let body = self.body.clone();
        assert(body@ == self.body@);
        assert(headers.text_entries() == self.headers.text_entries());
        Request {
            method: self.method,
            path: self.path.clone(),
            http_version: self.http_version.clone(),
            headers,
            body,
        }
    }
}

impl Request {
    /// The value of the header `name`, which is written in lower case.
    pub fn header(&self, name: &str) -> (r: Option<&String>)
        ensures
            match r {
                Some(value) => self@.header(name@) == Some(value@),
                None => self@.header(name@) is None,
            },
    {
        let found = self.headers.get(name);
        self.headers.recall_distinct();
        proof {
            lemma_text_values(self.headers.entries(), name@);
        }
        found
    }

    /// The form fields of the body. `None` unless the content type is
    /// `application/x-www-form-urlencoded` and the body is UTF-8.
    pub fn form_urlencoded(&self) -> (r: Option<StringMap<String>>)
        ensures
            match r {
                Some(fields) => self@.form() == Some(fields.text_entries()),
                None => self@.form() is None,
            },
    {
        match self.content_type() {
            Some(ContentType::FormUrlEncoded) => {
                match String::from_utf8(self.body.clone()) {
                    Ok(body) => Some(parse_form(body.as_str())),
                    Err(_) => None,
                }
            },
            _ => None,
        }
    }

    /// The cookies of the `cookie` header, in order; none without one.
    pub fn cookies(&self) -> (r: Vec<Cookie>)
        ensures
            cookie_views(r@) == self@.cookies(),
    {
        match self.header("cookie") {
            Some(value) => parse_cookies(value.as_str()),
            None => {
                let none: Vec<Cookie> = Vec::new();
                assert(cookie_views(none@) == Seq::<(Seq<char>, Seq<char>)>::empty());
                none
            },
        }
    }

    /// The content type that the `content-type` header names, if it is a
    /// known one.
    pub fn content_type(&self) -> (r: Option<ContentType>)
        ensures
            r == self@.content_type(),
    {
        match self.header("content-type") {
            Some(value) => match ContentType::from_str(value.as_str()) {
                Ok(t) => Some(t),
                Err(_) => None,
            },
            None => None,
        }
    }
}

/// Reads the fields of a form body.
pub fn parse_form(body: &str) -> (r: StringMap<String>)
    ensures
        r.text_entries() == form_fields(body@),
{
    let parts = split(body, Delimiter::Char('&'));
    let mut fields: StringMap<String> = StringMap::new();
    assert(fields.text_entries() == Seq::<Entry<Seq<char>>>::empty());
    let mut i: usize = 0;
    while i < parts.len()
        invariant
            i <= parts.len(),
            fields.text_entries() == form_pairs(texts(parts@).take(i as int)),
        decreases parts.len() - i,
    {
        proof {
            let longer = texts(parts@).take(i + 1);
            assert(longer.drop_last() == texts(parts@).take(i as int));
            assert(longer.last() == parts@[i as int]@);
        }
        match split_once(parts[i].as_str(), '=') {
            Some((key, value)) => {
                fields.recall_distinct();
                proof {
                    lemma_text_values_put(fields.entries(), key@, value);
                }
                fields.insert(key, value);
            },
            None => {},
        }
        i += 1;
    }
    assert(texts(parts@).take(parts@.len() as int) == texts(parts@));
    fields
}

/// The wire form of one form field: `key=value`.
pub open spec fn field_text(field: Entry<Seq<char>>) -> Seq<char> {
    field.0 + seq!['='] + field.1
}

/// Whether a form field can be written and read back: its key holds no
/// `=`, and neither part holds a `&`.
pub open spec fn plain_field(field: Entry<Seq<char>>) -> bool {
    &&& forall|i: int| 0 <= i < field.0.len() ==> field.0[i] != '=' && field.0[i] != '&'
    &&& forall|i: int| 0 <= i < field.1.len() ==> field.1[i] != '&'
}

/// The wire forms of plain fields read back as the fields, each put in turn.
pub proof fn lemma_form_pairs_of_texts(fields: Seq<Entry<Seq<char>>>)
    requires
        forall|i: int| 0 <= i < fields.len() ==> plain_field(#[trigger] fields[i]),
    ensures
        form_pairs(fields.map_values(|f: Entry<Seq<char>>| field_text(f))) == put_all(
            Seq::empty(),
            fields,
        ),
    decreases fields.len(),
{
    let texts = fields.map_values(|f: Entry<Seq<char>>| field_text(f));
    if fields.len() > 0 {
        let last = fields.last();
        assert(plain_field(fields[fields.len() - 1]));
        lemma_form_pairs_of_texts(fields.drop_last());
        assert(texts.drop_last() == fields.drop_last().map_values(
            |f: Entry<Seq<char>>| field_text(f),
        ));
        assert(texts.last() == field_text(last));
        lemma_halves_of_joined(last.0, last.1, '=');
    }
}

/// Plain fields written one after the other with `&` between them read
/// back as the fields put in turn: every key has the value that was
/// written last for it.
pub proof fn lemma_form_round_trip(fields: Seq<Entry<Seq<char>>>)
    requires
        fields.len() >= 1,
        forall|i: int| 0 <= i < fields.len() ==> plain_field(#[trigger] fields[i]),
    ensures
        form_fields(joined_with(fields.map_values(|f: Entry<Seq<char>>| field_text(f)), '&'))
            == put_all(Seq::empty(), fields),
{
    let texts = fields.map_values(|f: Entry<Seq<char>>| field_text(f));
    assert forall|i: int, j: int| 0 <= i < texts.len() && 0 <= j < texts[i].len() implies (
    #[trigger] texts[i][j]) != '&' by {
        let f = fields[i];
        assert(plain_field(f));
        assert(texts[i] == field_text(f));
        if j < f.0.len() {
            assert(texts[i][j] == f.0[j]);
        } else if j > f.0.len() {
            assert(texts[i][j] == f.1[j - f.0.len() - 1]);
        }
    }
    lemma_pieces_of_joined(texts, '&');
    lemma_form_pairs_of_texts(fields);
}

} // verus!
