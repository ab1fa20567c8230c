//! Cookies: a name with a value, and the two wire forms they travel in.

use crate::text::halves;
use crate::text::has_char;
use crate::text::is_trimmed;
use crate::text::joined_with;
use crate::text::lemma_pieces_of_joined;
use crate::text::lemma_halves_of_joined;
use crate::text::lemma_pieces_single;
use crate::text::pieces;
use crate::text::push_text;
use crate::text::split;
use crate::text::split_once;
use crate::text::texts;
use crate::text::trim;
use crate::text::trimmed;
use crate::text::Delimiter;
use vstd::prelude::*;

verus! {

/// A cookie: a name and a value.
pub struct Cookie {
    pub name: String,
    pub value: String,
}

impl View for Cookie {
    type V = (Seq<char>, Seq<char>);

    open spec fn view(&self) -> (Seq<char>, Seq<char>) {
        (self.name@, self.value@)
    }
}

impl Clone for Cookie {
    fn clone(&self) -> (r: Self)
        ensures
            r@ == self@,
    {
        Cookie { name: self.name.clone(), value: self.value.clone() }
    }
}

/// The name and value pairs of a sequence of cookies.
pub open spec fn cookie_views(v: Seq<Cookie>) -> Seq<(Seq<char>, Seq<char>)> {
    v.map_values(|c: Cookie| c@)
}

/// The wire form of one cookie: `name=value`.
pub open spec fn cookie_text(name: Seq<char>, value: Seq<char>) -> Seq<char> {
    name + seq!['='] + value
}

/// The cookies among the pieces of a `Cookie` header: each piece with an
/// `=` gives the trimmed texts before and after the first one; a piece
/// without is skipped.
pub open spec fn cookie_pairs(parts: Seq<Seq<char>>) -> Seq<(Seq<char>, Seq<char>)>
    decreases parts.len(),
{
    if parts.len() == 0 {
        Seq::empty()
    } else {
        let before = cookie_pairs(parts.drop_last());
        match halves(parts.last(), '=') {
            Some((name, value)) => before.push((trimmed(name), trimmed(value))),
            None => before,
        }
    }
}

/// The cookies that a `Cookie` header value holds, in order.
pub open spec fn cookies_in(header: Seq<char>) -> Seq<(Seq<char>, Seq<char>)> {
    cookie_pairs(pieces(header, Delimiter::Char(';')))
}

impl Cookie {
    /// The cookie `name` with the value `value`.
    pub fn new(name: &str, value: String) -> (r: Self)
        ensures
            r@ == (name@, value@),
    {
        Cookie { name: name.to_owned(), value }
    }

    /// The wire form `name=value`.
    pub fn cookie_string(self) -> (r: String)
        ensures
            r@ == cookie_text(self.name@, self.value@),
    {
        let mut out = self.name;
        out.push('=');
        push_text(&mut out, self.value.as_str());
        out
    }
}

/// Whether the cookie `name=value` can be written and read back: its name
/// holds no `=`, neither part holds a `;`, and neither has whitespace at
/// its ends. Such a cookie, in its wire form, reads back as itself.
pub fn is_plain(name: &str, value: &str) -> (r: bool)
    ensures
        r == plain_cookie((name@, value@)),
        r ==> cookies_in(cookie_text(name@, value@)) == seq![(name@, value@)],
{
    let plain = !has_char(name, '=') && !has_char(name, ';') && !has_char(value, ';')
        && is_trimmed(name) && is_trimmed(value);
    proof {
        if plain {
            lemma_cookie_round_trip(name@, value@);
        }
    }
    plain
}

/// Reads the cookies of a `Cookie` header value.
pub fn parse_cookies(header: &str) -> (r: Vec<Cookie>)
    ensures
        cookie_views(r@) == cookies_in(header@),
{
    let parts = split(header, Delimiter::Char(';'));
    let mut cookies: Vec<Cookie> = Vec::new();
    let mut i: usize = 0;
    while i < parts.len()
        invariant
            i <= parts.len(),
            cookie_views(cookies@) == cookie_pairs(texts(parts@).take(i as int)),
        decreases parts.len() - i,
    {
        proof {
            let longer = texts(parts@).take(i + 1);
            assert(longer.drop_last() == texts(parts@).take(i as int));
            assert(longer.last() == parts@[i as int]@);
        }
        match split_once(parts[i].as_str(), '=') {
            Some((name, value)) => {
                let cookie = Cookie::new(trim(name.as_str()).as_str(), trim(value.as_str()));
                assert(cookie_views(cookies@.push(cookie)) == cookie_views(cookies@).push(
                    cookie@,
                ));
                cookies.push(cookie);
            },
            None => {},
        }
        i += 1;
    }
    assert(texts(parts@).take(parts@.len() as int) == texts(parts@));
    cookies
}

/// A cookie written in its wire form reads back as itself, provided that
/// the name holds no `=`, neither part holds a `;`, and neither has
/// whitespace at its ends.
pub proof fn lemma_cookie_round_trip(name: Seq<char>, value: Seq<char>)
    requires
        forall|i: int| 0 <= i < name.len() ==> name[i] != '=' && name[i] != ';',
        forall|i: int| 0 <= i < value.len() ==> value[i] != ';',
        trimmed(name) == name,
        trimmed(value) == value,
    ensures
        cookies_in(cookie_text(name, value)) == seq![(name, value)],
{
    let text = cookie_text(name, value);
    assert forall|i: int| 0 <= i < text.len() implies !Delimiter::Char(';').accepts(
        #[trigger] text[i],
    ) by {
        if i < name.len() {
            assert(text[i] == name[i]);
        } else if i > name.len() {
            assert(text[i] == value[i - name.len() - 1]);
        }
    }
    lemma_pieces_single(text, Delimiter::Char(';'));
    lemma_halves_of_joined(name, value, '=');
    let parts = seq![text];
    assert(parts.drop_last() == Seq::<Seq<char>>::empty());
    assert(cookie_pairs(parts.drop_last()) == Seq::<(Seq<char>, Seq<char>)>::empty());
    assert(parts.last() == text);
    assert(cookie_pairs(parts) == Seq::<(Seq<char>, Seq<char>)>::empty().push((name, value)));
}

/// Whether a cookie can be written and read back: its name holds no `=`,
/// neither part holds a `;`, and neither has whitespace at its ends.
pub open spec fn plain_cookie(cookie: (Seq<char>, Seq<char>)) -> bool {
    &&& forall|i: int| 0 <= i < cookie.0.len() ==> cookie.0[i] != '=' && cookie.0[i] != ';'
    &&& forall|i: int| 0 <= i < cookie.1.len() ==> cookie.1[i] != ';'
    &&& trimmed(cookie.0) == cookie.0
    &&& trimmed(cookie.1) == cookie.1
}

/// The wire forms of a sequence of cookies.
pub open spec fn cookie_texts(cookies: Seq<(Seq<char>, Seq<char>)>) -> Seq<Seq<char>> {
    cookies.map_values(|c: (Seq<char>, Seq<char>)| cookie_text(c.0, c.1))
}

/// The wire forms of plain cookies read back as the cookies.
pub proof fn lemma_cookie_pairs_of_texts(cookies: Seq<(Seq<char>, Seq<char>)>)
    requires
        forall|i: int| 0 <= i < cookies.len() ==> plain_cookie(#[trigger] cookies[i]),
    ensures
        cookie_pairs(cookie_texts(cookies)) == cookies,
    decreases cookies.len(),
{
    let texts = cookie_texts(cookies);
    if cookies.len() > 0 {
        let last = cookies.last();
        assert(plain_cookie(cookies[cookies.len() - 1]));
        lemma_cookie_pairs_of_texts(cookies.drop_last());
        assert(texts.drop_last() == cookie_texts(cookies.drop_last()));
        assert(texts.last() == cookie_text(last.0, last.1));
        lemma_halves_of_joined(last.0, last.1, '=');
        assert(cookies.drop_last().push(last) == cookies);
    }
}

/// Plain cookies written one after the other with `;` between them read
/// back as themselves, in order.
pub proof fn lemma_cookies_round_trip(cookies: Seq<(Seq<char>, Seq<char>)>)
    requires
        cookies.len() >= 1,
        forall|i: int| 0 <= i < cookies.len() ==> plain_cookie(#[trigger] cookies[i]),
    ensures
        cookies_in(joined_with(cookie_texts(cookies), ';')) == cookies,
{
    let texts = cookie_texts(cookies);
    assert forall|i: int, j: int| 0 <= i < texts.len() && 0 <= j < texts[i].len() implies (
    #[trigger] texts[i][j]) != ';' by {
        let c = cookies[i];
        assert(plain_cookie(c));
        assert(texts[i] == cookie_text(c.0, c.1));
        if j < c.0.len() {
            assert(texts[i][j] == c.0[j]);
        } else if j > c.0.len() {
            assert(texts[i][j] == c.1[j - c.0.len() - 1]);
        }
    }
    lemma_pieces_of_joined(texts, ';');
    lemma_cookie_pairs_of_texts(cookies);
}

} // verus!
