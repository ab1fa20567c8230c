//! Text handling shared by the protocol code: splitting, trimming, case
//! folding and decimal numbers, each with a mathematical description over
//! sequences of characters.

use vstd::prelude::*;
use vstd::utf8::decode_utf8;
use vstd::utf8::valid_utf8;

verus! {

/// Whether `char::is_whitespace` holds of a character (the Unicode
/// `White_Space` property).
pub uninterp spec fn is_whitespace(c: char) -> bool;

/// The lowercase form that `str::to_lowercase` gives to a text.
pub uninterp spec fn lowercase(s: Seq<char>) -> Seq<char>;

/// The uppercase form that `str::to_uppercase` gives to a text.
pub uninterp spec fn uppercase(s: Seq<char>) -> Seq<char>;

/// `char::is_whitespace`: the answer is the `White_Space` property of the
/// character, which this crate calls [`is_whitespace`].
pub assume_specification[ char::is_whitespace ](c: char) -> (r: bool)
    ensures
        r == is_whitespace(c),
;

/// `str::to_lowercase`: the result depends on the characters alone; it is
/// called [`lowercase`] here.
pub assume_specification[ str::to_lowercase ](s: &str) -> (r: String)
    ensures
        r@ == lowercase(s@),
;

/// `str::to_uppercase`: the result depends on the characters alone; it is
/// called [`uppercase`] here.
pub assume_specification[ str::to_uppercase ](s: &str) -> (r: String)
    ensures
        r@ == uppercase(s@),
;

/// `String::push` appends one character at the end.
pub assume_specification[ String::push ](s: &mut String, c: char)
    ensures
        final(s)@ == old(s)@.push(c),
;

/// `std::string::FromUtf8Error`, which `String::from_utf8` returns for
/// bytes that are not UTF-8.
#[verifier::external_type_specification]
#[verifier::external_body]
pub struct ExFromUtf8Error(std::string::FromUtf8Error);

/// `String::from_utf8` succeeds exactly on well-formed UTF-8, and then gives
/// the characters that the bytes encode.
pub assume_specification[ String::from_utf8 ](bytes: Vec<u8>) -> (r: Result<
    String,
    std::string::FromUtf8Error,
>)
    ensures
        r is Ok <==> valid_utf8(bytes@),
        r matches Ok(s) ==> s@ == decode_utf8(bytes@),
;

/// `str == str` compares the two character sequences.
pub assume_specification[ <str as PartialEq>::eq ](a: &str, b: &str) -> (r: bool)
    ensures
        r == (a@ == b@),
;

/// The character sequences of a sequence of strings.
pub open spec fn texts(v: Seq<String>) -> Seq<Seq<char>> {
    v.map_values(|s: String| s@)
}

/// The predicate "this text has at least one character".
pub open spec fn has_text() -> spec_fn(Seq<char>) -> bool {
    |p: Seq<char>| p.len() > 0
}

/// What separates the pieces of a text.
#[derive(Clone, Copy, PartialEq, Eq, Structural)]
pub enum Delimiter {
    /// Exactly this character.
    Char(char),
    /// Any whitespace character.
    Whitespace,
}

impl Delimiter {
    /// Whether `c` is a separator.
    pub open spec fn accepts(self, c: char) -> bool {
        match self {
            Delimiter::Char(x) => c == x,
            Delimiter::Whitespace => is_whitespace(c),
        }
    }

    /// Whether `c` is a separator.
    pub fn test(&self, c: char) -> (r: bool)
        ensures
            r == self.accepts(c),
    {
        match self {
            Delimiter::Char(x) => c == *x,
            Delimiter::Whitespace => c.is_whitespace(),
        }
    }
}

/// The pieces of `s` between separators, read from left to right. There is
/// always at least one piece; two separators in a row enclose an empty piece,
/// and a separator at either end leaves an empty piece there.
pub open spec fn pieces(s: Seq<char>, d: Delimiter) -> Seq<Seq<char>>
    decreases s.len(),
{
    if s.len() == 0 {
        seq![Seq::<char>::empty()]
    } else {
        let before = pieces(s.drop_last(), d);
        if d.accepts(s.last()) {
            before.push(Seq::<char>::empty())
        } else {
            before.drop_last().push(before.last().push(s.last()))
        }
    }
}

/// The maximal runs of non-whitespace characters of `s`, in order.
pub open spec fn words(s: Seq<char>) -> Seq<Seq<char>> {
    pieces(s, Delimiter::Whitespace).filter(has_text())
}

/// Whether `i` is the position of the first `x` in `s`.
pub open spec fn is_first_at<T>(s: Seq<T>, x: T, i: int) -> bool {
    &&& 0 <= i < s.len()
    &&& s[i] == x
    &&& forall|j: int| 0 <= j < i ==> s[j] != x
}

/// The position of the first `x` in `s`, if there is one.
pub open spec fn first_index<T>(s: Seq<T>, x: T) -> Option<int> {
    if exists|i: int| is_first_at(s, x, i) {
        Some(choose|i: int| is_first_at(s, x, i))
    } else {
        None
    }
}

/// The text before the first `sep` and the text after it.
pub open spec fn halves(s: Seq<char>, sep: char) -> Option<(Seq<char>, Seq<char>)> {
    match first_index(s, sep) {
        Some(i) => Some((s.take(i), s.skip(i + 1))),
        None => None,
    }
}

/// `s` without its leading whitespace.
pub open spec fn trimmed_start(s: Seq<char>) -> Seq<char>
    decreases s.len(),
{
    if s.len() > 0 && is_whitespace(s.first()) {
        trimmed_start(s.drop_first())
    } else {
        s
    }
}

/// `s` without its trailing whitespace.
pub open spec fn trimmed_end(s: Seq<char>) -> Seq<char>
    decreases s.len(),
{
    if s.len() > 0 && is_whitespace(s.last()) {
        trimmed_end(s.drop_last())
    } else {
        s
    }
}

/// `s` without leading and trailing whitespace.
pub open spec fn trimmed(s: Seq<char>) -> Seq<char> {
    trimmed_end(trimmed_start(s))
}

/// Whether `c` is one of the ten decimal digits.
pub open spec fn is_digit(c: char) -> bool {
    '0' <= c <= '9'
}

/// The value of a decimal digit; 0 for any other character.
pub open spec fn digit_value(c: char) -> nat {
    if is_digit(c) {
        (c as u32 - '0' as u32) as nat
    } else {
        0
    }
}

/// The decimal digit for a value below ten.
pub open spec fn digit_char(d: nat) -> char {
    if d == 0 {
        '0'
    } else if d == 1 {
        '1'
    } else if d == 2 {
        '2'
    } else if d == 3 {
        '3'
    } else if d == 4 {
        '4'
    } else if d == 5 {
        '5'
    } else if d == 6 {
        '6'
    } else if d == 7 {
        '7'
    } else if d == 8 {
        '8'
    } else {
        '9'
    }
}

/// Whether every character of `s` is a decimal digit.
pub open spec fn all_digits(s: Seq<char>) -> bool {
    forall|i: int| 0 <= i < s.len() ==> is_digit(#[trigger] s[i])
}

/// The number that a sequence of decimal digits denotes.
pub open spec fn digits_value(s: Seq<char>) -> nat
    decreases s.len(),
{
    if s.len() == 0 {
        0
    } else {
        digits_value(s.drop_last()) * 10 + digit_value(s.last())
    }
}

/// `s` without one leading `+`.
pub open spec fn unsigned_part(s: Seq<char>) -> Seq<char> {
    if s.len() > 0 && s[0] == '+' {
        s.drop_first()
    } else {
        s
    }
}

/// The non-negative integer that `s` denotes: an optional `+`, then one or
/// more decimal digits. `None` for any other text.
pub open spec fn decimal_value(s: Seq<char>) -> Option<nat> {
    let d = unsigned_part(s);
    if d.len() > 0 && all_digits(d) {
        Some(digits_value(d))
    } else {
        None
    }
}

/// The decimal digits of `n`, without sign or leading zeros.
pub open spec fn decimal_digits(n: nat) -> Seq<char>
    decreases n,
{
    if n < 10 {
        seq![digit_char(n)]
    } else {
        decimal_digits(n / 10).push(digit_char(n % 10))
    }
}

/// The characters of a string, in a vector.
pub fn chars_of(s: &str) -> (r: Vec<char>)
    ensures
        r@ == s@,
{
    let mut out: Vec<char> = Vec::new();
    for c in it: s.chars()
        invariant
            it.seq() == s@,
            out@ == it.seq().take(it.index() as int),
    {
        out.push(c);
    }
    out
}

/// The string made of `chars[from..to]`.
pub fn text_of(chars: &Vec<char>, from: usize, to: usize) -> (r: String)
    requires
        from <= to <= chars.len(),
    ensures
        r@ == chars@.subrange(from as int, to as int),
{
    let mut out = String::new();
    let mut i: usize = from;
    while i < to
        invariant
            from <= i <= to <= chars.len(),
            out@ == chars@.subrange(from as int, i as int),
        decreases to - i,
    {
        out.push(chars[i]);
        i += 1;
    }
    out
}

/// Splits `s` at every separator.
pub fn split(s: &str, d: Delimiter) -> (r: Vec<String>)
    ensures
        texts(r@) == pieces(s@, d),
{
    let mut done: Vec<String> = Vec::new();
    let mut current = String::new();
    for c in it: s.chars()
        invariant
            it.seq() == s@,
            texts(done@).push(current@) == pieces(s@.take(it.index() as int), d),
    {
        let ghost prefix = s@.take(it.index() as int);
        let ghost longer = s@.take(it.index() + 1);
        assert(longer.drop_last() == prefix);
        assert(longer.last() == c);
        if d.test(c) {
            assert(texts(done@.push(current)) == texts(done@).push(current@));
            done.push(current);
            current = String::new();
        } else {
            assert(texts(done@).push(current@).drop_last() == texts(done@));
            current.push(c);
        }
    }
    assert(s@.take(s@.len() as int) == s@);
    assert(texts(done@.push(current)) == texts(done@).push(current@));
    done.push(current);
    done
}

/// Keeps the strings that are not empty, in order.
pub fn non_empty(v: Vec<String>) -> (r: Vec<String>)
    ensures
        texts(r@) == texts(v@).filter(has_text()),
{
    let mut out: Vec<String> = Vec::new();
    let mut i: usize = 0;
    while i < v.len()
        invariant
            i <= v.len(),
            texts(out@) == texts(v@).take(i as int).filter(has_text()),
        decreases v.len() - i,
    {
        proof {
            let before = texts(v@).take(i as int);
            assert(texts(v@).take(i + 1) == before.push(v@[i as int]@));
            before.lemma_filter_push(v@[i as int]@, has_text());
        }
        if !v[i].as_str().is_empty() {
            let item = v[i].clone();
            assert(texts(out@.push(item)) == texts(out@).push(item@));
            out.push(item);
        }
        i += 1;
    }
    assert(texts(v@).take(v@.len() as int) == texts(v@));
    out
}

/// Splits `s` into its words: the runs of characters between whitespace.
pub fn split_words(s: &str) -> (r: Vec<String>)
    ensures
        texts(r@) == words(s@),
{
    non_empty(split(s, Delimiter::Whitespace))
}

/// Splits `s` at its first `sep`, which is dropped.
pub fn split_once(s: &str, sep: char) -> (r: Option<(String, String)>)
    ensures
        match r {
            Some((a, b)) => halves(s@, sep) == Some((a@, b@)),
            None => halves(s@, sep) is None,
        },
{
    let chars = chars_of(s);
    let mut i: usize = 0;
    while i < chars.len()
        invariant
            i <= chars.len(),
            chars@ == s@,
            forall|j: int| 0 <= j < i ==> s@[j] != sep,
        decreases chars.len() - i,
    {
        if chars[i] == sep {
            assert(is_first_at(s@, sep, i as int));
            let a = text_of(&chars, 0, i);
            let b = text_of(&chars, i + 1, chars.len());
            proof {
                let k = choose|k: int| is_first_at(s@, sep, k);
                assert(k == i);
            }
            return Some((a, b));
        }
        i += 1;
    }
    assert(forall|k: int| !is_first_at(s@, sep, k));
    None
}

/// Removes leading and trailing whitespace.
pub fn trim(s: &str) -> (r: String)
    ensures
        r@ == trimmed(s@),
{
    let chars = chars_of(s);
    let mut start: usize = 0;
    assert(s@.skip(0) == s@);
    while start < chars.len() && chars[start].is_whitespace()
        invariant
            start <= chars.len(),
            chars@ == s@,
            trimmed_start(s@) == trimmed_start(s@.skip(start as int)),
        decreases chars.len() - start,
    {
        assert(s@.skip(start as int).drop_first() == s@.skip(start + 1));
        start += 1;
    }
    let ghost rest = s@.skip(start as int);
    assert(trimmed_start(s@) == rest);
    let mut end: usize = chars.len();
    assert(rest == s@.subrange(start as int, end as int));
    while end > start && chars[end - 1].is_whitespace()
        invariant
            start <= end <= chars.len(),
            chars@ == s@,
            trimmed_end(rest) == trimmed_end(s@.subrange(start as int, end as int)),
        decreases end,
    {
        assert(s@.subrange(start as int, end as int).drop_last() == s@.subrange(
            start as int,
            end - 1,
        ));
        end -= 1;
    }
    text_of(&chars, start, end)
}

/// The digits up to some point denote no more than all of them.
pub proof fn lemma_digits_value_prefix(s: Seq<char>, k: int)
    requires
        0 <= k <= s.len(),
    ensures
        digits_value(s.take(k)) <= digits_value(s),
    decreases s.len() - k,
{
    if k == s.len() {
        assert(s.take(k) == s);
    } else {
        assert(s.take(k + 1).drop_last() == s.take(k));
        lemma_digits_value_prefix(s, k + 1);
    }
}

/// Reads a non-negative decimal integer that fits the machine word.
pub fn parse_decimal(s: &str) -> (r: Option<usize>)
    ensures
        r == match decimal_value(s@) {
            Some(n) => if n <= usize::MAX {
                Some(n as usize)
            } else {
                None
            },
            None => None,
        },
{
    let chars = chars_of(s);
    let start: usize = if chars.len() > 0 && chars[0] == '+' {
        1
    } else {
        0
    };
    let ghost d = unsigned_part(s@);
    assert(d == s@.skip(start as int));
    if start == chars.len() {
        return None;
    }
    let mut value: usize = 0;
    let mut i: usize = start;
    while i < chars.len()
        invariant
            start <= i <= chars.len(),
            chars@ == s@,
            d == unsigned_part(s@),
            d == s@.skip(start as int),
            d.len() > 0,
            all_digits(d.take(i - start)),
            value == digits_value(d.take(i - start)),
        decreases chars.len() - i,
    {
        let c = chars[i];
        assert(d[i - start] == c);
        if !('0' <= c && c <= '9') {
            assert(!is_digit(d[i - start]));
            return None;
        }
        let digit: usize = (c as u32 - '0' as u32) as usize;
        proof {
            assert(d.take(i - start + 1).drop_last() == d.take(i - start));
            assert(d.take(i - start + 1).last() == c);
            lemma_digits_value_prefix(d, i - start + 1);
        }
        if value > (usize::MAX - digit) / 10 {
            return None;
        }
        value = value * 10 + digit;
        i += 1;
    }
    assert(d.take(i - start) == d);
    Some(value)
}

fn digit_to_char(d: u64) -> (c: char)
    requires
        d < 10,
    ensures
        c == digit_char(d as nat),
{
    if d == 0 {
        '0'
    } else if d == 1 {
        '1'
    } else if d == 2 {
        '2'
    } else if d == 3 {
        '3'
    } else if d == 4 {
        '4'
    } else if d == 5 {
        '5'
    } else if d == 6 {
        '6'
    } else if d == 7 {
        '7'
    } else if d == 8 {
        '8'
    } else {
        '9'
    }
}

/// Appends the decimal digits of `n` to `out`.
pub fn push_decimal(out: &mut String, n: u64)
    ensures
        final(out)@ == old(out)@ + decimal_digits(n as nat),
    decreases n,
{
    if n >= 10 {
        push_decimal(out, n / 10);
    }
    out.push(digit_to_char(n % 10));
}

/// The decimal digits of `n` as a string.
pub fn format_decimal(n: u64) -> (r: String)
    ensures
        r@ == decimal_digits(n as nat),
{
    let mut out = String::new();
    push_decimal(&mut out, n);
    out
}

/// Appends the characters of `s` to `out`.
pub fn push_text(out: &mut String, s: &str)
    ensures
        final(out)@ == old(out)@ + s@,
{
    for c in it: s.chars()
        invariant
            it.seq() == s@,
            out@ == old(out)@ + s@.take(it.index() as int),
    {
        assert(s@.take(it.index() + 1) == s@.take(it.index() as int).push(c));
        out.push(c);
    }
    assert(s@.take(s@.len() as int) == s@);
}

/// Writing a number in decimal and reading it back gives the number.
pub proof fn lemma_decimal_round_trip(n: nat)
    ensures
        decimal_value(decimal_digits(n)) == Some(n),
        all_digits(decimal_digits(n)),
        decimal_digits(n).len() > 0,
    decreases n,
{
    let s = decimal_digits(n);
    if n < 10 {
        assert(s.len() == 1 && s[0] == digit_char(n));
        assert(s.drop_last().len() == 0);
        assert(digits_value(s.drop_last()) == 0);
        assert(digits_value(s) == n);
    } else {
        lemma_decimal_round_trip(n / 10);
        let head = decimal_digits(n / 10);
        assert(s.drop_last() == head);
        assert(s.last() == digit_char(n % 10));
        assert(s[0] == head[0]);
        assert(unsigned_part(head) == head);
        assert(digits_value(s) == (n / 10) * 10 + n % 10);
    }
    assert(unsigned_part(s) == s);
}

/// A text without separators is its own single piece.
pub proof fn lemma_pieces_single(s: Seq<char>, d: Delimiter)
    requires
        forall|i: int| 0 <= i < s.len() ==> !d.accepts(#[trigger] s[i]),
    ensures
        pieces(s, d) == seq![s],
    decreases s.len(),
{
    if s.len() == 0 {
        assert(s == Seq::<char>::empty());
    } else {
        lemma_pieces_single(s.drop_last(), d);
        assert(!d.accepts(s[s.len() - 1]));
        assert(s.drop_last().push(s.last()) == s);
        assert(seq![s.drop_last()].drop_last().push(s) == seq![s]);
    }
}

/// Joining two texts with a separator that the first does not hold, and
/// splitting at the first separator, gives the two texts back.
pub proof fn lemma_halves_of_joined(a: Seq<char>, b: Seq<char>, sep: char)
    requires
        forall|i: int| 0 <= i < a.len() ==> a[i] != sep,
    ensures
        halves(a + seq![sep] + b, sep) == Some((a, b)),
{
    let s = a + seq![sep] + b;
    let n = a.len() as int;
    assert(is_first_at(s, sep, n));
    let k = choose|k: int| is_first_at(s, sep, k);
    assert(k == n) by {
        if k < n {
            assert(s[k] == a[k]);
        }
    }
    assert(s.take(n) == a);
    assert(s.skip(n + 1) == b);
}

/// The parts with `sep` between each two of them.
pub open spec fn joined_with(parts: Seq<Seq<char>>, sep: char) -> Seq<char>
    decreases parts.len(),
{
    if parts.len() == 0 {
        Seq::empty()
    } else if parts.len() == 1 {
        parts[0]
    } else {
        joined_with(parts.drop_last(), sep) + seq![sep] + parts.last()
    }
}

/// Splitting gives at least one piece, and no piece holds a separator.
pub proof fn lemma_pieces_hold_no_separator(s: Seq<char>, d: Delimiter)
    ensures
        pieces(s, d).len() >= 1,
        forall|i: int, j: int|
            0 <= i < pieces(s, d).len() && 0 <= j < pieces(s, d)[i].len() ==> !d.accepts(
                #[trigger] pieces(s, d)[i][j],
            ),
    decreases s.len(),
{
    if s.len() > 0 {
        lemma_pieces_hold_no_separator(s.drop_last(), d);
        let before = pieces(s.drop_last(), d);
        let after = pieces(s, d);
        assert forall|i: int, j: int| 0 <= i < after.len() && 0 <= j < after[i].len() implies !d.accepts(
            #[trigger] after[i][j],
        ) by {
            if i < before.len() - 1 {
                assert(after[i][j] == before[i][j]);
            } else if !d.accepts(s.last()) {
                if j < before.last().len() {
                    assert(after[i][j] == before[before.len() - 1][j]);
                }
            }
        }
    }
}

/// Splitting at a character and joining the pieces with it gives the text
/// back.
pub proof fn lemma_pieces_rejoin(s: Seq<char>, sep: char)
    ensures
        joined_with(pieces(s, Delimiter::Char(sep)), sep) == s,
    decreases s.len(),
{
    let d = Delimiter::Char(sep);
    if s.len() == 0 {
        assert(pieces(s, d)[0] == s);
    } else {
        let t = s.drop_last();
        let x = s.last();
        lemma_pieces_rejoin(t, sep);
        lemma_pieces_hold_no_separator(t, d);
        let before = pieces(t, d);
        let after = pieces(s, d);
        assert(s == t.push(x));
        if d.accepts(x) {
            assert(after.drop_last() == before);
            assert(after.last() == Seq::<char>::empty());
            assert(joined_with(after, sep) == joined_with(before, sep) + seq![sep]
                + Seq::<char>::empty());
            assert(t + seq![sep] + Seq::<char>::empty() == t.push(x));
        } else if before.len() == 1 {
            assert(after.len() == 1);
            assert(after[0] == before[0].push(x));
        } else {
            assert(after.drop_last() == before.drop_last());
            assert(after.last() == before.last().push(x));
            assert(joined_with(before.drop_last(), sep) + seq![sep] + before.last().push(x) == (
            joined_with(before.drop_last(), sep) + seq![sep] + before.last()).push(x));
        }
    }
}

/// Every word has at least one character, and none of them is whitespace.
pub proof fn lemma_words_are_words(s: Seq<char>, i: int)
    requires
        0 <= i < words(s).len(),
    ensures
        words(s)[i].len() > 0,
        forall|j: int| 0 <= j < words(s)[i].len() ==> !is_whitespace(#[trigger] words(s)[i][j]),
{
    let all = pieces(s, Delimiter::Whitespace);
    lemma_pieces_hold_no_separator(s, Delimiter::Whitespace);
    all.lemma_filter_pred(has_text(), i);
    let word = words(s)[i];
    assert(all.filter(has_text()).contains(word));
    all.lemma_filter_contains_rev(has_text(), word);
    let k = choose|k: int| 0 <= k < all.len() && all[k] == word;
    assert forall|j: int| 0 <= j < words(s)[i].len() implies !is_whitespace(
        #[trigger] words(s)[i][j],
    ) by {
        assert(!Delimiter::Whitespace.accepts(all[k][j]));
    }
}

/// The two halves, with the separator between them, are the text, and the
/// first half holds no separator.
pub proof fn lemma_halves_rejoin(s: Seq<char>, sep: char)
    ensures
        halves(s, sep) matches Some((a, b)) ==> s == a + seq![sep] + b && forall|i: int|
            0 <= i < a.len() ==> a[i] != sep,
        halves(s, sep) is None ==> forall|i: int| 0 <= i < s.len() ==> s[i] != sep,
{
    if exists|i: int| is_first_at(s, sep, i) {
        let i = choose|i: int| is_first_at(s, sep, i);
        assert(s == s.take(i) + seq![sep] + s.skip(i + 1));
    } else {
        assert forall|i: int| 0 <= i < s.len() implies s[i] != sep by {
            if s[i] == sep {
                lemma_first_exists(s, sep, i);
            }
        }
    }
}

/// Where `x` occurs at all, it occurs somewhere first.
pub proof fn lemma_first_exists<T>(s: Seq<T>, x: T, i: int)
    requires
        0 <= i < s.len(),
        s[i] == x,
    ensures
        exists|k: int| is_first_at(s, x, k),
    decreases i,
{
    if forall|j: int| 0 <= j < i ==> s[j] != x {
        assert(is_first_at(s, x, i));
    } else {
        let j = choose|j: int| 0 <= j < i && s[j] == x;
        lemma_first_exists(s, x, j);
    }
}

/// Trimming leaves a text alone exactly when it neither starts nor ends
/// with whitespace.
pub proof fn lemma_trimmed_is_identity(s: Seq<char>)
    ensures
        trimmed(s) == s <==> (s.len() > 0 ==> !is_whitespace(s.first()) && !is_whitespace(
            s.last(),
        )),
{
    if s.len() > 0 {
        if is_whitespace(s.first()) {
            lemma_trimmed_start_is_suffix(s.drop_first());
            lemma_trimmed_end_is_prefix(trimmed_start(s));
        } else if is_whitespace(s.last()) {
            lemma_trimmed_end_is_prefix(s.drop_last());
        }
    }
}

/// Trimming at the start gives a text that is no longer.
pub proof fn lemma_trimmed_start_is_suffix(s: Seq<char>)
    ensures
        trimmed_start(s).len() <= s.len(),
    decreases s.len(),
{
    if s.len() > 0 && is_whitespace(s.first()) {
        lemma_trimmed_start_is_suffix(s.drop_first());
    }
}

/// Trimming at the end gives a text that is no longer.
pub proof fn lemma_trimmed_end_is_prefix(s: Seq<char>)
    ensures
        trimmed_end(s).len() <= s.len(),
    decreases s.len(),
{
    if s.len() > 0 && is_whitespace(s.last()) {
        lemma_trimmed_end_is_prefix(s.drop_last());
    }
}

/// Whether `s` begins with `prefix`.
pub open spec fn starts_with(s: Seq<char>, prefix: Seq<char>) -> bool {
    prefix.len() <= s.len() && s.take(prefix.len() as int) == prefix
}

/// The rest of `s` after `prefix`, where `s` begins with it.
pub fn strip_prefix(s: &str, prefix: &str) -> (r: Option<String>)
    ensures
        match r {
            Some(rest) => starts_with(s@, prefix@) && rest@ == s@.skip(prefix@.len() as int),
            None => !starts_with(s@, prefix@),
        },
{
    let chars = chars_of(s);
    let start = chars_of(prefix);
    if start.len() > chars.len() {
        return None;
    }
    let mut i: usize = 0;
    while i < start.len()
        invariant
            i <= start.len() <= chars.len(),
            chars@ == s@,
            start@ == prefix@,
            forall|j: int| 0 <= j < i ==> s@[j] == prefix@[j],
        decreases start.len() - i,
    {
        if chars[i] != start[i] {
            assert(s@.take(prefix@.len() as int)[i as int] != prefix@[i as int]);
            return None;
        }
        i += 1;
    }
    assert(s@.take(prefix@.len() as int) == prefix@);
    Some(text_of(&chars, start.len(), chars.len()))
}

/// Whether `s` begins with `prefix`.
pub fn has_prefix(s: &str, prefix: &str) -> (r: bool)
    ensures
        r == starts_with(s@, prefix@),
{
    strip_prefix(s, prefix).is_some()
}

/// Text without separators, added at the end, lengthens the last piece.
pub proof fn lemma_pieces_of_extended(s: Seq<char>, t: Seq<char>, d: Delimiter)
    requires
        forall|i: int| 0 <= i < t.len() ==> !d.accepts(#[trigger] t[i]),
    ensures
        pieces(s + t, d) == pieces(s, d).drop_last().push(pieces(s, d).last() + t),
    decreases t.len(),
{
    lemma_pieces_hold_no_separator(s, d);
    let before = pieces(s, d);
    if t.len() == 0 {
        assert(s + t == s);
        assert(before.last() + t == before.last());
        assert(before.drop_last().push(before.last()) == before);
    } else {
        let shorter = t.drop_last();
        lemma_pieces_of_extended(s, shorter, d);
        assert((s + t).drop_last() == s + shorter);
        assert((s + t).last() == t.last());
        assert(!d.accepts(t[t.len() - 1]));
        let mid = before.drop_last().push(before.last() + shorter);
        assert(mid.drop_last() == before.drop_last());
        assert((before.last() + shorter).push(t.last()) == before.last() + t);
    }
}

/// Joining parts that hold no separator, and splitting at it, gives the
/// parts back.
pub proof fn lemma_pieces_of_joined(parts: Seq<Seq<char>>, sep: char)
    requires
        parts.len() >= 1,
        forall|i: int, j: int|
            0 <= i < parts.len() && 0 <= j < parts[i].len() ==> (#[trigger] parts[i][j]) != sep,
    ensures
        pieces(joined_with(parts, sep), Delimiter::Char(sep)) == parts,
    decreases parts.len(),
{
    let d = Delimiter::Char(sep);
    let last = parts.last();
    assert forall|j: int| 0 <= j < last.len() implies !d.accepts(#[trigger] last[j]) by {
        assert(parts[parts.len() - 1][j] != sep);
    }
    if parts.len() == 1 {
        lemma_pieces_single(last, d);
        assert(seq![last] == parts);
    } else {
        let init = parts.drop_last();
        assert forall|i: int, j: int| 0 <= i < init.len() && 0 <= j < init[i].len() implies (
        #[trigger] init[i][j]) != sep by {
            assert(parts[i][j] != sep);
        }
        lemma_pieces_of_joined(init, sep);
        let head = joined_with(init, sep) + seq![sep];
        assert(head.drop_last() == joined_with(init, sep));
        assert(head.last() == sep);
        assert(pieces(head, d) == init.push(Seq::<char>::empty()));
        lemma_pieces_of_extended(head, last, d);
        assert(init.push(Seq::<char>::empty()).drop_last() == init);
        assert(Seq::<char>::empty() + last == last);
        assert(init.push(last) == parts);
    }
}

/// Joining may as well start with the first part.
pub proof fn lemma_joined_with_first(parts: Seq<Seq<char>>, sep: char)
    requires
        parts.len() >= 2,
    ensures
        joined_with(parts, sep) == parts.first() + seq![sep] + joined_with(
            parts.drop_first(),
            sep,
        ),
    decreases parts.len(),
{
    let rest = parts.drop_first();
    if parts.len() == 2 {
        assert(parts.drop_last() == seq![parts.first()]);
        assert(rest == seq![parts.last()]);
        assert(joined_with(seq![parts.first()], sep) == parts.first());
        assert(joined_with(seq![parts.last()], sep) == parts.last());
    } else {
        lemma_joined_with_first(parts.drop_last(), sep);
        assert(parts.drop_last().first() == parts.first());
        assert(parts.drop_last().drop_first() == rest.drop_last());
        assert(rest.last() == parts.last());
        assert(parts.first() + seq![sep] + joined_with(rest.drop_last(), sep) + seq![sep]
            + parts.last() == parts.first() + seq![sep] + (joined_with(rest.drop_last(), sep)
            + seq![sep] + parts.last()));
    }
}

/// A filter keeps a sequence whose every item passes it.
pub proof fn lemma_filter_keeps_all<T>(s: Seq<T>, pred: spec_fn(T) -> bool)
    requires
        forall|i: int| 0 <= i < s.len() ==> pred(#[trigger] s[i]),
    ensures
        s.filter(pred) == s,
    decreases s.len(),
{
    reveal(Seq::filter);
    if s.len() > 0 {
        lemma_filter_keeps_all(s.drop_last(), pred);
        assert(pred(s[s.len() - 1]));
        assert(s.drop_last().push(s.last()) == s);
    }
}

/// Whether `c` occurs in `s`.
pub fn has_char(s: &str, c: char) -> (r: bool)
    ensures
        r == (exists|i: int| 0 <= i < s@.len() && s@[i] == c),
{
    let chars = chars_of(s);
    let mut i: usize = 0;
    while i < chars.len()
        invariant
            i <= chars.len(),
            chars@ == s@,
            forall|j: int| 0 <= j < i ==> s@[j] != c,
        decreases chars.len() - i,
    {
        if chars[i] == c {
            return true;
        }
        i += 1;
    }
    false
}

/// Whether trimming would leave `s` alone: it neither starts nor ends with
/// whitespace.
pub fn is_trimmed(s: &str) -> (r: bool)
    ensures
        r == (trimmed(s@) == s@),
{
    proof {
        lemma_trimmed_is_identity(s@);
    }
    let chars = chars_of(s);
    if chars.len() == 0 {
        true
    } else {
        !chars[0].is_whitespace() && !chars[chars.len() - 1].is_whitespace()
    }
}

} // verus!
