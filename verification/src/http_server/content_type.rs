//! The closed set of content types that the server knows.

use crate::text::lowercase;
use crate::text::push_text;
use vstd::prelude::*;

verus! {

/// A content type that the server can name in a header.
#[derive(Clone, Copy, PartialEq, Eq, Structural, Debug)]
pub enum ContentType {
    Html,
    PlainTest,
    Json,
    Ico,
    FormUrlEncoded,
    Css,
    Jpeg,
    Png,
}

/// The content type that a media type names, letter for letter.
pub open spec fn content_type_named(s: Seq<char>) -> Option<ContentType> {
    if s == "text/html"@ {
        Some(ContentType::Html)
    } else if s == "application/json"@ {
        Some(ContentType::Json)
    } else if s == "text/plain"@ {
        Some(ContentType::PlainTest)
    } else if s == "image/x-icon"@ {
        Some(ContentType::Ico)
    } else if s == "application/x-www-form-urlencoded"@ {
        Some(ContentType::FormUrlEncoded)
    } else if s == "text/css"@ {
        Some(ContentType::Css)
    } else if s == "image/jpeg"@ {
        Some(ContentType::Jpeg)
    } else if s == "image/png"@ {
        Some(ContentType::Png)
    } else {
        None
    }
}

impl ContentType {
    /// The media type of this content type.
    pub open spec fn media_type(self) -> Seq<char> {
        match self {
            ContentType::Html => "text/html"@,
            ContentType::Json => "application/json"@,
            ContentType::PlainTest => "text/plain"@,
            ContentType::Ico => "image/x-icon"@,
            ContentType::FormUrlEncoded => "application/x-www-form-urlencoded"@,
            ContentType::Css => "text/css"@,
            ContentType::Jpeg => "image/jpeg"@,
            ContentType::Png => "image/png"@,
        }
    }

    /// The media type of this content type.
    pub fn as_str(&self) -> (r: &'static str)
        ensures
            r@ == self.media_type(),
    {
        match *self {
            ContentType::Html => "text/html",
            ContentType::Json => "application/json",
            ContentType::PlainTest => "text/plain",
            ContentType::Ico => "image/x-icon",
            ContentType::FormUrlEncoded => "application/x-www-form-urlencoded",
            ContentType::Css => "text/css",
            ContentType::Jpeg => "image/jpeg",
            ContentType::Png => "image/png",
        }
    }

    /// The media type as an owned string.
    pub fn to_string(&self) -> (r: String)
        ensures
            r@ == self.media_type(),
    {
        self.as_str().to_owned()
    }

    /// The content type that a media type names, letter for letter.
    pub fn named(media_type: &str) -> (r: Option<ContentType>)
        ensures
            r == content_type_named(media_type@),
    {
        if *media_type == *"text/html" {
            Some(ContentType::Html)
        } else if *media_type == *"application/json" {
            Some(ContentType::Json)
        } else if *media_type == *"text/plain" {
            Some(ContentType::PlainTest)
        } else if *media_type == *"image/x-icon" {
            Some(ContentType::Ico)
        } else if *media_type == *"application/x-www-form-urlencoded" {
            Some(ContentType::FormUrlEncoded)
        } else if *media_type == *"text/css" {
            Some(ContentType::Css)
        } else if *media_type == *"image/jpeg" {
            Some(ContentType::Jpeg)
        } else if *media_type == *"image/png" {
            Some(ContentType::Png)
        } else {
            None
        }
    }

    /// Reads a media type without regard to letter case. An unknown one is
    /// an error whose text names it.
    pub fn from_str(s: &str) -> (r: Result<ContentType, String>)
        ensures
            match r {
                Ok(t) => content_type_named(lowercase(s@)) == Some(t),
                Err(message) => content_type_named(lowercase(s@)) is None && message@
                    == "Invalid content type "@ + s@,
            },
    {
        let lower = s.to_lowercase();
        match ContentType::named(lower.as_str()) {
            Some(t) => Ok(t),
            None => {
                let mut message = "Invalid content type ".to_owned();
                push_text(&mut message, s);
                Err(message)
            },
        }
    }
}

/// Every content type is the one that its own media type names.
pub proof fn lemma_media_type_names_itself(t: ContentType)
    ensures
        content_type_named(t.media_type()) == Some(t),
{
    reveal_strlit("text/html");
    reveal_strlit("application/json");
    reveal_strlit("text/plain");
    reveal_strlit("image/x-icon");
    reveal_strlit("application/x-www-form-urlencoded");
    reveal_strlit("text/css");
    reveal_strlit("image/jpeg");
    reveal_strlit("image/png");
    assert("text/html"@.len() == 9 && "text/html"@[0] == 't');
    assert("application/json"@.len() == 16);
    assert("text/plain"@.len() == 10 && "text/plain"@[0] == 't');
    assert("image/x-icon"@.len() == 12);
    assert("application/x-www-form-urlencoded"@.len() == 33);
    assert("text/css"@.len() == 8);
    assert("image/jpeg"@.len() == 10 && "image/jpeg"@[0] == 'i');
    assert("image/png"@.len() == 9 && "image/png"@[0] == 'i');
}

} // verus!
