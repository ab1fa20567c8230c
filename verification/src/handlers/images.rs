//! Images: which file a request for an image means, and as what it is
//! served. Reading the file is left to the caller.

use crate::error::AnyErr;
use crate::http_server::content_type::ContentType;
use crate::http_server::response::default_response;
use crate::http_server::response::Response;
use crate::http_server::response::ResponseBuilder;
use crate::http_server::response::ResponseModel;
use crate::text::has_prefix;
use crate::text::starts_with;
use crate::text::strip_prefix;
use std::path::Path;
use vstd::prelude::*;

verus! {

/// `Path::join`: the path `relative` seen from `base`. What comes out
/// depends on the platform's rules for paths, so nothing is said of it.
#[verifier::external_body]
fn join_path(base: &str, relative: &str) -> String {
    Path::new(base).join(relative).display().to_string()
}

/// `Path::extension`: the part of the file name after its last dot, if the
/// platform's rules find one and it is text.
#[verifier::external_body]
fn path_extension(path: &str) -> Option<String> {
    match Path::new(path).extension() {
        Some(extension) => extension.to_str().map(String::from),
        None => None,
    }
}

/// The content type of an image file with this extension.
pub open spec fn image_type(extension: Option<Seq<char>>) -> Option<ContentType> {
    match extension {
        Some(e) => if e == "jpg"@ || e == "jpeg"@ {
            Some(ContentType::Jpeg)
        } else if e == "png"@ {
            Some(ContentType::Png)
        } else {
            None
        },
        None => None,
    }
}

/// The content type of an image file with this extension: JPEG for `jpg`
/// and `jpeg`, PNG for `png`, none for any other.
pub fn image_content_type(extension: &Option<String>) -> (r: Option<ContentType>)
    ensures
        r == image_type(
            match extension {
                Some(e) => Some(e@),
                None => None,
            },
        ),
{
    match extension {
        Some(e) => {
            let name = e.as_str();
            if *name == *"jpg" || *name == *"jpeg" {
                Some(ContentType::Jpeg)
            } else if *name == *"png" {
                Some(ContentType::Png)
            } else {
                None
            }
        },
        None => None,
    }
}

/// An image file is served where it lies under `assets/images/` and its
/// extension is that of a JPEG or PNG image.
pub fn accept_image(full_path: String, extension: &Option<String>) -> (r: Result<
    (String, ContentType),
    AnyErr,
>)
    ensures
        match r {
            Ok((file, content_type)) => {
                &&& file@ == full_path@
                &&& starts_with(full_path@, "assets/images/"@)
                &&& image_type(
                    match extension {
                        Some(e) => Some(e@),
                        None => None,
                    },
                ) == Some(content_type)
            },
            Err(e) => e.source is None && if !starts_with(full_path@, "assets/images/"@) {
                e.message@ == "Invalid path"@
            } else {
                e.message@ == "Unsupported image format"@ && image_type(
                    match extension {
                        Some(e) => Some(e@),
                        None => None,
                    },
                ) is None
            },
        },
{
    if !has_prefix(full_path.as_str(), "assets/images/") {
        return Err(AnyErr::new("Invalid path"));
    }
    match image_content_type(extension) {
        Some(content_type) => Ok((full_path, content_type)),
        None => Err(AnyErr::new("Unsupported image format")),
    }
}

/// The file that a request for `path` means, and its content type.
///
/// The path must begin with `/images/`; what follows is looked up under
/// `assets/images/` by the platform's rules for paths, and the file found
/// must pass [`accept_image`].
pub fn locate_image(path: &str) -> (r: Result<(String, ContentType), AnyErr>)
    ensures
        !starts_with(path@, "/images/"@) ==> (r matches Err(e) && e.message@ == "Invalid path"@),
        match r {
            Ok((file, content_type)) => {
                &&& starts_with(path@, "/images/"@)
                &&& starts_with(file@, "assets/images/"@)
                &&& content_type == ContentType::Jpeg || content_type == ContentType::Png
            },
            Err(e) => e.source is None && (e.message@ == "Invalid path"@ || e.message@
                == "Unsupported image format"@),
        },
{
    let relative_path = match strip_prefix(path, "/images/") {
        Some(rest) => rest,
        None => {
            return Err(AnyErr::new("Invalid path"));
        },
    };
    let full_path = join_path("assets/images/", relative_path.as_str());
    let extension = path_extension(full_path.as_str());
    accept_image(full_path, &extension)
}

/// The response that serves `data` as `content_type`.
pub open spec fn file_response(content_type: ContentType, data: Seq<u8>) -> ResponseModel {
    default_response().with_header("Content-Type"@, content_type.media_type()).with_body(data)
}

/// The response that serves the bytes of a file as `content_type`.
pub fn serve_file(content_type: ContentType, data: Vec<u8>) -> (r: Response)
    ensures
        r@ == file_response(content_type, data@),
        r@.length_declared(),
{
    ResponseBuilder::new().content_type(content_type).body_bytes(data).build()
}

} // verus!
