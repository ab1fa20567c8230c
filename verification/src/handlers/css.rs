//! The style sheet.

use crate::error::AnyErr;
use crate::handlers::pages::STYLE_SHEET;
use crate::http_server::content_type::ContentType;
use crate::http_server::request::Request;
use crate::http_server::request::RequestModel;
use crate::http_server::response::default_response;
use crate::http_server::response::Response;
use crate::http_server::response::ResponseBuilder;
use crate::http_server::response::ResponseModel;
use crate::http_server::router::RouteHandler;
use vstd::prelude::*;
use vstd::utf8::encode_utf8;

verus! {

/// A response with status 200 that carries `text` as `content_type`.
pub open spec fn page_response(content_type: ContentType, text: Seq<char>) -> ResponseModel {
    default_response().with_header("Content-Type"@, content_type.media_type()).with_body(
        encode_utf8(text),
    )
}

/// A response with status 200 that carries `text` as `content_type`.
pub fn serve_page(content_type: ContentType, text: &str) -> (r: Response)
    ensures
        r@ == page_response(content_type, text@),
        r@.length_declared(),
{
    ResponseBuilder::new().content_type(content_type).body_string(text.to_owned()).build()
}

/// Answers with the style sheet.
pub struct CssHandler;

impl RouteHandler for CssHandler {
    /// The answer is the style sheet, whatever the request.
    open spec fn answers(&self, request: RequestModel, result: Result<Response, AnyErr>) -> bool {
        result matches Ok(response) && response@ == page_response(ContentType::Css, STYLE_SHEET@)
    }

    /// Serves the style sheet, whatever the request.
    fn handle(&self, _request: Request) -> (r: Result<Response, AnyErr>) {
        Ok(serve_page(ContentType::Css, STYLE_SHEET))
    }
}

} // verus!
