//! The home page, for those who are logged in.

use crate::database::database_setup::Database;
use crate::error::AnyErr;
use crate::handlers::css::page_response;
use crate::handlers::css::serve_page;
use crate::handlers::pages::HOME_PAGE;
use crate::http_server::auth::authenticate_session;
use crate::http_server::auth::session_id_of;
use crate::http_server::auth::AuthResult;
use crate::http_server::auth::AuthRouteHandler;
use crate::http_server::content_type::ContentType;
use crate::http_server::request::Request;
use crate::http_server::request::RequestModel;
use crate::http_server::response::default_response;
use crate::http_server::response::Response;
use crate::http_server::response::ResponseBuilder;
use crate::http_server::response::ResponseModel;
use crate::http_server::router::RouteHandler;
use std::sync::Arc;
use vstd::prelude::*;

verus! {

/// A temporary redirect to the login page.
pub open spec fn login_redirect() -> ResponseModel {
    ResponseModel { status_code: 302, ..default_response().with_header("Location"@, "/login"@) }
}

/// What the home page answers to a request that was classified as `auth`.
pub open spec fn home_answer(auth: AuthResult) -> ResponseModel {
    match auth {
        AuthResult::Authenticated => page_response(ContentType::Html, HOME_PAGE@),
        AuthResult::SessionNotPresent => login_redirect(),
        AuthResult::SessionInvalid => login_redirect(),
    }
}

/// The home page for an authenticated request, a redirect to the login page
/// for any other.
pub fn home_response(auth: AuthResult) -> (r: Response)
    ensures
        r@ == home_answer(auth),
{
    match auth {
        AuthResult::Authenticated => serve_page(ContentType::Html, HOME_PAGE),
        AuthResult::SessionNotPresent => ResponseBuilder::new().temp_redirect("/login").build(),
        AuthResult::SessionInvalid => ResponseBuilder::new().temp_redirect("/login").build(),
    }
}

/// Answers with the home page to whoever is logged in.
pub struct HomeHandler {
    pub database: Arc<Database>,
}

impl AuthRouteHandler for HomeHandler {
    fn database(&self) -> (r: Arc<Database>)
        ensures
            r == self.database,
    {
        Arc::clone(&self.database)
    }
}

impl RouteHandler for HomeHandler {
    /// Without a `session_id` cookie the answer is the redirect to the login
    /// page. With one, the store decides between the redirect and the page.
    open spec fn answers(&self, request: RequestModel, result: Result<Response, AnyErr>) -> bool {
        &&& session_id_of(request.cookies()) is None ==> (result matches Ok(response)
            && response@ == login_redirect())
        &&& result matches Ok(response) ==> (response@ == login_redirect() || response@
            == page_response(ContentType::Html, HOME_PAGE@))
    }

    /// Classifies the request against the sessions of the store and answers
    /// with the page or the redirect.
    fn handle(&self, request: Request) -> (r: Result<Response, AnyErr>) {
        match authenticate_session(&self.database, request) {
            Ok(auth) => Ok(home_response(auth)),
            Err(e) => Err(e),
        }
    }
}

} // verus!
