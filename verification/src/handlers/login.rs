//! The login page and the login itself.

use crate::database::database_setup::Database;
use crate::error::AnyErr;
use crate::error::StorageError;
use crate::handlers::css::page_response;
use crate::handlers::css::serve_page;
use crate::handlers::pages::LOGIN_PAGE;
use crate::http_server::content_type::ContentType;
use crate::http_server::cookie::cookie_text;
use crate::http_server::cookie::Cookie;
use crate::http_server::request::Request;
use crate::http_server::request::RequestModel;
use crate::http_server::response::default_response;
use crate::http_server::response::Response;
use crate::http_server::response::ResponseBuilder;
use crate::http_server::response::ResponseModel;
use crate::http_server::router::RouteHandler;
use crate::models::session::Session;
use crate::models::user::digest_of;
use crate::models::user::User;
use crate::string_map::has_key;
use crate::string_map::lemma_text_values;
use crate::string_map::map_of;
use crate::string_map::Entry;
use crate::string_map::StringMap;
use std::sync::Arc;
use vstd::prelude::*;

verus! {

/// Answers with the login page.
pub struct GetLoginHandler;

impl RouteHandler for GetLoginHandler {
    /// The answer is the login page, whatever the request.
    open spec fn answers(&self, request: RequestModel, result: Result<Response, AnyErr>) -> bool {
        result matches Ok(response) && response@ == page_response(ContentType::Html, LOGIN_PAGE@)
    }

    /// Serves the login page, whatever the request.
    fn handle(&self, _request: Request) -> (r: Result<Response, AnyErr>) {
        Ok(serve_page(ContentType::Html, LOGIN_PAGE))
    }
}

/// What a request to log in holds.
pub enum LoginForm {
    /// The request carries no form.
    NotAForm,
    /// The form lacks the username or the password.
    Incomplete,
    /// The username and the password of the form.
    Credentials(String, String),
}

/// What a request to log in holds, as mathematics sees it.
pub enum LoginFormModel {
    NotAForm,
    Incomplete,
    Credentials(Seq<char>, Seq<char>),
}

impl View for LoginForm {
    type V = LoginFormModel;

    open spec fn view(&self) -> LoginFormModel {
        match self {
            LoginForm::NotAForm => LoginFormModel::NotAForm,
            LoginForm::Incomplete => LoginFormModel::Incomplete,
            LoginForm::Credentials(u, p) => LoginFormModel::Credentials(u@, p@),
        }
    }
}

/// The login form of a request: its fields `username` and `password`.
pub open spec fn login_form(form: Option<Seq<Entry<Seq<char>>>>) -> LoginFormModel {
    match form {
        None => LoginFormModel::NotAForm,
        Some(fields) => if has_key(fields, "username"@) && has_key(fields, "password"@) {
            LoginFormModel::Credentials(
                map_of(fields)["username"@],
                map_of(fields)["password"@],
            )
        } else {
            LoginFormModel::Incomplete
        },
    }
}

/// The answer to a login that succeeded: status 200 and the session cookie.
pub open spec fn login_accepted(session_id: Seq<char>) -> ResponseModel {
    default_response().with_header("Set-Cookie"@, cookie_text("session_id"@, session_id))
}

/// The answer to a login that failed: status 401, no header, no body.
pub open spec fn login_refused() -> ResponseModel {
    ResponseModel { status_code: 401, reason_phrase: "invalid login info"@, ..default_response() }
}

/// The answer to a request that carries no form: a redirect to the login
/// page.
pub open spec fn login_again() -> ResponseModel {
    ResponseModel {
        status_code: 302,
        ..default_response().with_header("Content-Type"@, ContentType::Html.media_type()).with_header(
            "Location"@,
            "/login"@,
        )
    }
}

/// The value of a form field.
pub fn get_form_value<'a>(form_data: &'a StringMap<String>, key: &str) -> (r: Option<&'a String>)
    ensures
        match r {
            Some(value) => has_key(form_data.text_entries(), key@) && map_of(
                form_data.text_entries(),
            )[key@] == value@,
            None => !has_key(form_data.text_entries(), key@),
        },
{
    let found = form_data.get(key);
    form_data.recall_distinct();
    proof {
        lemma_text_values(form_data.entries(), key@);
    }
    found
}

/// Reads the login form of a request.
pub fn read_login_form(request: &Request) -> (r: LoginForm)
    ensures
        r@ == login_form(request@.form()),
{
    match request.form_urlencoded() {
        None => LoginForm::NotAForm,
        Some(form_data) => {
            let username = get_form_value(&form_data, "username");
            let password = get_form_value(&form_data, "password");
            match (username, password) {
                (Some(u), Some(p)) => LoginForm::Credentials(u.clone(), p.clone()),
                _ => LoginForm::Incomplete,
            }
        },
    }
}

/// Whether there is such a user and `password` has the digest kept for
/// them.
pub fn password_matches(user: &Option<User>, password: &str) -> (r: bool)
    ensures
        r == (user matches Some(u) && u.credential.digest == digest_of(password@)),
{
    match user {
        Some(u) => u.credential.matches(password),
        None => false,
    }
}

/// The answer to a login that succeeded.
pub fn accept_login(session_id: String) -> (r: Response)
    ensures
        r@ == login_accepted(session_id@),
{
    ResponseBuilder::new().cookie(Cookie::new("session_id", session_id)).build()
}

/// The answer to a login that failed.
pub fn refuse_login() -> (r: Response)
    ensures
        r@ == login_refused(),
{
    ResponseBuilder::new().status_code(401).reason_phrase("invalid login info".to_owned()).build()
}

/// The answer to a request that carries no form.
pub fn ask_again() -> (r: Response)
    ensures
        r@ == login_again(),
{
    ResponseBuilder::new().content_type(ContentType::Html).temp_redirect("/login").build()
}

/// What the store's answer on a user means for a login.
pub enum Admission {
    /// There is no such user, or the password is not theirs.
    Refused,
    /// The password is that of the user with this name.
    Admitted(String),
}

/// Decides a login from what the store answered for the username: a
/// failure of the store is passed on, a user whose digest the password has
/// is admitted under their name, anyone else is refused.
pub fn decide_admission(found: Result<Option<User>, StorageError>, password: &str) -> (r: Result<
    Admission,
    AnyErr,
>)
    ensures
        match found {
            Err(_) => r matches Err(e) && e.message@ == "Failed reading from database"@,
            Ok(user) => r matches Ok(a) && match a {
                Admission::Admitted(name) => user matches Some(u) && u.credential.digest
                    == digest_of(password@) && name@ == u.username@,
                Admission::Refused => !(user matches Some(u) && u.credential.digest
                    == digest_of(password@)),
            },
        },
{
    match found {
        Err(e) => Err(e.in_context("Failed reading from database")),
        Ok(user) => {
            if password_matches(&user, password) {
                let name = user.unwrap().username;
                Ok(Admission::Admitted(name))
            } else {
                Ok(Admission::Refused)
            }
        },
    }
}

/// The identifier for the new session, or the error for a clock that gave
/// none.
pub fn fresh_session_id(generated: Option<String>) -> (r: Result<String, AnyErr>)
    ensures
        match generated {
            Some(id) => r matches Ok(taken) && taken@ == id@,
            None => r matches Err(e) && e.message@ == "Failed to generate session id"@
                && e.source is None,
        },
{
    match generated {
        Some(id) => Ok(id),
        None => Err(AnyErr::new("Failed to generate session id")),
    }
}

/// What a login hands to the session table: the identifier as the key, and
/// under it the session of the user with this name and identifier.
pub fn session_entry(name: String, session_id: &str) -> (r: (String, Session))
    ensures
        r.0@ == session_id@,
        r.1.username@ == name@,
        r.1.session_id@ == session_id@,
{
    (session_id.to_owned(), Session::new(name, session_id.to_owned()))
}

/// The answer to a login once the session table was asked to keep the
/// session: the cookie with the identifier where it did, the failure of
/// the store where it did not.
pub fn login_answer(session_id: String, stored: Result<(), StorageError>) -> (r: Result<
    Response,
    AnyErr,
>)
    ensures
        match stored {
            Ok(_) => r matches Ok(response) && response@ == login_accepted(session_id@),
            Err(_) => r matches Err(e) && e.message@ == "Failed inserting to database"@,
        },
{
    match stored {
        Ok(_) => Ok(accept_login(session_id)),
        Err(e) => Err(e.in_context("Failed inserting to database")),
    }
}

/// Answers a login: checks the credentials and opens a session.
pub struct PostLoginHandler {
    pub database: Arc<Database>,
}

impl RouteHandler for PostLoginHandler {
    /// A request without a form is sent to the login page; a form without
    /// username or password is refused with status 401. With both, the
    /// store and the clock decide: the answer is the refusal, or the cookie
    /// of a new session, or one of three failures, as [`decide_admission`],
    /// [`fresh_session_id`] and [`login_answer`] say for each of their
    /// answers.
    open spec fn answers(&self, request: RequestModel, result: Result<Response, AnyErr>) -> bool {
        &&& login_form(request.form()) is NotAForm ==> (result matches Ok(response) && response@
            == login_again())
        &&& login_form(request.form()) is Incomplete ==> (result matches Ok(response)
            && response@ == login_refused())
        &&& login_form(request.form()) is Credentials ==> match result {
            Ok(response) => response@ == login_refused() || exists|id: Seq<char>|
                response@ == login_accepted(id),
            Err(e) => e.message@ == "Failed reading from database"@ || e.message@
                == "Failed to generate session id"@ || e.message@
                == "Failed inserting to database"@,
        }
    }

    /// Logs a user in: asks the user table for the username, and for a user
    /// who is admitted takes a new identifier and asks the session table to
    /// keep the session under it.
    fn handle(&self, request: Request) -> (r: Result<Response, AnyErr>) {
        match read_login_form(&request) {
            LoginForm::NotAForm => Ok(ask_again()),
            LoginForm::Incomplete => Ok(refuse_login()),
            LoginForm::Credentials(username, password) => {
                let name = match decide_admission(self.database.users.get(username), password.as_str()) {
                    Ok(Admission::Admitted(name)) => name,
                    Ok(Admission::Refused) => {
                        return Ok(refuse_login());
                    },
                    Err(e) => {
                        return Err(e);
                    },
                };
                let session_id = match fresh_session_id(
                    Session::generate_session_id(&self.database.session_counter),
                ) {
                    Ok(id) => id,
                    Err(e) => {
                        return Err(e);
                    },
                };
                let (key, session) = session_entry(name, session_id.as_str());
                login_answer(session_id, self.database.sessions.insert(key, session))
            },
        }
    }
}

} // verus!
