//! Session authentication: what the `session_id` cookie of a request says
//! about who sent it.

use crate::database::database_setup::Database;
use crate::error::AnyErr;
use crate::http_server::cookie::cookie_views;
use crate::http_server::cookie::Cookie;
use crate::http_server::request::Request;
use crate::http_server::router::RouteHandler;
use crate::models::session::Session;
use crate::string_map::StringMap;
use std::sync::Arc;
use vstd::prelude::*;

verus! {

/// How a request stands with the sessions of the store.
#[derive(Debug, Clone, Copy, PartialEq, Eq, Structural)]
pub enum AuthResult {
    Authenticated,
    SessionNotPresent,
    SessionInvalid,
}

/// Whether `i` is the position of the first cookie named `session_id`.
pub open spec fn is_session_cookie_at(cookies: Seq<(Seq<char>, Seq<char>)>, i: int) -> bool {
    &&& 0 <= i < cookies.len()
    &&& cookies[i].0 == "session_id"@
    &&& forall|j: int| 0 <= j < i ==> (#[trigger] cookies[j]).0 != "session_id"@
}

/// The value of the first cookie named `session_id`, if there is one.
pub open spec fn session_id_of(cookies: Seq<(Seq<char>, Seq<char>)>) -> Option<Seq<char>> {
    if exists|i: int| is_session_cookie_at(cookies, i) {
        Some(cookies[choose|i: int| is_session_cookie_at(cookies, i)].1)
    } else {
        None
    }
}

/// What a session identifier and its being known or not amount to.
pub open spec fn auth_outcome(session_id: Option<Seq<char>>, known: bool) -> AuthResult {
    match session_id {
        None => AuthResult::SessionNotPresent,
        Some(_) => if known {
            AuthResult::Authenticated
        } else {
            AuthResult::SessionInvalid
        },
    }
}

/// How a request with these cookies stands with these sessions. A session
/// that is found is enough: neither its age nor its user is looked at.
pub open spec fn auth_result<S>(
    cookies: Seq<(Seq<char>, Seq<char>)>,
    sessions: Map<Seq<char>, S>,
) -> AuthResult {
    auth_outcome(
        session_id_of(cookies),
        session_id_of(cookies) matches Some(id) && sessions.contains_key(id),
    )
}

/// The value of the first cookie named `session_id`.
pub fn find_session_id(cookies: &Vec<Cookie>) -> (r: Option<String>)
    ensures
        match r {
            Some(id) => session_id_of(cookie_views(cookies@)) == Some(id@),
            None => session_id_of(cookie_views(cookies@)) is None,
        },
{
    let ghost views = cookie_views(cookies@);
    let mut i: usize = 0;
    while i < cookies.len()
        invariant
            i <= cookies.len(),
            views == cookie_views(cookies@),
            forall|j: int| 0 <= j < i ==> (#[trigger] views[j]).0 != "session_id"@,
        decreases cookies.len() - i,
    {
        if *cookies[i].name.as_str() == *"session_id" {
            assert(views[i as int] == cookies@[i as int]@);
            assert(is_session_cookie_at(views, i as int));
            proof {
                let k = choose|k: int| is_session_cookie_at(views, k);
                assert(k == i);
            }
            return Some(cookies[i].value.clone());
        }
        i += 1;
    }
    assert forall|k: int| !is_session_cookie_at(views, k) by {}
    None
}

/// Classifies a session identifier, given what the store holds for it.
pub fn classify<S>(session_id: &Option<String>, found: &Option<S>) -> (r: AuthResult)
    ensures
        r == auth_outcome(
            match session_id {
                Some(id) => Some(id@),
                None => None,
            },
            found is Some,
        ),
{
    match session_id {
        None => AuthResult::SessionNotPresent,
        Some(_) => match found {
            Some(_) => AuthResult::Authenticated,
            None => AuthResult::SessionInvalid,
        },
    }
}

/// Classifies a request against a table of sessions.
pub fn authenticate(request: &Request, sessions: &StringMap<Session>) -> (r: AuthResult)
    ensures
        r == auth_result(request@.cookies(), sessions@),
{
    let cookies = request.cookies();
    let session_id = find_session_id(&cookies);
    match &session_id {
        None => AuthResult::SessionNotPresent,
        Some(id) => if sessions.contains_key(id.as_str()) {
            AuthResult::Authenticated
        } else {
            AuthResult::SessionInvalid
        },
    }
}

/// Classifies a request against the session table of the store. Without a
/// `session_id` cookie the store is not asked, and the answer is
/// `SessionNotPresent`; with one, the store decides between `Authenticated`
/// and `SessionInvalid`, or fails.
pub fn authenticate_session(database: &Database, request: Request) -> (r: Result<
    AuthResult,
    AnyErr,
>)
    ensures
        session_id_of(request@.cookies()) is None ==> r matches Ok(AuthResult::SessionNotPresent),
        session_id_of(request@.cookies()) is Some ==> !(r matches Ok(
            AuthResult::SessionNotPresent,
        )),
{
    let cookies = request.cookies();
    let session_id = find_session_id(&cookies);
    let found: Option<Session> = match &session_id {
        Some(id) => match database.sessions.get(id.clone()) {
            Ok(found) => found,
            Err(e) => {
                return Err(e.in_context("Failed reading from database"));
            },
        },
        None => None,
    };
    Ok(classify(&session_id, &found))
}

/// A handler that needs to know who is asking. It says where the store is;
/// the classification is given.
pub trait AuthRouteHandler: RouteHandler {
    fn database(&self) -> Arc<Database>;

    /// Classifies the request against the session table of the store, as
    /// [`authenticate_session`] does.
    fn authenticate_session(&self, request: Request) -> (r: Result<AuthResult, AnyErr>)
        ensures
            session_id_of(request@.cookies()) is None ==> r matches Ok(
                AuthResult::SessionNotPresent,
            ),
            session_id_of(request@.cookies()) is Some ==> !(r matches Ok(
                AuthResult::SessionNotPresent,
            )),
    {
        let database = self.database();
        authenticate_session(&database, request)
    }
}

/// The three outcomes: no `session_id` cookie, one that the sessions do not
/// know, and one that was inserted into them.
pub proof fn lemma_auth_outcomes<S>(
    cookies: Seq<(Seq<char>, Seq<char>)>,
    sessions: Map<Seq<char>, S>,
    session: S,
)
    ensures
        session_id_of(cookies) is None ==> auth_result(cookies, sessions)
            == AuthResult::SessionNotPresent,
        session_id_of(cookies) matches Some(id) && !sessions.contains_key(id) ==> auth_result(
            cookies,
            sessions,
        ) == AuthResult::SessionInvalid,
        session_id_of(cookies) matches Some(id) ==> auth_result(
            cookies,
            sessions.insert(id, session),
        ) == AuthResult::Authenticated,
        session_id_of(cookies) matches Some(id) ==> auth_result(cookies, sessions.remove(id))
            == AuthResult::SessionInvalid,
{
}

} // verus!
