//! The two tables of the application and the account they start with.

use crate::database::simple_db::SimpleDB;
use crate::error::AnyErr;
use crate::models::session::Session;
use crate::models::user::digest_of;
use crate::models::user::User;
use crate::string_map::StringMap;
use std::sync::atomic::AtomicUsize;
use std::sync::Arc;
use vstd::prelude::*;

verus! {

/// The store of the application: the users, the sessions, and the counter
/// of session identifiers.
pub struct Database {
    pub users: Arc<SimpleDB<User>>,
    pub sessions: Arc<SimpleDB<Session>>,
    /// Counts the session identifiers handed out.
    pub session_counter: AtomicUsize,
}

/// The user table at start-up: the one operator account, under its name.
pub fn seed_users() -> (r: StringMap<User>)
    ensures
        r@.dom() == set!["admin"@],
        r@["admin"@]@ == ("admin"@, digest_of("hunter12"@)),
{
    let admin_user = User::new("admin", "hunter12");
    let mut users: StringMap<User> = StringMap::new();
    users.insert(admin_user.username.clone(), admin_user);
    assert(users@.dom() =~= set!["admin"@]);
    users
}

impl Database {
    /// The store at start-up: the operator account in the user table and
    /// no other user, no session. It always succeeds.
    pub fn database_init() -> (r: Result<Database, AnyErr>)
        ensures
            r matches Ok(db) && {
                &&& db.users.made_with().dom() == set!["admin"@]
                &&& db.users.made_with()["admin"@]@ == ("admin"@, digest_of("hunter12"@))
                &&& db.sessions.made_with() == Map::<Seq<char>, Session>::empty()
            },
    {
        let users: Arc<SimpleDB<User>> = Arc::new(SimpleDB::holding(seed_users()));
        let sessions: Arc<SimpleDB<Session>> = Arc::new(SimpleDB::new());
        Ok(Database { users, sessions, session_counter: AtomicUsize::new(0) })
    }
}

} // verus!
