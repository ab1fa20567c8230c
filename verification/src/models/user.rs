//! Users: a name and a credential. The store keeps the digest of a
//! password, never the password.

use std::collections::hash_map::DefaultHasher;
use std::hash::Hasher;
use vstd::prelude::*;
use vstd::std_specs::hash::DefaultHasherAdditionalSpecFns;
use vstd::utf8::encode_utf8;

verus! {

/// The digest of a password: what the standard library's default hasher
/// makes of its bytes.
pub open spec fn digest_of(password: Seq<char>) -> u64 {
    DefaultHasher::spec_finish(seq![encode_utf8(password)])
}

/// What is kept of a password. The digest hides the password from whoever
/// reads the table; it is short and quick to compute, so it is no defence
/// against guessing.
#[derive(Debug, Clone, Copy, PartialEq, Eq, Structural)]
pub struct Credential {
    pub digest: u64,
}

impl Credential {
    /// The credential for `password`.
    pub fn of(password: &str) -> (r: Credential)
        ensures
            r.digest == digest_of(password@),
    {
        let mut hasher = DefaultHasher::new();
        hasher.write(password.as_bytes());
        Credential { digest: hasher.finish() }
    }

    /// Whether `password` has this digest.
    pub fn matches(&self, password: &str) -> (r: bool)
        ensures
            r == (self.digest == digest_of(password@)),
    {
        let offered = Credential::of(password);
        self.digest == offered.digest
    }
}

/// A user: a name and a credential.
#[derive(Debug)]
pub struct User {
    pub username: String,
    pub credential: Credential,
}

impl View for User {
    type V = (Seq<char>, u64);

    open spec fn view(&self) -> (Seq<char>, u64) {
        (self.username@, self.credential.digest)
    }
}

impl Clone for User {
    fn clone(&self) -> (r: Self)
        ensures
            r@ == self@,
    {
        User { username: self.username.clone(), credential: self.credential }
    }
}

impl User {
    /// The user `username` whose password is `password`.
    pub fn new(username: &str, password: &str) -> (r: User)
        ensures
            r@ == (username@, digest_of(password@)),
    {
        User { username: username.to_owned(), credential: Credential::of(password) }
    }
}

} // verus!
