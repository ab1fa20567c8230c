//! The records kept in the store.

pub mod session;
pub mod user;

pub use session::Session;
pub use user::Credential;
pub use user::User;
