//! The in-memory store and the two tables of the application.

pub mod database_setup;
pub mod simple_db;

pub use database_setup::Database;
pub use simple_db::SimpleDB;
