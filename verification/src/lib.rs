//! A small HTTP application server core: request parsing, routing, response
//! building, cookie sessions and an in-memory store, with verified contracts.

pub mod database;
pub mod error;
pub mod handlers;
pub mod http_server;
pub mod models;
pub mod string_map;
pub mod text;
pub mod threadpool;
pub mod utils;
