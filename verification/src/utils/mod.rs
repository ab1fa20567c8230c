//! Helpers that stand beside the server.

pub mod logger;

pub use logger::LogLevel;
