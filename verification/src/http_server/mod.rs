//! The HTTP layer: messages, parsing, routing and the connection loop.

pub mod auth;
pub mod content_type;
pub mod cookie;
pub mod parser;
pub mod request;
pub mod response;
pub mod router;
pub mod server;
pub mod server_builder;

pub use auth::AuthResult;
pub use auth::AuthRouteHandler;
pub use content_type::ContentType;
pub use cookie::Cookie;
pub use request::HttpMethod;
pub use request::Request;
pub use response::Response;
pub use response::ResponseBuilder;
pub use router::default_not_found_response;
pub use router::Route;
pub use router::RouteHandler;
pub use router::Router;
pub use server_builder::ServerBuilder;
