//! A minimal HTTP/1.1 request/response layer and a static file handler.
pub mod file_server;
pub mod method;
pub mod query;
pub mod request;
pub mod response;
pub mod server;
pub mod status_code;
pub mod text;

pub use file_server::FileServer;
pub use method::{Method, MethodError};
pub use query::{QueryString, Value};
pub use request::{ParseError, Request};
pub use response::Response;
pub use server::{dispatch, HttpRequestHandler, Server};
pub use status_code::StatusCode;
pub use text::get_next_word;
