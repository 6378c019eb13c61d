pub mod text;
pub mod method;
pub mod query_string;
pub mod request;
pub mod status_code;
pub mod response;

pub use method::{Method, MethodError};
pub use query_string::{QueryString, Value};
pub use request::{ParseError, Request};
pub use response::Responce;
pub use status_code::StatusCode;
