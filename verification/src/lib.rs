//! A small HTTP/1.1 server library: the request decoder, the per-connection
//! pipeline and the bookkeeping of the I/O runtime, with machine-checked contracts.

pub mod aioserver;
pub mod data;
pub mod executor;
pub mod http;
pub mod io;
pub mod request;
pub mod response;
pub mod router;

pub use http::BuildError;
pub use http::HeaderIterator;
pub use http::Headers;
pub use http::Method;
pub use http::ParseError;
pub use http::Version;
pub use request::Request;
pub use request::RequestBuilder;
pub use response::Reason;
pub use response::Response;
pub use response::ResponseBuilder;
pub use router::Route;
pub use router::Router;
