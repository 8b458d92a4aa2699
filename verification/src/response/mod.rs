mod reason;
mod response;
mod response_parser;

pub use reason::Reason;
pub use response::{Response, ResponseBuilder, ResponseParts, ResponseView};
pub use response_parser::{
    is_status_start, next_space, response_of, response_view, status_at, status_fields,
    ResponseParser,
};
