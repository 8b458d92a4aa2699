mod enhanced_stream;
mod id_generator;
pub mod pipeline;
pub mod server;

pub use enhanced_stream::{
    drain_spec, request_views, Drained, EnhancedStream, ReadFailure, RequestError,
    DEFAULT_BUF_SIZE,
};
pub use id_generator::IdGenerator;
pub use server::{
    answer, closes, closes_connection, closing_at, respond, served_count, wants_close,
    AcceptAction, AcceptEvent, AcceptLoop, Connection, Intake, Replies, Reply, Step,
};
