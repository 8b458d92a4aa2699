mod request;
pub(crate) mod request_parser;

pub use request::{body_text, Request, RequestBuilder, RequestParts, RequestView};
pub use request_parser::{
    declared_length, folded_lines, head_scan, head_stable, is_message,
    lemma_body_prefix_needs_more, lemma_extension_keeps_request, lemma_parsed_length,
    lemma_parser_incremental, parse_spec, parsed_view, request_of, scan_view,
    syntax_error, HeadOutcome, Parsed, RawHead, RawHeadView, RawHeader, RawHeaderView,
    RequestParser,
};
