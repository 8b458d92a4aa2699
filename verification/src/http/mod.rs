mod headers;
pub(crate) mod method;
pub(crate) mod parser;
pub mod text;
mod version;

pub use headers::{has_key, header_block, lemma_put_line, length_key, line_text, lines_text, line_map, place_of, put_line, unique_keys};
pub use headers::{HeaderEntry, HeaderIterator, HeaderLine, Headers};
pub use method::Method;
pub use parser::{
    block_of, block_view, fields_of, is_first_separator, is_name_start, is_separator,
    next_newline, scan_lines, Block, BuildError, ParseError, Parser,
};
pub use version::Version;
