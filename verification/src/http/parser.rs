use vstd::prelude::*;
use super::headers::{put_line, HeaderLine, Headers};
use super::text::{parse_length, text_of_bytes};
use crate::request::declared_length;

verus! {

/// Why a builder could not produce its value.
#[derive(Debug, Clone, Copy, PartialEq, Eq, Structural)]
pub enum BuildError {
    /// A mandatory part was never provided.
    Incomplete,
}

/// Why a byte sequence could not be read as an HTTP message.
#[derive(Debug, Clone, Copy, PartialEq, Eq, Structural)]
pub enum ParseError {
    FirstLine,
    WrongMethod,
    WrongVersion,
    ReadError,
    UnexpectedEnd,
    HeaderError,
    BuilderError(BuildError),
    LengthParse,
    BodyReadException,
    CodeParseError,
    HeaderName,
    HeaderValue,
    NewLine,
    Status,
    Token,
    TooManyHeaders,
    Version,
}

impl ParseError {
    /// Whether the error only says that the message is not yet complete.
    pub open spec fn is_need_more(self) -> bool {
        self == ParseError::UnexpectedEnd
    }

    pub fn need_more(&self) -> (r: bool)
        ensures
            r == self.is_need_more(),
    {
        match self {
            ParseError::UnexpectedEnd => true,
            _ => false,
        }
    }
}

/// The place of the first line feed at or behind `from`, or the length of
/// the bytes if there is none.
pub open spec fn next_newline(bytes: Seq<u8>, from: int) -> int
    decreases bytes.len() - from,
{
    if from < 0 || from >= bytes.len() {
        bytes.len() as int
    } else if bytes[from] == 10u8 {
        from
    } else {
        next_newline(bytes, from + 1)
    }
}

/// Whether the colon at `c` ends a header name: a space follows it and a
/// character that is no colon stands before it.
pub open spec fn is_separator(line: Seq<u8>, c: int) -> bool {
    0 < c && c + 1 < line.len() && line[c] == 58u8 && line[c + 1] == 32u8 && line[c - 1] != 58u8
}

/// Whether `c` is the first colon of the line that ends a header name.
pub open spec fn is_first_separator(line: Seq<u8>, c: int) -> bool {
    is_separator(line, c) && forall|d: int| 0 <= d < c ==> !is_separator(line, d)
}

/// Whether the header name that ends at `c` begins at `s`: no colon stands
/// between `s` and `c`, and `s` is the beginning of the line or follows a colon.
pub open spec fn is_name_start(line: Seq<u8>, c: int, s: int) -> bool {
    &&& 0 <= s <= c
    &&& s == 0 || line[s - 1] == 58u8
    &&& forall|j: int| s <= j < c ==> line[j] != 58u8
}

/// The name and the value of a header line that ends in a carriage return
/// and a line feed. The name ends at the first colon that a space follows
/// and that does not follow another colon; it begins behind the colon before
/// that, or with the line. The value is what stands between the space and
/// the end of the line. A line without such a colon has no fields.
pub open spec fn fields_of(line: Seq<u8>) -> Option<(Seq<u8>, Seq<u8>)> {
    if exists|c: int| is_first_separator(line, c) {
        let c = choose|c: int| is_first_separator(line, c);
        let s = choose|s: int| is_name_start(line, c, s);
        Some((line.subrange(s, c), line.subrange(c + 2, line.len() - 2)))
    } else {
        None
    }
}

/// The header lines from `from` on, added to `lines`, and the place behind
/// the empty line that ends them.
///
/// Each line ends in a carriage return and a line feed. The end of the
/// bytes before the empty line, and a line that ends otherwise, give
/// `UnexpectedEnd`; a line that is not valid UTF-8 gives `ReadError`; a line
/// without fields gives `HeaderError`.
pub open spec fn scan_lines(bytes: Seq<u8>, from: int, lines: Seq<HeaderLine>) -> Result<
    (Seq<HeaderLine>, int),
    ParseError,
>
    decreases bytes.len() - from,
{
    let nl = next_newline(bytes, from);
    if from < 0 || from >= bytes.len() || nl < from {
        Err(ParseError::UnexpectedEnd)
    } else {
        let end = if nl < bytes.len() {
            nl + 1
        } else {
            nl
        };
        let line = bytes.subrange(from, end);
        if !vstd::utf8::valid_utf8(line) {
            Err(ParseError::ReadError)
        } else if nl >= bytes.len() {
            Err(ParseError::UnexpectedEnd)
        } else if line.len() < 2 || line[line.len() - 2] != 13u8 {
            Err(ParseError::UnexpectedEnd)
        } else if line.len() == 2 {
            Ok((lines, end))
        } else {
            match fields_of(line) {
                None => Err(ParseError::HeaderError),
                Some((name, value)) => if vstd::utf8::valid_utf8(name) && vstd::utf8::valid_utf8(
                    value,
                ) {
                    scan_lines(
                        bytes,
                        end,
                        put_line(
                            lines,
                            vstd::utf8::decode_utf8(name),
                            vstd::utf8::decode_utf8(value),
                        ),
                    )
                } else {
                    Err(ParseError::ReadError)
                },
            }
        }
    }
}

/// What a header block and the body behind it hold: the header lines, the
/// body if a length is declared, and the number of bytes taken.
pub type Block = Result<(Seq<HeaderLine>, Option<Seq<u8>>, int), ParseError>;

/// The header block at the beginning of the bytes and the body behind it.
/// The body is there if the headers declare a `Content-Length`, and is as
/// long as declared; a length that is no number gives `LengthParse`, and
/// fewer bytes than declared give `UnexpectedEnd`.
pub open spec fn block_of(bytes: Seq<u8>) -> Block {
    match scan_lines(bytes, 0, Seq::empty()) {
        Err(e) => Err(e),
        Ok((lines, taken)) => body_after(bytes, lines, taken),
    }
}

/// The body behind a header block that takes `taken` bytes and holds `lines`.
pub open spec fn body_after(bytes: Seq<u8>, lines: Seq<HeaderLine>, taken: int) -> Block {
    match declared_length(lines) {
        None => Ok((lines, None, taken)),
        Some(None) => Err(ParseError::LengthParse),
        Some(Some(length)) => if bytes.len() - taken < length {
            Err(ParseError::UnexpectedEnd)
        } else {
            Ok((lines, Some(bytes.subrange(taken, taken + length)), taken + length))
        },
    }
}

/// What the result of parsing a block holds.
pub open spec fn block_view(r: Result<(Headers, Option<Vec<u8>>, usize), ParseError>) -> Block {
    match r {
        Ok((headers, body, taken)) => Ok(
            (
                headers.lines(),
                match body {
                    Some(b) => Some(b@),
                    None => None,
                },
                taken as int,
            ),
        ),
        Err(e) => Err(e),
    }
}

/// The place of the first line feed at or behind `from`.
pub(crate) fn find_newline(bytes: &[u8], from: usize) -> (nl: usize)
    requires
        from <= bytes.len(),
    ensures
        nl == next_newline(bytes@, from as int),
        from <= nl <= bytes.len(),
{
    let mut i: usize = from;
    while i < bytes.len()
        invariant
            from <= i <= bytes.len(),
            next_newline(bytes@, from as int) == next_newline(bytes@, i as int),
        decreases bytes.len() - i,
    {
        if bytes[i] == 10 {
            return i;
        }
        i = i + 1;
    }
    i
}

/// Finds the fields of a header line: where the name begins and where the
/// colon stands that ends it.
fn find_fields(line: &[u8]) -> (r: Option<(usize, usize)>)
    ensures
        match r {
            Some((s, c)) => is_first_separator(line@, c as int) && is_name_start(
                line@,
                c as int,
                s as int,
            ),
            None => forall|c: int| !is_separator(line@, c),
        },
{
    let mut start: usize = 0;
    let mut i: usize = 0;
    while i < line.len()
        invariant
            start <= i <= line.len(),
            start == 0 || line[start - 1] == 58u8,
            forall|j: int| start <= j < i ==> line[j] != 58u8,
            forall|d: int| 0 <= d < i ==> !is_separator(line@, d),
        decreases line.len() - i,
    {
        if line[i] == 58 {
            if i > start && i + 1 < line.len() && line[i + 1] == 32 {
                return Some((start, i));
            }
            start = i + 1;
        }
        i = i + 1;
    }
    None
}

/// The fields that `find_fields` finds are the fields of the line.
proof fn lemma_fields_found(line: Seq<u8>, s: int, c: int)
    requires
        is_first_separator(line, c),
        is_name_start(line, c, s),
    ensures
        fields_of(line) == Some((line.subrange(s, c), line.subrange(c + 2, line.len() - 2))),
{
    let other_c = choose|other_c: int| is_first_separator(line, other_c);
    assert(other_c == c) by {
        if other_c < c {
            assert(!is_separator(line, other_c));
        }
        if c < other_c {
            assert(!is_separator(line, c));
        }
    }
    let other_s = choose|other_s: int| is_name_start(line, c, other_s);
    assert(other_s == s) by {
        if other_s < s {
            assert(line[s - 1] != 58u8);
        }
        if s < other_s {
            assert(line[other_s - 1] != 58u8);
        }
    }
}

/// Reads header blocks and the bodies behind them.
pub struct Parser {}

impl Parser {
    pub fn new() -> Parser {
        Parser {  }
    }

    /// Reads the header block at the beginning of `bytes` and the body
    /// behind it, and returns the headers, the body and the number of bytes
    /// taken, as `block_of` says.
    pub fn parse(&self, bytes: &[u8]) -> (r: Result<(Headers, Option<Vec<u8>>, usize), ParseError>)
        ensures
            block_view(r) == block_of(bytes@),
    {
        let mut headers = Headers::new();
        let mut from: usize = 0;
        loop
            invariant
                from <= bytes.len(),
                scan_lines(bytes@, 0, Seq::empty()) == scan_lines(
                    bytes@,
                    from as int,
                    headers.lines(),
                ),
            decreases bytes.len() - from,
        {
            if from >= bytes.len() {
                return Err(ParseError::UnexpectedEnd);
            }
            let nl = find_newline(bytes, from);
            let end = if nl < bytes.len() {
                nl + 1
            } else {
                nl
            };
            let line = vstd::slice::slice_subrange(bytes, from, end);
            if text_of_bytes(vstd::slice::slice_to_vec(line)).is_none() {
                return Err(ParseError::ReadError);
            }
            if nl >= bytes.len() {
                return Err(ParseError::UnexpectedEnd);
            }
            if line.len() < 2 || line[line.len() - 2] != 13 {
                return Err(ParseError::UnexpectedEnd);
            }
            if line.len() == 2 {
                return Self::read_body(headers, bytes, end);
            }
            let (s, c) = match find_fields(line) {
                Some(found) => found,
                None => {
                    return Err(ParseError::HeaderError);
                },
            };
            proof {
                lemma_fields_found(line@, s as int, c as int);
            }
            let name = text_of_bytes(
                vstd::slice::slice_to_vec(vstd::slice::slice_subrange(line, s, c)),
            );
            let value = text_of_bytes(
                vstd::slice::slice_to_vec(vstd::slice::slice_subrange(line, c + 2, line.len() - 2)),
            );
            match (name, value) {
                (Some(name), Some(value)) => {
                    headers.set_header(name.as_str(), value.as_str());
                },
                _ => {
                    return Err(ParseError::ReadError);
                },
            }
            from = end;
        }
    }

    /// Reads the body behind a header block that takes `from` bytes.
    fn read_body(headers: Headers, bytes: &[u8], from: usize) -> (r: Result<
        (Headers, Option<Vec<u8>>, usize),
        ParseError,
    >)
        requires
            from <= bytes.len(),
        ensures
            block_view(r) == body_after(bytes@, headers.lines(), from as int),
    {
        let length = match headers.get_header("Content-Length") {
            Some(val) => parse_length(val.as_str()),
            None => {
                return Ok((headers, None, from));
            },
        };
        let length = match length {
            Some(val) => val,
            None => {
                return Err(ParseError::LengthParse);
            },
        };
        if bytes.len() - from < length {
            return Err(ParseError::UnexpectedEnd);
        }
        let body = vstd::slice::slice_to_vec(vstd::slice::slice_subrange(bytes, from, from + length));
        Ok((headers, Some(body), from + length))
    }
}

} // verus!
