use vstd::prelude::*;
use crate::http::text::{code_value, parse_code, text_of_bytes};
use crate::http::{block_of, next_newline, ParseError, Parser, Version};
use super::response::{Response, ResponseBuilder, ResponseParts, ResponseView};

verus! {

/// The place of the first space at or behind `from`, or the length of the
/// bytes if there is none.
pub open spec fn next_space(bytes: Seq<u8>, from: int) -> int
    decreases bytes.len() - from,
{
    if from < 0 || from >= bytes.len() {
        bytes.len() as int
    } else if bytes[from] == 32u8 {
        from
    } else {
        next_space(bytes, from + 1)
    }
}

/// Whether a status line can be read from place `s` of the line on: a word
/// without spaces, a space, a second such word, a space, and at least one
/// more character before the carriage return and the line feed that end
/// the line.
pub open spec fn status_at(line: Seq<u8>, s: int) -> bool {
    let mid = next_space(line, s);
    let far = next_space(line, mid + 1);
    0 <= s < mid && mid + 1 < far && far + 4 <= line.len() && line[line.len() - 2] == 13u8
        && line[line.len() - 1] == 10u8
}

/// Whether `s` is the first place of the line from which a status line can be read.
pub open spec fn is_status_start(line: Seq<u8>, s: int) -> bool {
    status_at(line, s) && forall|t: int| 0 <= t < s ==> !status_at(line, t)
}

/// The version, the code and the reason phrase of a status line, read from
/// the first place of the line from which they can be read; none if there
/// is no such place.
pub open spec fn status_fields(line: Seq<u8>) -> Option<(Seq<u8>, Seq<u8>, Seq<u8>)> {
    if exists|s: int| is_status_start(line, s) {
        let s = choose|s: int| is_status_start(line, s);
        let mid = next_space(line, s);
        let far = next_space(line, mid + 1);
        Some((line.subrange(s, mid), line.subrange(mid + 1, far), line.subrange(far + 1, line.len() - 2)))
    } else {
        None
    }
}

/// The response that the bytes hold.
///
/// The first line gives the version, the code and the reason; a line that
/// is not valid UTF-8 gives `ReadError`, one without the three fields
/// `FirstLine`, a code that is no number `CodeParseError`, and a version
/// other than `HTTP/1.1` `WrongVersion`. The header block and the body
/// follow; a body brings its length as the `Content-Length` header.
pub open spec fn response_of(bytes: Seq<u8>) -> Result<ResponseView, ParseError> {
    let nl = next_newline(bytes, 0);
    let end = if nl < bytes.len() {
        nl + 1
    } else {
        nl
    };
    let line = bytes.subrange(0, end);
    if !vstd::utf8::valid_utf8(line) {
        Err(ParseError::ReadError)
    } else {
        match status_fields(line) {
            None => Err(ParseError::FirstLine),
            Some((version, code, reason)) => if !(vstd::utf8::valid_utf8(version)
                && vstd::utf8::valid_utf8(code) && vstd::utf8::valid_utf8(reason)) {
                Err(ParseError::ReadError)
            } else if code_value(vstd::utf8::decode_utf8(code)) is None {
                Err(ParseError::CodeParseError)
            } else if vstd::utf8::decode_utf8(version) != "HTTP/1.1"@ {
                Err(ParseError::WrongVersion)
            } else {
                match block_of(bytes.skip(end)) {
                    Err(e) => Err(e),
                    Ok((lines, body, _)) => {
                        let parts = ResponseParts {
                            code: Some(code_value(vstd::utf8::decode_utf8(code))->Some_0 as int),
                            reason: Some(vstd::utf8::decode_utf8(reason)),
                            version: Some(Version::HTTP11),
                            headers: Some(lines),
                            body: None,
                        };
                        match body {
                            Some(b) => Ok(parts.with_body(b).response()),
                            None => Ok(parts.response()),
                        }
                    },
                }
            },
        }
    }
}

/// What the result of parsing a response holds.
pub open spec fn response_view(r: Result<Response, ParseError>) -> Result<ResponseView, ParseError> {
    match r {
        Ok(response) => Ok(response@),
        Err(e) => Err(e),
    }
}

/// The place of the first space at or behind `from`.
fn find_space(bytes: &[u8], from: usize) -> (p: usize)
    requires
        from <= bytes.len(),
    ensures
        p == next_space(bytes@, from as int),
        from <= p <= bytes.len(),
{
    let mut i: usize = from;
    while i < bytes.len()
        invariant
            from <= i <= bytes.len(),
            next_space(bytes@, from as int) == next_space(bytes@, i as int),
        decreases bytes.len() - i,
    {
        if bytes[i] == 32 {
            return i;
        }
        i = i + 1;
    }
    i
}

/// The first place of the line from which a status line can be read, with
/// the places of the two spaces that part its fields.
fn find_status(line: &[u8]) -> (r: Option<(usize, usize, usize)>)
    ensures
        match r {
            Some((s, mid, far)) => is_status_start(line@, s as int) && mid == next_space(
                line@,
                s as int,
            ) && far == next_space(line@, mid + 1),
            None => forall|s: int| !status_at(line@, s),
        },
{
    let n = line.len();
    if n < 2 || line[n - 2] != 13 || line[n - 1] != 10 {
        return None;
    }
    let mut s: usize = 0;
    while s < n
        invariant
            s <= n,
            n == line.len(),
            n >= 2,
            line[n - 2] == 13u8,
            line[n - 1] == 10u8,
            forall|t: int| 0 <= t < s ==> !status_at(line@, t),
        decreases n - s,
    {
        let mid = find_space(line, s);
        if s < mid && mid < n {
            let far = find_space(line, mid + 1);
            if mid + 1 < far && far < n && n - far >= 4 {
                return Some((s, mid, far));
            }
        }
        s = s + 1;
    }
    assert forall|s: int| !status_at(line@, s) by {
        if s >= n {
            assert(next_space(line@, s) == n);
        }
    }
    None
}

/// Reads HTTP/1.1 responses from bytes.
pub struct ResponseParser {
    parser: Parser,
}

impl ResponseParser {
    pub fn new_parser() -> ResponseParser {
        ResponseParser { parser: Parser::new() }
    }

    /// Reads the response that `bytes` hold, as `response_of` says.
    pub fn parse(&self, bytes: &[u8]) -> (r: Result<Response, ParseError>)
        ensures
            response_view(r) == response_of(bytes@),
    {
        let nl = crate::http::parser::find_newline(bytes, 0);
        let end = if nl < bytes.len() {
            nl + 1
        } else {
            nl
        };
        let line = vstd::slice::slice_subrange(bytes, 0, end);
        if text_of_bytes(vstd::slice::slice_to_vec(line)).is_none() {
            return Err(ParseError::ReadError);
        }
        let (s, mid, far) = match find_status(line) {
            Some(found) => found,
            None => {
                return Err(ParseError::FirstLine);
            },
        };
        proof {
            let chosen = choose|t: int| is_status_start(line@, t);
            if chosen < s {
                assert(!status_at(line@, chosen));
            }
            if s < chosen {
                assert(!status_at(line@, s as int));
            }
        }
        let version = text_of_bytes(
            vstd::slice::slice_to_vec(vstd::slice::slice_subrange(line, s, mid)),
        );
        let code = text_of_bytes(
            vstd::slice::slice_to_vec(vstd::slice::slice_subrange(line, mid + 1, far)),
        );
        let reason = text_of_bytes(
            vstd::slice::slice_to_vec(vstd::slice::slice_subrange(line, far + 1, line.len() - 2)),
        );
        let (version, code, reason) = match (version, code, reason) {
            (Some(v), Some(c), Some(r)) => (v, c, r),
            _ => {
                return Err(ParseError::ReadError);
            },
        };
        let code = match parse_code(code.as_str()) {
            Some(val) => val,
            None => {
                return Err(ParseError::CodeParseError);
            },
        };
        let version = match Version::from_str(version.as_str()) {
            Ok(version) => version,
            Err(_) => {
                return Err(ParseError::WrongVersion);
            },
        };
        let builder = ResponseBuilder::new().code(code).version(version).reason(reason);
        let rest = vstd::slice::slice_subrange(bytes, end, bytes.len());
        assert(rest@ =~= bytes@.skip(end as int));
        let builder = match self.parser.parse(rest) {
            Err(e) => {
                return Err(e);
            },
            Ok((headers, Some(body), _)) => builder.headers(headers).body(body.as_slice()),
            Ok((headers, None, _)) => builder.headers(headers),
        };
        match builder.build() {
            Ok(response) => Ok(response),
            Err(e) => Err(ParseError::BuilderError(e)),
        }
    }
}

} // verus!
