use vstd::prelude::*;
use crate::http::text::{length_value, parse_length, text_of_bytes};
use crate::http::{length_key, line_map, put_line, HeaderLine, Headers, Method, ParseError, Version};
use super::request::{Request, RequestBuilder, RequestView};

verus! {

/// The error type of the `httparse` crate: a plain enumeration of the seven
/// ways in which a message head can be malformed.
#[verifier::external_type_specification]
pub struct ExHeadError(httparse::Error);

/// One header as the head scanner found it: the name, and the value as raw bytes.
#[derive(Debug, PartialEq, Eq)]
pub struct RawHeader {
    pub name: String,
    pub value: Vec<u8>,
}

/// A message head as the head scanner found it.
#[derive(Debug, PartialEq, Eq)]
pub struct RawHead {
    /// The method token of the request line.
    pub method: Option<String>,
    /// The target of the request line.
    pub path: Option<String>,
    /// The minor version: `1` stands for `HTTP/1.1`.
    pub version: Option<u8>,
    /// The header lines in order.
    pub headers: Vec<RawHeader>,
    /// How many bytes the head takes; the body starts there.
    pub consumed: usize,
}

/// What a `RawHeader` holds.
pub struct RawHeaderView {
    pub name: Seq<char>,
    pub value: Seq<u8>,
}

/// What a `RawHead` holds.
pub struct RawHeadView {
    pub method: Option<Seq<char>>,
    pub path: Option<Seq<char>>,
    pub version: Option<u8>,
    pub headers: Seq<RawHeaderView>,
    pub consumed: usize,
}

impl View for RawHeader {
    type V = RawHeaderView;

    open spec fn view(&self) -> RawHeaderView {
        RawHeaderView { name: self.name@, value: self.value@ }
    }
}

impl View for RawHead {
    type V = RawHeadView;

    open spec fn view(&self) -> RawHeadView {
        RawHeadView {
            method: match self.method {
                Some(m) => Some(m@),
                None => None,
            },
            path: match self.path {
                Some(p) => Some(p@),
                None => None,
            },
            version: self.version,
            headers: Seq::new(self.headers.len() as nat, |i: int| self.headers[i]@),
            consumed: self.consumed,
        }
    }
}

/// What the head scanner makes of a buffer: `Ok(None)` when the head is not
/// yet complete, `Ok(Some(head))` when it is, and the scanner's error when
/// the bytes cannot be the beginning of a request.
pub type HeadOutcome = Result<Option<RawHeadView>, httparse::Error>;

/// What a scan result holds.
pub open spec fn scan_view(r: Result<Option<RawHead>, httparse::Error>) -> HeadOutcome {
    match r {
        Ok(Some(head)) => Ok(Some(head@)),
        Ok(None) => Ok(None),
        Err(e) => Err(e),
    }
}

/// What `httparse` makes of the beginning of a buffer when it looks for a
/// request head with room for 64 headers.
pub uninterp spec fn head_scan(bytes: Seq<u8>) -> HeadOutcome;

/// `httparse::Request::parse`, on a fresh request with room for 64 headers.
/// The contract gives the outcome a name and says nothing of what it is:
/// a complete head comes back with the method, target, minor version and
/// headers that the scanner stored and the offset at which the body starts,
/// an incomplete one as `Ok(None)`, a malformed one as the scanner's error.
#[verifier::external_body]
fn scan_head(bytes: &[u8]) -> (r: Result<Option<RawHead>, httparse::Error>)
    ensures
        scan_view(r) == head_scan(bytes@),
{
    let mut slots = [httparse::EMPTY_HEADER; 64];
    let mut req = httparse::Request::new(&mut slots);
    let consumed = match req.parse(bytes)? {
        httparse::Status::Complete(n) => n,
        httparse::Status::Partial => return Ok(None),
    };
    let headers = req.headers.iter().map(|h| RawHeader { name: h.name.to_string(), value: h.value.to_vec() }).collect();
    Ok(Some(RawHead { method: req.method.map(String::from), path: req.path.map(String::from), version: req.version, headers, consumed }))
}

/// The library's error for each error of the head scanner.
pub open spec fn syntax_error(e: httparse::Error) -> ParseError {
    match e {
        httparse::Error::HeaderName => ParseError::HeaderName,
        httparse::Error::HeaderValue => ParseError::HeaderValue,
        httparse::Error::NewLine => ParseError::NewLine,
        httparse::Error::Status => ParseError::Status,
        httparse::Error::Token => ParseError::Token,
        httparse::Error::TooManyHeaders => ParseError::TooManyHeaders,
        httparse::Error::Version => ParseError::Version,
    }
}

impl ParseError {
    /// Turns an error of the head scanner into the library's error of the same name.
    pub fn from(error: httparse::Error) -> (r: ParseError)
        ensures
            r == syntax_error(error),
    {
        match error {
            httparse::Error::HeaderName => ParseError::HeaderName,
            httparse::Error::HeaderValue => ParseError::HeaderValue,
            httparse::Error::NewLine => ParseError::NewLine,
            httparse::Error::Status => ParseError::Status,
            httparse::Error::Token => ParseError::Token,
            httparse::Error::TooManyHeaders => ParseError::TooManyHeaders,
            httparse::Error::Version => ParseError::Version,
        }
    }
}

/// The header lines that the scanned headers make up, each set in turn so
/// that a repeated name keeps its last value. There are none when a value is
/// not valid UTF-8.
pub open spec fn folded_lines(raw: Seq<RawHeaderView>) -> Option<Seq<HeaderLine>>
    decreases raw.len(),
{
    if raw.len() == 0 {
        Some(Seq::empty())
    } else {
        match folded_lines(raw.drop_last()) {
            Some(lines) => if vstd::utf8::valid_utf8(raw.last().value) {
                Some(put_line(lines, raw.last().name, vstd::utf8::decode_utf8(raw.last().value)))
            } else {
                None
            },
            None => None,
        }
    }
}

/// The body length that header lines declare: nothing when they hold no
/// `Content-Length`, otherwise what its value reads as.
pub open spec fn declared_length(lines: Seq<HeaderLine>) -> Option<Option<usize>> {
    if line_map(lines).contains_key(length_key()) {
        Some(length_value(line_map(lines)[length_key()]))
    } else {
        None
    }
}

/// What a parse returns: the request and the number of bytes it takes, or an error.
pub type Parsed = Result<(RequestView, nat), ParseError>;

/// The request that a scanned head and the buffer it was scanned from make up.
///
/// A head without a request line is refused, and so is a method other than
/// the four known ones, a version other than `HTTP/1.1`, a header value that
/// is not valid UTF-8 and a `Content-Length` that is no number. A body of the
/// declared length follows the head; while the buffer does not yet hold all
/// of it, the outcome is `UnexpectedEnd`. The number of bytes taken is the
/// length of the head plus the declared length.
pub open spec fn request_of(head: RawHeadView, bytes: Seq<u8>) -> Parsed {
    if head.consumed == 0 || head.method is None || head.path is None || head.version is None {
        Err(ParseError::FirstLine)
    } else if head.consumed > bytes.len() {
        Err(ParseError::UnexpectedEnd)
    } else if Method::of_token(head.method->Some_0) is None {
        Err(ParseError::WrongMethod)
    } else if head.version != Some(1u8) {
        Err(ParseError::WrongVersion)
    } else {
        match folded_lines(head.headers) {
            None => Err(ParseError::HeaderValue),
            Some(lines) => {
                let request = RequestView {
                    method: Method::of_token(head.method->Some_0)->Some_0,
                    path: head.path->Some_0,
                    version: Version::HTTP11,
                    headers: lines,
                    body: None,
                };
                match declared_length(lines) {
                    None => Ok((request, head.consumed as nat)),
                    Some(None) => Err(ParseError::LengthParse),
                    Some(Some(length)) => if bytes.len() < head.consumed + length {
                        Err(ParseError::UnexpectedEnd)
                    } else {
                        Ok(
                            (
                                RequestView {
                                    body: Some(
                                        bytes.subrange(
                                            head.consumed as int,
                                            head.consumed + length,
                                        ),
                                    ),
                                    ..request
                                },
                                (head.consumed + length) as nat,
                            ),
                        )
                    },
                }
            },
        }
    }
}

/// The outcome of parsing a buffer: `UnexpectedEnd` while the head is
/// incomplete, the scanner's error when the head is malformed, and otherwise
/// what the head and the buffer make up.
pub open spec fn parse_spec(bytes: Seq<u8>) -> Parsed {
    match head_scan(bytes) {
        Ok(None) => Err(ParseError::UnexpectedEnd),
        Ok(Some(head)) => request_of(head, bytes),
        Err(e) => Err(syntax_error(e)),
    }
}

/// What a parse result holds.
pub open spec fn parsed_view(r: Result<(Request, usize), ParseError>) -> Parsed {
    match r {
        Ok((request, n)) => Ok((request@, n as nat)),
        Err(e) => Err(e),
    }
}

/// Once a header value is not valid UTF-8, no longer run of headers folds.
proof fn lemma_folded_none(raw: Seq<RawHeaderView>, k: int)
    requires
        0 <= k <= raw.len(),
        folded_lines(raw.take(k)) is None,
    ensures
        folded_lines(raw) is None,
    decreases raw.len() - k,
{
    if k == raw.len() {
        assert(raw.take(k) =~= raw);
    } else {
        assert(raw.take(k + 1).drop_last() =~= raw.take(k));
        lemma_folded_none(raw, k + 1);
    }
}

/// Reads HTTP/1.1 requests from byte buffers.
pub struct RequestParser {}

impl RequestParser {
    pub fn new() -> RequestParser {
        RequestParser {  }
    }

    /// Makes a request of a scanned head and the buffer it was scanned from.
    #[verifier::loop_isolation(false)]
    pub fn assemble(head: RawHead, bytes: &[u8]) -> (r: Result<(Request, usize), ParseError>)
        ensures
            parsed_view(r) == request_of(head@, bytes@),
    {
        let ghost raw = head@.headers;
        let RawHead { method, path, version, headers, consumed } = head;
        assert(raw.len() == headers.len());
        assert forall|j: int| 0 <= j < headers.len() implies raw[j] == headers[j]@ by {}
        if consumed == 0 {
            return Err(ParseError::FirstLine);
        }
        let (method, path, version) = match (method, path, version) {
            (Some(m), Some(p), Some(v)) => (m, p, v),
            _ => return Err(ParseError::FirstLine),
        };
        if consumed > bytes.len() {
            return Err(ParseError::UnexpectedEnd);
        }
        let method = match Method::from_str(method.as_str()) {
            Ok(m) => m,
            Err(_) => return Err(ParseError::WrongMethod),
        };
        if version != 1 {
            return Err(ParseError::WrongVersion);
        }
        let mut map = Headers::new();
        let mut i: usize = 0;
        assert(raw.take(0) =~= Seq::<RawHeaderView>::empty());
        while i < headers.len()
            invariant
                i <= headers.len(),
                raw.len() == headers.len(),
                forall|j: int| 0 <= j < headers.len() ==> raw[j] == headers[j]@,
                folded_lines(raw.take(i as int)) == Some(map.lines()),
            decreases headers.len() - i,
        {
            let header = &headers[i];
            proof {
                assert(raw.take(i + 1).drop_last() =~= raw.take(i as int));
                assert(raw.take(i + 1).last() == header@);
            }
            let value = match text_of_bytes(vstd::slice::slice_to_vec(header.value.as_slice())) {
                Some(v) => v,
                None => {
                    proof {
                        assert(!vstd::utf8::valid_utf8(raw.take(i + 1).last().value));
                        assert(folded_lines(raw.take(i + 1)) is None);
                        lemma_folded_none(raw, i + 1);
                    }
                    return Err(ParseError::HeaderValue);
                },
            };
            map.set_header(header.name.as_str(), value.as_str());
            i = i + 1;
        }
        assert(raw.take(i as int) =~= raw);
        let builder = RequestBuilder::new().method(method).path(path).version(Version::HTTP11);
        let length = match map.get_header("Content-Length") {
            Some(n) => parse_length(n.as_str()),
            None => {
                let request = match builder.headers(map).build() {
                    Ok(req) => req,
                    Err(e) => return Err(ParseError::BuilderError(e)),
                };
                return Ok((request, consumed));
            },
        };
        let length = match length {
            Some(val) => val,
            None => return Err(ParseError::LengthParse),
        };
        if length > bytes.len() - consumed {
            return Err(ParseError::UnexpectedEnd);
        }
        let body = vstd::slice::slice_subrange(bytes, consumed, consumed + length);
        let request = match builder.body(body).headers(map).build() {
            Ok(req) => req,
            Err(e) => return Err(ParseError::BuilderError(e)),
        };
        Ok((request, consumed + length))
    }

    /// Reads one request from the beginning of `reader`.
    ///
    /// Returns the request and the number of bytes it takes, `UnexpectedEnd`
    /// while the buffer holds only the beginning of a request, and another
    /// error when the bytes cannot be a request. Nothing is taken from the
    /// buffer in either failing case.
    pub fn parse_u8(&self, reader: &[u8]) -> (r: Result<(Request, usize), ParseError>)
        ensures
            parsed_view(r) == parse_spec(reader@),
    {
        match scan_head(reader) {
            Ok(None) => Err(ParseError::UnexpectedEnd),
            Ok(Some(head)) => Self::assemble(head, reader),
            Err(e) => Err(ParseError::from(e)),
        }
    }
}

impl Request {
    /// The request at the beginning of `slice`, as `RequestParser::parse_u8`
    /// reads it.
    pub fn try_from(slice: &[u8]) -> (r: Result<Request, ParseError>)
        ensures
            match r {
                Ok(request) => parse_spec(slice@) is Ok && request@ == parse_spec(slice@)->Ok_0.0,
                Err(e) => parse_spec(slice@) == Err::<(RequestView, nat), ParseError>(e),
            },
    {
        let parser = RequestParser::new();
        match parser.parse_u8(slice) {
            Ok((request, _)) => Ok(request),
            Err(e) => Err(e),
        }
    }
}

/// A parse that succeeds takes at least one byte and no more than the buffer
/// holds: the head and the declared length of the body.
pub proof fn lemma_parsed_length(bytes: Seq<u8>)
    requires
        parse_spec(bytes) is Ok,
    ensures
        0 < parse_spec(bytes)->Ok_0.1 <= bytes.len(),
        head_scan(bytes) matches Ok(Some(head)) && match parse_spec(bytes)->Ok_0.0.body {
            Some(body) => parse_spec(bytes)->Ok_0.1 == head.consumed + body.len(),
            None => parse_spec(bytes)->Ok_0.1 == head.consumed,
        },
{
}

/// While the body that a head declares has not wholly arrived, the outcome is
/// `UnexpectedEnd`: if a head and a buffer make up a request of `n` bytes,
/// the same head with only the first `k` of them, `k` at least the length of
/// the head and less than `n`, asks for more.
pub proof fn lemma_body_prefix_needs_more(head: RawHeadView, bytes: Seq<u8>, k: int)
    requires
        request_of(head, bytes) is Ok,
        head.consumed <= k < request_of(head, bytes)->Ok_0.1,
    ensures
        request_of(head, bytes.take(k)) == Err::<(RequestView, nat), ParseError>(
            ParseError::UnexpectedEnd,
        ),
{
}

/// What follows a complete request does not change it: if a head and a
/// buffer make up a request of `n` bytes, the same head with any buffer that
/// begins with the same `n` bytes makes up the same request of `n` bytes.
pub proof fn lemma_extension_keeps_request(head: RawHeadView, bytes: Seq<u8>, longer: Seq<u8>)
    requires
        request_of(head, bytes) is Ok,
        request_of(head, bytes)->Ok_0.1 <= longer.len(),
        longer.take(request_of(head, bytes)->Ok_0.1 as int) == bytes.take(
            request_of(head, bytes)->Ok_0.1 as int,
        ),
    ensures
        request_of(head, longer) == request_of(head, bytes),
{
    let n = request_of(head, bytes)->Ok_0.1 as int;
    let lines = folded_lines(head.headers)->Some_0;
    if declared_length(lines) is Some {
        let length = declared_length(lines)->Some_0->Some_0;
        let c = head.consumed as int;
        assert(longer.subrange(c, c + length) =~= longer.take(n).subrange(c, c + length));
        assert(bytes.subrange(c, c + length) =~= bytes.take(n).subrange(c, c + length));
    }
}

/// Whether the head scanner reads the head of a message stably: it asks for
/// more on every buffer that holds less than the head, and finds the same
/// head on every buffer that begins with it.
pub open spec fn head_stable(message: Seq<u8>, head: RawHeadView) -> bool {
    &&& head.consumed <= message.len()
    &&& forall|k: int|
        0 <= k < head.consumed ==> #[trigger] head_scan(message.take(k)) == Ok::<
            Option<RawHeadView>,
            httparse::Error,
        >(None)
    &&& forall|buffer: Seq<u8>|
        buffer.len() >= head.consumed && buffer.take(head.consumed as int) == message.take(
            head.consumed as int,
        ) ==> #[trigger] head_scan(buffer) == Ok::<Option<RawHeadView>, httparse::Error>(
            Some(head),
        )
}

/// Whether `message` is one complete request, `request`, to the parser:
/// every proper prefix of it asks for more, and the message itself, whatever
/// bytes follow it, parses as the request and takes exactly the message.
pub open spec fn is_message(message: Seq<u8>, request: RequestView) -> bool {
    &&& forall|k: int|
        0 <= k < message.len() ==> #[trigger] parse_spec(message.take(k)) == Err::<
            (RequestView, nat),
            ParseError,
        >(ParseError::UnexpectedEnd)
    &&& forall|rest: Seq<u8>| #[trigger]
        parse_spec(message + rest) == Ok::<(RequestView, nat), ParseError>(
            (request, message.len()),
        )
}

/// The parser is incremental on every message whose head the scanner reads
/// stably: if the message parses as a request that takes all of it, then
/// each proper prefix asks for more, and the message followed by any bytes
/// parses as the same request and takes the same bytes.
pub proof fn lemma_parser_incremental(message: Seq<u8>, head: RawHeadView, request: RequestView)
    requires
        head_stable(message, head),
        request_of(head, message) == Ok::<(RequestView, nat), ParseError>(
            (request, message.len()),
        ),
    ensures
        is_message(message, request),
{
    let c = head.consumed as int;
    assert forall|k: int| 0 <= k < message.len() implies #[trigger] parse_spec(message.take(k))
        == Err::<(RequestView, nat), ParseError>(ParseError::UnexpectedEnd) by {
        if k >= c {
            let prefix = message.take(k);
            assert(prefix.take(c) =~= message.take(c));
            assert(head_scan(prefix) == Ok::<Option<RawHeadView>, httparse::Error>(Some(head)));
            lemma_body_prefix_needs_more(head, message, k);
        }
    }
    assert forall|rest: Seq<u8>| #[trigger]
        parse_spec(message + rest) == Ok::<(RequestView, nat), ParseError>(
            (request, message.len()),
        ) by {
        let longer = message + rest;
        assert(longer.take(c) =~= message.take(c));
        assert(head_scan(longer) == Ok::<Option<RawHeadView>, httparse::Error>(Some(head)));
        assert(longer.take(message.len() as int) =~= message.take(message.len() as int));
        lemma_extension_keeps_request(head, message, longer);
    }
}

} // verus!
