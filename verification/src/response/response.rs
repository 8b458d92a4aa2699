use vstd::prelude::*;
use crate::http::text::{signed_decimal, signed_decimal_string, decimal, decimal_string, text_of_bytes};
use crate::http::{header_block, put_line, BuildError, HeaderLine, Headers, Version};
use crate::request::body_text;
use super::reason::Reason;

verus! {

/// What a response holds.
pub struct ResponseView {
    pub code: int,
    pub reason: Seq<char>,
    pub version: Version,
    pub headers: Seq<HeaderLine>,
    pub body: Option<Seq<u8>>,
}

impl ResponseView {
    /// The response as text: the status line, the header lines, an empty
    /// line, and the body when it is text.
    pub open spec fn text(self) -> Seq<char> {
        self.version.token() + " "@ + signed_decimal(self.code) + " "@ + self.reason + "\r\n"@
            + header_block(self.headers) + "\r\n"@ + body_text(self.body)
    }
}

/// An HTTP response.
#[derive(Debug, PartialEq)]
pub struct Response {
    pub code: i32,
    pub reason: String,
    pub version: Version,
    pub headers: Headers,
    pub body: Option<Vec<u8>>,
}

impl View for Response {
    type V = ResponseView;

    open spec fn view(&self) -> ResponseView {
        ResponseView {
            code: self.code as int,
            reason: self.reason@,
            version: self.version,
            headers: self.headers.lines(),
            body: match self.body {
                Some(b) => Some(b@),
                None => None,
            },
        }
    }
}

impl Response {
    /// The status code of the response.
    pub fn code(&self) -> (c: i32)
        ensures
            c == self@.code,
    {
        self.code
    }

    /// The reason phrase of the response.
    pub fn reason(&self) -> (r: &String)
        ensures
            r@ == self@.reason,
    {
        &self.reason
    }

    /// The HTTP version of the response.
    pub fn version(&self) -> (v: &Version)
        ensures
            *v == self@.version,
    {
        &self.version
    }

    /// The headers of the response.
    pub fn headers(&self) -> (h: &Headers)
        ensures
            h.lines() == self@.headers,
    {
        &self.headers
    }

    /// The body of the response as bytes.
    pub fn body(&self) -> (b: Option<&Vec<u8>>)
        ensures
            match b {
                Some(v) => self@.body == Some(v@),
                None => self@.body is None,
            },
    {
        self.body.as_ref()
    }

    /// The body of the response read as UTF-8 text; nothing if there is no
    /// body or it is not valid UTF-8.
    pub fn body_as_string(&self) -> (s: Option<String>)
        ensures
            match s {
                Some(t) => self@.body is Some && vstd::utf8::valid_utf8(self@.body->Some_0)
                    && t@ == vstd::utf8::decode_utf8(self@.body->Some_0),
                None => self@.body is None || !vstd::utf8::valid_utf8(self@.body->Some_0),
            },
    {
        match self.body.as_ref() {
            Some(val) => text_of_bytes(vstd::slice::slice_to_vec(val.as_slice())),
            None => None,
        }
    }

    /// The response as text, as it is written to the connection.
    pub fn to_string(&self) -> (s: String)
        ensures
            s@ == self@.text(),
    {
        let mut buf = String::new();
        buf.append(self.version.as_str());
        buf.append(" ");
        let code = signed_decimal_string(self.code);
        buf.append(code.as_str());
        buf.append(" ");
        buf.append(self.reason.as_str());
        buf.append("\r\n");
        self.headers.write_lines(&mut buf);
        buf.append("\r\n");
        match self.body_as_string() {
            Some(body) => buf.append(body.as_str()),
            None => {},
        }
        assert(buf@ =~= self@.text());
        buf
    }
}

/// What a response builder has been given so far.
pub struct ResponseParts {
    pub code: Option<int>,
    pub reason: Option<Seq<char>>,
    pub version: Option<Version>,
    pub headers: Option<Seq<HeaderLine>>,
    pub body: Option<Seq<u8>>,
}

impl ResponseParts {
    /// What a fresh builder holds: the version and an empty header map.
    pub open spec fn fresh() -> ResponseParts {
        ResponseParts {
            code: None,
            reason: None,
            version: Some(Version::HTTP11),
            headers: Some(Seq::empty()),
            body: None,
        }
    }

    /// A fresh builder with the code and phrase of a status.
    pub open spec fn of_status(status: Reason) -> ResponseParts {
        ResponseParts {
            code: Some(status.number()),
            reason: Some(status.phrase()),
            ..ResponseParts::fresh()
        }
    }

    /// Whether the mandatory parts (code, reason, version, headers) are all there.
    pub open spec fn complete(self) -> bool {
        self.code is Some && self.reason is Some && self.version is Some && self.headers is Some
    }

    /// The response that the parts make up.
    pub open spec fn response(self) -> ResponseView {
        ResponseView {
            code: self.code->Some_0,
            reason: self.reason->Some_0,
            version: self.version->Some_0,
            headers: self.headers->Some_0,
            body: self.body,
        }
    }

    /// The header lines given so far; none where no header map was given.
    pub open spec fn lines(self) -> Seq<HeaderLine> {
        match self.headers {
            Some(l) => l,
            None => Seq::empty(),
        }
    }

    /// The parts after one header is set.
    pub open spec fn with_header(self, name: Seq<char>, value: Seq<char>) -> ResponseParts {
        ResponseParts { headers: Some(put_line(self.lines(), name, value)), ..self }
    }

    /// The parts after a body is given: the body itself and its length in the
    /// `Content-Length` header.
    pub open spec fn with_body(self, body: Seq<u8>) -> ResponseParts {
        ResponseParts {
            body: Some(body),
            ..self.with_header("Content-Length"@, decimal(body.len()))
        }
    }
}

/// Builds a response part by part.
pub struct ResponseBuilder {
    code: Option<i32>,
    reason: Option<String>,
    version: Option<Version>,
    headers: Option<Headers>,
    body: Option<Vec<u8>>,
}

impl View for ResponseBuilder {
    type V = ResponseParts;

    closed spec fn view(&self) -> ResponseParts {
        ResponseParts {
            code: match self.code {
                Some(c) => Some(c as int),
                None => None,
            },
            reason: match self.reason {
                Some(r) => Some(r@),
                None => None,
            },
            version: self.version,
            headers: match self.headers {
                Some(h) => Some(h.lines()),
                None => None,
            },
            body: match self.body {
                Some(b) => Some(b@),
                None => None,
            },
        }
    }
}

impl ResponseBuilder {
    /// A builder that holds the version `HTTP/1.1` and no header.
    pub fn new() -> (b: ResponseBuilder)
        ensures
            b@ == ResponseParts::fresh(),
    {
        ResponseBuilder {
            code: None,
            reason: None,
            version: Some(Version::HTTP11),
            headers: Some(Headers::new()),
            body: None,
        }
    }

    /// A builder for a response with status 500 and no body.
    pub fn empty_500() -> (b: ResponseBuilder)
        ensures
            b@ == ResponseParts::of_status(Reason::INTERNAL500),
    {
        ResponseBuilder::new().status(Reason::INTERNAL500).version(Version::HTTP11)
    }

    /// A builder for a response with status 200 and no body.
    pub fn empty_200() -> (b: ResponseBuilder)
        ensures
            b@ == ResponseParts::of_status(Reason::OK200),
    {
        ResponseBuilder::new().status(Reason::OK200).version(Version::HTTP11)
    }

    /// A builder for a response with status 400 and no body.
    pub fn empty_400() -> (b: ResponseBuilder)
        ensures
            b@ == ResponseParts::of_status(Reason::BADREQUEST400),
    {
        ResponseBuilder::new().status(Reason::BADREQUEST400).version(Version::HTTP11)
    }

    /// A builder for a response with status 404 and no body.
    pub fn empty_404() -> (b: ResponseBuilder)
        ensures
            b@ == ResponseParts::of_status(Reason::NOTFOUND404),
    {
        ResponseBuilder::new().status(Reason::NOTFOUND404).version(Version::HTTP11)
    }

    /// Sets the status code of the response.
    pub fn code(self, code: i32) -> (b: ResponseBuilder)
        ensures
            b@ == (ResponseParts { code: Some(code as int), ..self@ }),
    {
        let ResponseBuilder { code: _, reason, version, headers, body } = self;
        ResponseBuilder { code: Some(code), reason, version, headers, body }
    }

    /// Sets the reason phrase of the response.
    pub fn reason(self, reason: String) -> (b: ResponseBuilder)
        ensures
            b@ == (ResponseParts { reason: Some(reason@), ..self@ }),
    {
        let ResponseBuilder { code, reason: _, version, headers, body } = self;
        ResponseBuilder { code, reason: Some(reason), version, headers, body }
    }

    /// Sets the HTTP version of the response.
    pub fn version(self, version: Version) -> (b: ResponseBuilder)
        ensures
            b@ == (ResponseParts { version: Some(version), ..self@ }),
    {
        let ResponseBuilder { code, reason, version: _, headers, body } = self;
        ResponseBuilder { code, reason, version: Some(version), headers, body }
    }

    /// Sets the header map of the response, in place of any headers given before.
    pub fn headers(self, headers: Headers) -> (b: ResponseBuilder)
        ensures
            b@ == (ResponseParts { headers: Some(headers.lines()), ..self@ }),
    {
        let ResponseBuilder { code, reason, version, headers: _, body } = self;
        ResponseBuilder { code, reason, version, headers: Some(headers), body }
    }

    /// Sets a single header of the response.
    pub fn header(self, key: &str, value: &str) -> (b: ResponseBuilder)
        ensures
            b@ == self@.with_header(key@, value@),
    {
        let ResponseBuilder { code, reason, version, headers, body } = self;
        let mut headers = match headers {
            Some(h) => h,
            None => Headers::new(),
        };
        headers.set_header(key, value);
        ResponseBuilder { code, reason, version, headers: Some(headers), body }
    }

    /// Sets the `Content-Type` header of the response.
    pub fn content_type(self, content_type: &str) -> (b: ResponseBuilder)
        ensures
            b@ == self@.with_header("Content-Type"@, content_type@),
    {
        self.header("Content-Type", content_type)
    }

    /// Sets the body of the response, and its length as the `Content-Length` header.
    pub fn body(self, body: &[u8]) -> (b: ResponseBuilder)
        ensures
            b@ == self@.with_body(body@),
    {
        let len = body.len();
        let text = decimal_string(len);
        let builder = self.header("Content-Length", text.as_str());
        let ResponseBuilder { code, reason, version, headers, body: _ } = builder;
        ResponseBuilder { code, reason, version, headers, body: Some(vstd::slice::slice_to_vec(body)) }
    }

    /// Sets the status of the response: its code and its reason phrase.
    pub fn status(self, status: Reason) -> (b: ResponseBuilder)
        ensures
            b@ == (ResponseParts {
                code: Some(status.number()),
                reason: Some(status.phrase()),
                ..self@
            }),
    {
        let ResponseBuilder { code: _, reason: _, version, headers, body } = self;
        ResponseBuilder { code: Some(status.code()), reason: Some(status.reason()), version, headers, body }
    }

    /// Builds the response. It takes a code, a reason, a version and a header map.
    pub fn build(self) -> (r: Result<Response, BuildError>)
        ensures
            match r {
                Ok(resp) => self@.complete() && resp@ == self@.response(),
                Err(e) => !self@.complete() && e == BuildError::Incomplete,
            },
    {
        let code = match self.code {
            Some(val) => val,
            None => return Err(BuildError::Incomplete),
        };
        let reason = match self.reason {
            Some(val) => val,
            None => return Err(BuildError::Incomplete),
        };
        let version = match self.version {
            Some(val) => val,
            None => return Err(BuildError::Incomplete),
        };
        let headers = match self.headers {
            Some(val) => val,
            None => return Err(BuildError::Incomplete),
        };
        Ok(Response { code, reason, version, headers, body: self.body })
    }
}

impl Default for ResponseBuilder {
    fn default() -> (b: ResponseBuilder)
        ensures
            b@ == ResponseParts::fresh(),
    {
        ResponseBuilder::new()
    }
}

} // verus!
