use vstd::prelude::*;
use crate::http::text::text_of_bytes;
use crate::http::{header_block, BuildError, HeaderLine, Headers, Method, Version};

verus! {

/// The body as text: what the bytes encode when they are valid UTF-8, and
/// nothing when there is no body or it is not valid UTF-8.
pub open spec fn body_text(body: Option<Seq<u8>>) -> Seq<char> {
    match body {
        Some(b) => if vstd::utf8::valid_utf8(b) {
            vstd::utf8::decode_utf8(b)
        } else {
            Seq::empty()
        },
        None => Seq::empty(),
    }
}

/// What a request holds.
pub struct RequestView {
    pub method: Method,
    pub path: Seq<char>,
    pub version: Version,
    pub headers: Seq<HeaderLine>,
    pub body: Option<Seq<u8>>,
}

impl RequestView {
    /// The request as text: the request line, the header lines, an empty
    /// line, and the body when it is text.
    pub open spec fn text(self) -> Seq<char> {
        self.method.token() + " "@ + self.path + " "@ + self.version.token() + "\r\n"@
            + header_block(self.headers) + "\r\n"@ + body_text(self.body)
    }
}

/// An HTTP request.
#[derive(Debug, PartialEq)]
pub struct Request {
    method: Method,
    path: String,
    version: Version,
    headers: Headers,
    body: Option<Vec<u8>>,
}

impl View for Request {
    type V = RequestView;

    closed spec fn view(&self) -> RequestView {
        RequestView {
            method: self.method,
            path: self.path@,
            version: self.version,
            headers: self.headers.lines(),
            body: match self.body {
                Some(b) => Some(b@),
                None => None,
            },
        }
    }
}

impl Request {
    /// The request method.
    pub fn method(&self) -> (m: &Method)
        ensures
            *m == self@.method,
    {
        &self.method
    }

    /// The target path of the request.
    pub fn path(&self) -> (p: &String)
        ensures
            p@ == self@.path,
    {
        &self.path
    }

    /// The HTTP version of the request.
    pub fn version(&self) -> (v: &Version)
        ensures
            *v == self@.version,
    {
        &self.version
    }

    /// The headers of the request.
    pub fn headers(&self) -> (h: &Headers)
        ensures
            h.lines() == self@.headers,
    {
        &self.headers
    }

    /// The body of the request as bytes.
    pub fn body(&self) -> (b: Option<&Vec<u8>>)
        ensures
            match b {
                Some(v) => self@.body == Some(v@),
                None => self@.body is None,
            },
    {
        self.body.as_ref()
    }

    /// The body of the request read as UTF-8 text; nothing if there is no
    /// body or it is not valid UTF-8.
    pub fn body_as_string(&self) -> (s: Option<String>)
        ensures
            match s {
                Some(t) => self@.body is Some && vstd::utf8::valid_utf8(self@.body->Some_0)
                    && t@ == vstd::utf8::decode_utf8(self@.body->Some_0),
                None => self@.body is None || !vstd::utf8::valid_utf8(self@.body->Some_0),
            },
    {
        match self.body.as_ref() {
            Some(val) => text_of_bytes(vstd::slice::slice_to_vec(val.as_slice())),
            None => None,
        }
    }

    /// The request as text, as it would stand on the wire.
    pub fn to_string(&self) -> (s: String)
        ensures
            s@ == self@.text(),
    {
        let mut buf = String::new();
        buf.append(self.method.as_str());
        buf.append(" ");
        buf.append(self.path.as_str());
        buf.append(" ");
        buf.append(self.version.as_str());
        buf.append("\r\n");
        self.headers.write_lines(&mut buf);
        buf.append("\r\n");
        match self.body_as_string() {
            Some(body) => buf.append(body.as_str()),
            None => {},
        }
        assert(buf@ =~= self@.text());
        buf
    }
}

/// What a request builder has been given so far.
pub struct RequestParts {
    pub method: Option<Method>,
    pub path: Option<Seq<char>>,
    pub version: Option<Version>,
    pub headers: Seq<HeaderLine>,
    pub body: Option<Seq<u8>>,
}

impl RequestParts {
    /// Whether the mandatory parts (method, path, version) are all there.
    pub open spec fn complete(self) -> bool {
        self.method is Some && self.path is Some && self.version is Some
    }

    /// The request that the parts make up.
    pub open spec fn request(self) -> RequestView {
        RequestView {
            method: self.method->Some_0,
            path: self.path->Some_0,
            version: self.version->Some_0,
            headers: self.headers,
            body: self.body,
        }
    }
}

/// Builds a request part by part.
pub struct RequestBuilder {
    method: Option<Method>,
    path: Option<String>,
    version: Option<Version>,
    headers: Headers,
    body: Option<Vec<u8>>,
}

impl View for RequestBuilder {
    type V = RequestParts;

    closed spec fn view(&self) -> RequestParts {
        RequestParts {
            method: self.method,
            path: match self.path {
                Some(p) => Some(p@),
                None => None,
            },
            version: self.version,
            headers: self.headers.lines(),
            body: match self.body {
                Some(b) => Some(b@),
                None => None,
            },
        }
    }
}

impl RequestBuilder {
    /// A builder that has been given nothing.
    pub fn new() -> (b: RequestBuilder)
        ensures
            b@ == (RequestParts {
                method: None,
                path: None,
                version: None,
                headers: Seq::empty(),
                body: None,
            }),
    {
        RequestBuilder {
            method: None,
            path: None,
            version: None,
            headers: Headers::new(),
            body: None,
        }
    }

    /// Provides the method of the request.
    pub fn method(self, method: Method) -> (b: RequestBuilder)
        ensures
            b@ == (RequestParts { method: Some(method), ..self@ }),
    {
        let RequestBuilder { method: _, path, version, headers, body } = self;
        RequestBuilder { method: Some(method), path, version, headers, body }
    }

    /// Provides the path of the request.
    pub fn path(self, path: String) -> (b: RequestBuilder)
        ensures
            b@ == (RequestParts { path: Some(path@), ..self@ }),
    {
        let RequestBuilder { method, path: _, version, headers, body } = self;
        RequestBuilder { method, path: Some(path), version, headers, body }
    }

    /// Provides the version of the request.
    pub fn version(self, version: Version) -> (b: RequestBuilder)
        ensures
            b@ == (RequestParts { version: Some(version), ..self@ }),
    {
        let RequestBuilder { method, path, version: _, headers, body } = self;
        RequestBuilder { method, path, version: Some(version), headers, body }
    }

    /// Provides the headers of the request, in place of any given before.
    pub fn headers(self, headers: Headers) -> (b: RequestBuilder)
        ensures
            b@ == (RequestParts { headers: headers.lines(), ..self@ }),
    {
        let RequestBuilder { method, path, version, headers: _, body } = self;
        RequestBuilder { method, path, version, headers, body }
    }

    /// Provides the body of the request.
    pub fn body(self, body: &[u8]) -> (b: RequestBuilder)
        ensures
            b@ == (RequestParts { body: Some(body@), ..self@ }),
    {
        let RequestBuilder { method, path, version, headers, body: _ } = self;
        RequestBuilder { method, path, version, headers, body: Some(vstd::slice::slice_to_vec(body)) }
    }

    /// Builds the request. It takes a method, a path and a version; headers
    /// and body are optional.
    pub fn build(self) -> (r: Result<Request, BuildError>)
        ensures
            match r {
                Ok(req) => self@.complete() && req@ == self@.request(),
                Err(e) => !self@.complete() && e == BuildError::Incomplete,
            },
    {
        let method = match self.method {
            Some(val) => val,
            None => return Err(BuildError::Incomplete),
        };
        let path = match self.path {
            Some(val) => val,
            None => return Err(BuildError::Incomplete),
        };
        let version = match self.version {
            Some(val) => val,
            None => return Err(BuildError::Incomplete),
        };
        Ok(Request { method, path, version, headers: self.headers, body: self.body })
    }
}

impl Default for RequestBuilder {
    fn default() -> (b: RequestBuilder)
        ensures
            b@ == (RequestParts {
                method: None,
                path: None,
                version: None,
                headers: Seq::empty(),
                body: None,
            }),
    {
        RequestBuilder::new()
    }
}

} // verus!
