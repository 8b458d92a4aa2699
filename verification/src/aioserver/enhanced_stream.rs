use vstd::prelude::*;
use crate::http::ParseError;
use crate::request::{lemma_parsed_length, parse_spec, Request, RequestParser, RequestView};

verus! {

/// The size of the buffer that one read from a connection fills.
pub const DEFAULT_BUF_SIZE: usize = 8192;

/// Why a read from the connection brought no bytes.
#[derive(Debug, Clone, Copy, PartialEq, Eq, Structural)]
pub enum ReadFailure {
    /// Nothing is there yet; the connection is still open.
    WouldBlock,
    /// The connection failed.
    Broken,
}

/// Why no requests could be taken from a connection.
#[derive(Debug, Clone, Copy, PartialEq, Eq, Structural)]
pub enum RequestError {
    /// The peer closed the connection.
    EOF,
    /// The read failed.
    ReadError(ReadFailure),
    /// The bytes received are no HTTP request.
    ParseError(ParseError),
}

/// What draining a buffer yields: the requests read from its beginning, the
/// bytes left behind them, and the error that stopped the reading, if one did.
pub struct Drained {
    pub requests: Seq<RequestView>,
    pub rest: Seq<u8>,
    pub error: Option<ParseError>,
}

/// Drains a buffer of pipelined requests: requests are read from the
/// beginning one after the other, each taking its bytes, until the buffer is
/// empty, holds only the beginning of a request, or holds bytes that are no
/// request.
pub open spec fn drain_spec(buf: Seq<u8>) -> Drained
    decreases buf.len(),
{
    match parse_spec(buf) {
        Ok((request, n)) => {
            let rest = buf.skip(n as int);
            if 0 < n < buf.len() {
                let d = drain_spec(rest);
                Drained { requests: seq![request] + d.requests, rest: d.rest, error: d.error }
            } else {
                Drained { requests: seq![request], rest: rest, error: None }
            }
        },
        Err(e) => Drained {
            requests: Seq::empty(),
            rest: buf,
            error: if e.is_need_more() {
                None
            } else {
                Some(e)
            },
        },
    }
}

/// What each request of a list holds.
pub open spec fn request_views(requests: Seq<Request>) -> Seq<RequestView> {
    Seq::new(requests.len(), |i: int| requests[i]@)
}

/// The read side of one connection: the bytes received and not yet parsed.
/// Requests are parsed from the beginning of the buffer; what is parsed
/// leaves the buffer, and an incomplete request stays until more arrives.
pub struct EnhancedStream {
    id: usize,
    parser: RequestParser,
    read: Vec<u8>,
}

impl EnhancedStream {
    /// The bytes received and not yet parsed.
    pub closed spec fn buffer(&self) -> Seq<u8> {
        self.read@
    }

    /// The identifier of the connection.
    pub closed spec fn ident(&self) -> usize {
        self.id
    }

    /// The read side of connection `id`, with nothing received.
    pub fn new(id: usize) -> (s: EnhancedStream)
        ensures
            s.ident() == id,
            s.buffer() == Seq::<u8>::empty(),
    {
        EnhancedStream { id, parser: RequestParser::new(), read: Vec::new() }
    }

    /// The identifier of the connection.
    pub fn id(&self) -> (id: usize)
        ensures
            id == self.ident(),
    {
        self.id
    }

    /// How many bytes wait in the buffer.
    pub fn pending(&self) -> (n: usize)
        ensures
            n == self.buffer().len(),
    {
        self.read.len()
    }

    /// Takes every complete request from the beginning of the buffer.
    ///
    /// The requests come back in the order of their bytes. Bytes that are
    /// only the beginning of a request stay in the buffer. Bytes that are no
    /// request give the parser's error, and the requests read before them are
    /// dropped with it.
    pub fn parse_buf(&mut self) -> (r: Result<Vec<Request>, RequestError>)
        ensures
            final(self).ident() == old(self).ident(),
            final(self).buffer() == drain_spec(old(self).buffer()).rest,
            match drain_spec(old(self).buffer()).error {
                Some(e) => r == Err::<Vec<Request>, RequestError>(RequestError::ParseError(e)),
                None => r is Ok && request_views(r->Ok_0@) == drain_spec(
                    old(self).buffer(),
                ).requests,
            },
    {
        let mut requests: Vec<Request> = Vec::new();
        let ghost whole = drain_spec(self.read@);
        assert(request_views(requests@) =~= Seq::<RequestView>::empty());
        loop
            invariant
                self.id == old(self).id,
                whole == drain_spec(old(self).read@),
                whole.requests == request_views(requests@) + drain_spec(self.read@).requests,
                whole.rest == drain_spec(self.read@).rest,
                whole.error == drain_spec(self.read@).error,
            decreases self.read.len(),
        {
            let ghost buf = self.read@;
            let ghost before = request_views(requests@);
            match self.parser.parse_u8(self.read.as_slice()) {
                Ok((req, n)) => {
                    proof {
                        lemma_parsed_length(buf);
                    }
                    requests.push(req);
                    let rest = self.read.split_off(n);
                    self.read = rest;
                    proof {
                        assert(self.read@ =~= buf.skip(n as int));
                        assert(request_views(requests@) =~= before + seq![req@]);
                    }
                    if self.read.is_empty() {
                        assert(whole.requests =~= request_views(requests@));
                        return Ok(requests);
                    }
                    assert(whole.requests =~= request_views(requests@) + drain_spec(
                        self.read@,
                    ).requests);
                },
                Err(e) => {
                    assert(whole.requests =~= request_views(requests@));
                    if e.need_more() {
                        return Ok(requests);
                    }
                    return Err(RequestError::ParseError(e));
                },
            }
        }
    }

    /// Takes in what a read from the connection brought and returns the
    /// requests that are now complete.
    ///
    /// A read of no bytes is the end of the connection; a failed read is
    /// passed on. Either way the buffer stays as it is. Bytes are appended to
    /// the buffer, which is then drained as `parse_buf` does.
    pub fn requests(&mut self, read: Result<&[u8], ReadFailure>) -> (r: Result<
        Vec<Request>,
        RequestError,
    >)
        ensures
            final(self).ident() == old(self).ident(),
            match read {
                Err(failure) => {
                    &&& r == Err::<Vec<Request>, RequestError>(RequestError::ReadError(failure))
                    &&& final(self).buffer() == old(self).buffer()
                },
                Ok(bytes) => if bytes@.len() == 0 {
                    &&& r == Err::<Vec<Request>, RequestError>(RequestError::EOF)
                    &&& final(self).buffer() == old(self).buffer()
                } else {
                    let d = drain_spec(old(self).buffer() + bytes@);
                    &&& final(self).buffer() == d.rest
                    &&& match d.error {
                        Some(e) => r == Err::<Vec<Request>, RequestError>(
                            RequestError::ParseError(e),
                        ),
                        None => r is Ok && request_views(r->Ok_0@) == d.requests,
                    }
                },
            },
    {
        match read {
            Ok(bytes) => {
                if bytes.len() == 0 {
                    return Err(RequestError::EOF);
                }
                self.read.extend_from_slice(bytes);
                assert(self.read@ =~= old(self).read@ + bytes@);
                self.parse_buf()
            },
            Err(failure) => Err(RequestError::ReadError(failure)),
        }
    }
}

} // verus!
