use vstd::prelude::*;
use crate::http::method::str_eq;
use crate::http::text::ascii_lower;
use crate::http::line_map;
use crate::request::{Request, RequestView};
use crate::response::Response;
use super::enhanced_stream::{
    drain_spec, request_views, EnhancedStream, ReadFailure, RequestError,
};

verus! {

/// Whether a request asks for the connection to be closed after its
/// response: it has a `Connection` header, under any spelling of the name,
/// whose value is `close`.
pub open spec fn wants_close(request: RequestView) -> bool {
    let map = line_map(request.headers);
    map.contains_key(ascii_lower("Connection"@)) && map[ascii_lower("Connection"@)] == "close"@
}

/// Whether request `i` is the first of the list that asks for the
/// connection to be closed.
pub open spec fn closing_at(requests: Seq<RequestView>, i: int) -> bool {
    &&& 0 <= i < requests.len()
    &&& wants_close(requests[i])
    &&& forall|j: int| 0 <= j < i ==> !wants_close(#[trigger] requests[j])
}

/// Whether some request of the list asks for the connection to be closed.
pub open spec fn closes(requests: Seq<RequestView>) -> bool {
    exists|i: int| closing_at(requests, i)
}

/// How many requests of the list are answered: all of them up to and
/// including the first that asks for the connection to be closed.
pub open spec fn served_count(requests: Seq<RequestView>) -> int {
    if closes(requests) {
        (choose|i: int| closing_at(requests, i)) + 1
    } else {
        requests.len() as int
    }
}

/// Only one request can be the first to ask for the connection to be closed.
pub proof fn lemma_closing_unique(requests: Seq<RequestView>, i: int)
    requires
        closing_at(requests, i),
    ensures
        closes(requests),
        served_count(requests) == i + 1,
{
    let k = choose|k: int| closing_at(requests, k);
    if k < i {
        assert(!wants_close(requests[k]));
    }
    if i < k {
        assert(!wants_close(requests[i]));
    }
}

/// Whether a request asks for the connection to be closed.
pub fn closes_connection(request: &Request) -> (r: bool)
    ensures
        r == wants_close(request@),
{
    match request.headers().get_header("Connection") {
        Some(value) => str_eq(value.as_str(), "close"),
        None => false,
    }
}

/// The answer to one request.
pub struct Reply {
    /// The handler's response, to be written to the connection.
    pub response: Response,
    /// Whether the connection is to be closed once the response is written.
    pub close: bool,
}

/// Answers one request: the handler's response, and whether the request
/// asks for the connection to be closed behind it.
pub fn answer<H: Fn(&Request) -> Response>(request: &Request, handler: &H) -> (reply: Reply)
    requires
        handler.requires((request,)),
    ensures
        handler.ensures((request,), reply.response),
        reply.close == wants_close(request@),
{
    let response = handler(request);
    Reply { response, close: closes_connection(request) }
}

/// The answers to a batch of requests.
pub struct Replies {
    /// One response for each request answered, in the order of the requests.
    pub responses: Vec<Response>,
    /// Whether the connection is to be closed once the responses are written.
    pub close: bool,
}

/// Answers the requests of one batch in their order. Each request up to and
/// including the first that asks for the connection to be closed gets the
/// handler's response; the requests behind that one get none.
pub fn respond<H: Fn(&Request) -> Response>(requests: &Vec<Request>, handler: &H) -> (r: Replies)
    requires
        forall|request: &Request| #[trigger] handler.requires((request,)),
    ensures
        r.responses.len() == served_count(request_views(requests@)),
        r.close == closes(request_views(requests@)),
        forall|i: int|
            0 <= i < r.responses.len() ==> handler.ensures((&requests[i],), #[trigger] r.responses[i]),
{
    let ghost views = request_views(requests@);
    let mut responses: Vec<Response> = Vec::new();
    let mut i: usize = 0;
    while i < requests.len()
        invariant
            i <= requests.len(),
            views == request_views(requests@),
            responses.len() == i,
            forall|request: &Request| #[trigger] handler.requires((request,)),
            forall|j: int| 0 <= j < i ==> !wants_close(#[trigger] views[j]),
            forall|j: int|
                0 <= j < i ==> handler.ensures((&requests[j],), #[trigger] responses[j]),
        decreases requests.len() - i,
    {
        let request = &requests[i];
        let reply = answer(request, handler);
        responses.push(reply.response);
        assert(views[i as int] == request@);
        if reply.close {
            proof {
                lemma_closing_unique(views, i as int);
            }
            return Replies { responses, close: true };
        }
        i = i + 1;
    }
    proof {
        if closes(views) {
            let k = choose|k: int| closing_at(views, k);
            assert(!wants_close(views[k]));
        }
    }
    Replies { responses, close: false }
}

/// One connection of the server, between its reads.
pub struct Connection {
    stream: EnhancedStream,
}

/// What the server does after a read from a connection.
pub struct Step {
    /// The responses to write, in order.
    pub responses: Vec<Response>,
    /// Whether the connection is to be closed once they are written.
    pub close: bool,
}

/// What a read brought to a connection.
pub struct Intake {
    /// The requests that are now complete, in the order of their bytes.
    pub requests: Vec<Request>,
    /// Whether the read ends the connection: the stream has ended or
    /// failed, or the bytes are no request.
    pub close: bool,
}

impl Connection {
    /// The bytes received and not yet parsed.
    pub closed spec fn buffer(&self) -> Seq<u8> {
        self.stream.buffer()
    }

    /// The identifier of the connection.
    pub closed spec fn ident(&self) -> usize {
        self.stream.ident()
    }

    /// A connection on which nothing was received yet.
    pub fn new(id: usize) -> (c: Connection)
        ensures
            c.ident() == id,
            c.buffer() == Seq::<u8>::empty(),
    {
        Connection { stream: EnhancedStream::new(id) }
    }

    /// The identifier of the connection.
    pub fn id(&self) -> (id: usize)
        ensures
            id == self.ident(),
    {
        self.stream.id()
    }

    /// How many bytes wait in the buffer.
    pub fn pending(&self) -> (n: usize)
        ensures
            n == self.buffer().len(),
    {
        self.stream.pending()
    }

    /// Takes in what a read from the connection brought.
    ///
    /// A read that would block changes nothing: the task waits for the next
    /// readiness. The end of the stream and any other failure end the
    /// connection. Bytes join the buffer, and every request that is now
    /// complete leaves it; bytes that are no request end the connection,
    /// and the requests read before them are dropped.
    pub fn take_in(&mut self, read: Result<&[u8], ReadFailure>) -> (intake: Intake)
        ensures
            final(self).ident() == old(self).ident(),
            match read {
                Err(failure) => {
                    &&& intake.requests.len() == 0
                    &&& intake.close == (failure != ReadFailure::WouldBlock)
                    &&& final(self).buffer() == old(self).buffer()
                },
                Ok(bytes) => if bytes@.len() == 0 {
                    &&& intake.requests.len() == 0
                    &&& intake.close
                    &&& final(self).buffer() == old(self).buffer()
                } else {
                    let d = drain_spec(old(self).buffer() + bytes@);
                    &&& final(self).buffer() == d.rest
                    &&& match d.error {
                        Some(_) => intake.requests.len() == 0 && intake.close,
                        None => request_views(intake.requests@) == d.requests && !intake.close,
                    }
                },
            },
    {
        match self.stream.requests(read) {
            Ok(requests) => Intake { requests, close: false },
            Err(RequestError::ReadError(ReadFailure::WouldBlock)) => Intake {
                requests: Vec::new(),
                close: false,
            },
            Err(_) => Intake { requests: Vec::new(), close: true },
        }
    }

    /// Decides what follows a read from the connection.
    ///
    /// The read is taken in as `take_in` does. Every request that is now
    /// complete is answered in order, as `respond` does; bytes that are no
    /// request close the connection without a response. The connection is
    /// also closed after the response to a request that asks for it.
    pub fn on_read<H: Fn(&Request) -> Response>(
        &mut self,
        read: Result<&[u8], ReadFailure>,
        handler: &H,
    ) -> (step: Step)
        requires
            forall|request: &Request| #[trigger] handler.requires((request,)),
        ensures
            final(self).ident() == old(self).ident(),
            match read {
                Err(failure) => {
                    &&& step.responses.len() == 0
                    &&& step.close == (failure != ReadFailure::WouldBlock)
                    &&& final(self).buffer() == old(self).buffer()
                },
                Ok(bytes) => if bytes@.len() == 0 {
                    &&& step.responses.len() == 0
                    &&& step.close
                    &&& final(self).buffer() == old(self).buffer()
                } else {
                    let d = drain_spec(old(self).buffer() + bytes@);
                    &&& final(self).buffer() == d.rest
                    &&& match d.error {
                        Some(_) => step.responses.len() == 0 && step.close,
                        None => {
                            &&& step.responses.len() == served_count(d.requests)
                            &&& step.close == closes(d.requests)
                            &&& exists|requests: Seq<Request>|
                                {
                                    &&& #[trigger] request_views(requests) == d.requests
                                    &&& forall|i: int|
                                        0 <= i < step.responses.len() ==> handler.ensures(
                                            (&requests[i],),
                                            #[trigger] step.responses[i],
                                        )
                                }
                        },
                    }
                },
            },
    {
        let intake = self.take_in(read);
        if intake.close {
            return Step { responses: Vec::new(), close: true };
        }
        let replies = respond(&intake.requests, handler);
        proof {
            if intake.requests.len() == 0 {
                assert(request_views(intake.requests@) =~= Seq::<RequestView>::empty());
                assert(!closes(request_views(intake.requests@)));
            }
        }
        Step { responses: replies.responses, close: replies.close }
    }
}

/// What happens in the accept loop.
#[derive(Debug, Clone, Copy, PartialEq, Eq, Structural)]
pub enum AcceptEvent {
    /// A connection was accepted.
    Accepted,
    /// Accepting failed.
    Failed,
    /// The stop signal arrived.
    Stop,
}

/// What the accept loop does next.
#[derive(Debug, Clone, Copy, PartialEq, Eq, Structural)]
pub enum AcceptAction {
    /// Hand the accepted connection to a task of its own and go on accepting.
    Spawn,
    /// Leave the loop.
    Exit,
}

/// The accept loop of the server, between its events.
#[derive(Debug, Clone, Copy, PartialEq, Eq, Structural)]
pub struct AcceptLoop {
    /// Whether the loop still accepts connections.
    pub running: bool,
}

impl AcceptLoop {
    /// The action that an event leads to in a given state, and the state after it.
    pub open spec fn next(self, event: AcceptEvent) -> (AcceptLoop, AcceptAction) {
        if self.running && event == AcceptEvent::Accepted {
            (self, AcceptAction::Spawn)
        } else {
            (AcceptLoop { running: false }, AcceptAction::Exit)
        }
    }

    /// The actions that a run of events leads to, one for each event.
    pub open spec fn run(self, events: Seq<AcceptEvent>) -> Seq<AcceptAction>
        decreases events.len(),
    {
        if events.len() == 0 {
            Seq::empty()
        } else {
            seq![self.next(events[0]).1] + self.next(events[0]).0.run(events.skip(1))
        }
    }

    /// A loop that accepts connections.
    pub fn new() -> (l: AcceptLoop)
        ensures
            l.running,
    {
        AcceptLoop { running: true }
    }

    /// Whether the loop still accepts connections.
    pub fn is_running(&self) -> (r: bool)
        ensures
            r == self.running,
    {
        self.running
    }

    /// Decides what follows an event. While the loop runs, an accepted
    /// connection is spawned as a task; a failure to accept and the stop
    /// signal end the loop. Once it has ended, nothing is spawned any more.
    pub fn on_event(&mut self, event: AcceptEvent) -> (action: AcceptAction)
        ensures
            (*final(self), action) == old(self).next(event),
    {
        if self.running {
            match event {
                AcceptEvent::Accepted => {
                    return AcceptAction::Spawn;
                },
                _ => {},
            }
        }
        self.running = false;
        AcceptAction::Exit
    }
}

/// After the loop has stopped, whatever happens, no connection is spawned.
pub proof fn lemma_stopped_spawns_nothing(state: AcceptLoop, events: Seq<AcceptEvent>)
    requires
        !state.running,
    ensures
        state.run(events).len() == events.len(),
        forall|i: int| 0 <= i < events.len() ==> state.run(events)[i] == AcceptAction::Exit,
    decreases events.len(),
{
    if events.len() > 0 {
        lemma_stopped_spawns_nothing(state.next(events[0]).0, events.skip(1));
    }
}

/// From the stop signal on, whatever happens, no connection is spawned.
pub proof fn lemma_nothing_spawned_after_stop(
    state: AcceptLoop,
    events: Seq<AcceptEvent>,
    stop: int,
)
    requires
        0 <= stop < events.len(),
        events[stop] == AcceptEvent::Stop,
    ensures
        state.run(events).len() == events.len(),
        forall|i: int| stop <= i < events.len() ==> state.run(events)[i] == AcceptAction::Exit,
    decreases events.len(),
{
    let after = state.next(events[0]).0;
    let rest = events.skip(1);
    if stop == 0 {
        lemma_stopped_spawns_nothing(after, rest);
    } else {
        lemma_nothing_spawned_after_stop(after, rest, stop - 1);
        assert forall|i: int| stop <= i < events.len() implies state.run(events)[i]
            == AcceptAction::Exit by {
            assert(state.run(events)[i] == after.run(rest)[i - 1]);
        }
    }
}

} // verus!
