use vstd::prelude::*;
use crate::request::{is_message, lemma_parsed_length, parse_spec, RequestView};
use super::enhanced_stream::{drain_spec, Drained};
use super::server::{closes, closing_at, served_count};

verus! {

/// The messages of a sequence written one behind the other.
pub open spec fn joined(messages: Seq<Seq<u8>>) -> Seq<u8>
    decreases messages.len(),
{
    if messages.len() == 0 {
        Seq::empty()
    } else {
        messages[0] + joined(messages.skip(1))
    }
}

/// What a connection yields on a run of reads, each read bringing one chunk
/// of bytes, from a given buffer on: the requests of all the reads in order,
/// the bytes left in the buffer, and the error at which the connection was
/// closed, if there was one.
pub open spec fn feed_all(buffer: Seq<u8>, chunks: Seq<Seq<u8>>) -> Drained
    decreases chunks.len(),
{
    if chunks.len() == 0 {
        Drained { requests: Seq::empty(), rest: buffer, error: None }
    } else {
        let d = drain_spec(buffer + chunks[0]);
        if d.error is Some {
            d
        } else {
            let later = feed_all(d.rest, chunks.skip(1));
            Drained { requests: d.requests + later.requests, rest: later.rest, error: later.error }
        }
    }
}

/// Pipelined requests come out one for one and in order: a buffer that
/// holds complete requests back to back drains to exactly those requests,
/// in the order of their bytes, and nothing is left.
pub proof fn lemma_pipeline_in_order(messages: Seq<Seq<u8>>, requests: Seq<RequestView>)
    requires
        messages.len() == requests.len(),
        messages.len() > 0,
        forall|i: int| 0 <= i < messages.len() ==> is_message(#[trigger] messages[i], requests[i]),
    ensures
        drain_spec(joined(messages)) == (Drained {
            requests: requests,
            rest: Seq::empty(),
            error: None,
        }),
    decreases messages.len(),
{
    let first = messages[0];
    let later = messages.skip(1);
    let buffer = joined(messages);
    assert(is_message(first, requests[0]));
    assert(parse_spec(first + joined(later)) == Ok::<(RequestView, nat), crate::http::ParseError>(
        (requests[0], first.len()),
    ));
    lemma_parsed_length(buffer);
    assert(buffer.skip(first.len() as int) =~= joined(later));
    if later.len() == 0 {
        assert(joined(later) =~= Seq::<u8>::empty());
        assert(buffer.len() == first.len());
        assert(requests =~= seq![requests[0]]);
    } else {
        assert forall|i: int| 0 <= i < later.len() implies is_message(
            #[trigger] later[i],
            requests.skip(1)[i],
        ) by {
            assert(later[i] == messages[i + 1]);
        }
        lemma_pipeline_in_order(later, requests.skip(1));
        let second = later[0];
        assert(is_message(second, requests.skip(1)[0]));
        assert(parse_spec(second + joined(later.skip(1))) is Ok);
        lemma_parsed_length(joined(later));
        assert(buffer.len() > first.len());
        assert(requests =~= seq![requests[0]] + requests.skip(1));
    }
}

/// A batch in which no request asks for the connection to be closed is
/// answered whole: one response for each request.
pub proof fn lemma_keep_alive_serves_all(requests: Seq<RequestView>)
    requires
        forall|i: int| 0 <= i < requests.len() ==> !super::server::wants_close(#[trigger] requests[i]),
    ensures
        !closes(requests),
        served_count(requests) == requests.len(),
{
    if closes(requests) {
        let k = choose|k: int| closing_at(requests, k);
        assert(super::server::wants_close(requests[k]));
    }
}

/// Pipelined requests are answered one for one: when a buffer holds
/// complete requests back to back and none of them asks for the connection
/// to be closed, as many responses are written as there are requests, and
/// the connection stays open.
pub proof fn lemma_pipeline_answered_whole(messages: Seq<Seq<u8>>, requests: Seq<RequestView>)
    requires
        messages.len() == requests.len(),
        messages.len() > 0,
        forall|i: int| 0 <= i < messages.len() ==> is_message(#[trigger] messages[i], requests[i]),
        forall|i: int| 0 <= i < requests.len() ==> !super::server::wants_close(#[trigger] requests[i]),
    ensures
        drain_spec(joined(messages)).error is None,
        served_count(drain_spec(joined(messages)).requests) == messages.len(),
        !closes(drain_spec(joined(messages)).requests),
{
    lemma_pipeline_in_order(messages, requests);
    lemma_keep_alive_serves_all(requests);
}

/// A request that arrives in pieces is delivered exactly once: when the
/// bytes of one complete request reach an empty connection in any number of
/// reads, each bringing at least one byte, the reads together yield that
/// request and no other, and nothing is left in the buffer.
pub proof fn lemma_delivered_once(message: Seq<u8>, request: RequestView, chunks: Seq<Seq<u8>>)
    requires
        is_message(message, request),
        joined(chunks) == message,
        forall|i: int| 0 <= i < chunks.len() ==> (#[trigger] chunks[i]).len() > 0,
    ensures
        feed_all(Seq::empty(), chunks) == (Drained {
            requests: seq![request],
            rest: Seq::empty(),
            error: None,
        }),
{
    assert(message.take(0) =~= Seq::<u8>::empty());
    assert(message.skip(0) =~= message);
    assert(parse_spec(message + Seq::<u8>::empty()) is Ok);
    assert(message + Seq::<u8>::empty() =~= message);
    lemma_parsed_length(message);
    lemma_delivered_from(message, request, chunks, 0);
}

/// The same for a connection that already holds the first `k` bytes of the
/// request, the reads bringing the others.
proof fn lemma_delivered_from(
    message: Seq<u8>,
    request: RequestView,
    chunks: Seq<Seq<u8>>,
    k: int,
)
    requires
        is_message(message, request),
        0 <= k < message.len(),
        joined(chunks) == message.skip(k),
        forall|i: int| 0 <= i < chunks.len() ==> (#[trigger] chunks[i]).len() > 0,
    ensures
        feed_all(message.take(k), chunks) == (Drained {
            requests: seq![request],
            rest: Seq::empty(),
            error: None,
        }),
    decreases chunks.len(),
{
    if chunks.len() == 0 {
        assert(joined(chunks).len() == 0);
        assert(message.skip(k).len() > 0);
    } else {
        let chunk = chunks[0];
        let later = chunks.skip(1);
        let reach = k + chunk.len();
        assert(message.skip(k) == chunk + joined(later));
        assert(reach <= message.len()) by {
            assert(message.skip(k).len() == chunk.len() + joined(later).len());
        }
        let buffer = message.take(k) + chunk;
        assert(buffer =~= message.take(reach)) by {
            assert(chunk =~= message.skip(k).take(chunk.len() as int));
        }
        assert(joined(later) =~= message.skip(reach)) by {
            assert(joined(later) =~= message.skip(k).skip(chunk.len() as int));
        }
        if reach < message.len() {
            assert(parse_spec(message.take(reach)) == Err::<
                (RequestView, nat),
                crate::http::ParseError,
            >(crate::http::ParseError::UnexpectedEnd));
            let d = drain_spec(buffer);
            assert(d.requests =~= Seq::<RequestView>::empty());
            assert(d.error is None);
            assert(d.rest == message.take(reach));
            lemma_delivered_from(message, request, later, reach);
            let tail = feed_all(d.rest, later);
            assert(d.requests + tail.requests =~= seq![request]);
            assert(feed_all(message.take(k), chunks).requests == seq![request]);
        } else {
            assert(message.take(reach) =~= message);
            assert(message + Seq::<u8>::empty() =~= message);
            assert(parse_spec(message + Seq::<u8>::empty()) == Ok::<
                (RequestView, nat),
                crate::http::ParseError,
            >((request, message.len())));
            let d = drain_spec(buffer);
            assert(buffer.skip(message.len() as int) =~= Seq::<u8>::empty());
            assert(d.requests =~= seq![request]);
            assert(d.rest =~= Seq::<u8>::empty());
            assert(later.len() == 0) by {
                if later.len() > 0 {
                    assert(later[0] == chunks[1]);
                    assert(joined(later).len() >= later[0].len());
                }
            }
            assert(d.error is None);
            let tail = feed_all(d.rest, later);
            assert(tail.requests == Seq::<RequestView>::empty());
            assert(d.requests + tail.requests =~= seq![request]);
            assert(feed_all(message.take(k), chunks).requests == seq![request]);
            assert(feed_all(message.take(k), chunks).rest == Seq::<u8>::empty());
        }
    }
}

} // verus!
