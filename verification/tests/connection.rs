use mini_async_http::aioserver::{
    answer, closes_connection, respond, AcceptAction, AcceptEvent, AcceptLoop, Connection, EnhancedStream,
    ReadFailure, RequestError, DEFAULT_BUF_SIZE,
};
use mini_async_http::{Method, ParseError, Request, RequestBuilder, Response, ResponseBuilder, Version};

fn http_body() -> Vec<u8> {
    b"POST / HTTP/1.1\r\nHost: localhost:8080\r\nUser-Agent: curl/7.54.0\r\nAccept: */*\r\nContent-Length: 16\r\n\r\nteststststststst"
        .to_vec()
}

fn multi_requests_bytes() -> Vec<u8> {
    let mut all = Vec::new();
    for _ in 0..14 {
        all.extend_from_slice(b"GET / HTTP/1.1\r\nHost: localhost:8080\r\n\r\n");
    }
    all
}

fn reflect(request: &Request) -> Response {
    ResponseBuilder::empty_200()
        .body(request.method().as_str().as_bytes())
        .content_type("text/plain")
        .build()
        .unwrap()
}

fn texts(responses: &[Response]) -> Vec<String> {
    responses.iter().map(|r| r.to_string()).collect()
}

const GET_REPLY: &str =
    "HTTP/1.1 200 Ok\r\nContent-Type: text/plain\r\nContent-Length: 3\r\n\r\nGET";

#[test]
fn simple_parse() {
    let mut stream = EnhancedStream::new(0);

    let mut reqs = stream.requests(Ok(&http_body())).unwrap();
    let req = reqs.pop().unwrap();

    assert_eq!(*req.method(), Method::POST);
    assert_eq!(*req.body().unwrap(), b"teststststststst");
}

#[test]
fn multi_requests() {
    let mut stream = EnhancedStream::new(0);

    let requests: Vec<Request> = stream.requests(Ok(&multi_requests_bytes())).unwrap();

    assert_eq!(14, requests.len());
}

#[test]
fn multi_async_request() {
    let task = async {
        let mut stream = EnhancedStream::new(0);

        let requests: Vec<Request> = stream.requests(Ok(&multi_requests_bytes())).unwrap();

        assert_eq!(14, requests.len());
    };

    futures::executor::block_on(task);
}

#[test]
fn the_read_buffer_size_is_eight_kibibytes() {
    assert_eq!(DEFAULT_BUF_SIZE, 8 * 1024);
}

#[test]
fn a_read_of_no_bytes_is_the_end_of_the_stream() {
    let mut stream = EnhancedStream::new(7);
    assert_eq!(stream.id(), 7);
    assert_eq!(stream.requests(Ok(b"GET / HT")).unwrap().len(), 0);
    assert_eq!(stream.requests(Ok(b"")).unwrap_err(), RequestError::EOF);
    assert_eq!(stream.pending(), 8);
}

#[test]
fn a_failed_read_is_passed_on() {
    let mut stream = EnhancedStream::new(0);
    assert_eq!(
        stream.requests(Err(ReadFailure::WouldBlock)).unwrap_err(),
        RequestError::ReadError(ReadFailure::WouldBlock)
    );
    assert_eq!(
        stream.requests(Err(ReadFailure::Broken)).unwrap_err(),
        RequestError::ReadError(ReadFailure::Broken)
    );
}

#[test]
fn bytes_that_are_no_request_give_the_parse_error() {
    let mut stream = EnhancedStream::new(0);
    let mut bytes = b"GET / HTTP/1.1\r\n\r\n".to_vec();
    bytes.extend_from_slice(b"\x01\x02 nonsense\r\n\r\n");
    assert_eq!(
        stream.requests(Ok(&bytes)).unwrap_err(),
        RequestError::ParseError(ParseError::Token)
    );
    assert_eq!(stream.pending(), bytes.len() - 18);
}

#[test]
fn an_incomplete_request_stays_in_the_buffer() {
    let mut stream = EnhancedStream::new(0);
    let mut bytes = b"GET /a HTTP/1.1\r\n\r\n".to_vec();
    bytes.extend_from_slice(b"GET /b HTT");
    let requests = stream.requests(Ok(&bytes)).unwrap();
    assert_eq!(requests.len(), 1);
    assert_eq!(requests[0].path(), "/a");
    assert_eq!(stream.pending(), 10);
    let requests = stream.requests(Ok(b"P/1.1\r\n\r\n")).unwrap();
    assert_eq!(requests.len(), 1);
    assert_eq!(requests[0].path(), "/b");
    assert_eq!(stream.pending(), 0);
    assert_eq!(stream.parse_buf().unwrap().len(), 0);
}

#[test]
fn get_is_reflected_with_the_exact_response() {
    let mut connection = Connection::new(1);
    let step = connection.on_read(Ok(b"GET / HTTP/1.1\r\nHost: x\r\n\r\n"), &reflect);
    assert!(!step.close);
    assert_eq!(texts(&step.responses), vec![String::from(GET_REPLY)]);
    assert_eq!(connection.pending(), 0);
    assert_eq!(connection.id(), 1);
}

#[test]
fn post_with_body_is_answered_with_post() {
    let mut connection = Connection::new(1);
    let step = connection
        .on_read(Ok(b"POST / HTTP/1.1\r\nContent-Length: 11\r\n\r\nRequestBody"), &reflect);
    assert!(!step.close);
    assert_eq!(step.responses.len(), 1);
    assert_eq!(step.responses[0].body().unwrap(), b"POST");
    assert_eq!(step.responses[0].body_as_string().unwrap(), "POST");
}

#[test]
fn fourteen_pipelined_requests_get_fourteen_responses_in_order() {
    let mut bytes = Vec::new();
    for i in 0..14 {
        bytes.extend_from_slice(format!("GET /{} HTTP/1.1\r\n\r\n", i).as_bytes());
    }
    let mut connection = Connection::new(1);
    let step = connection.on_read(Ok(&bytes), &|request: &Request| {
        ResponseBuilder::empty_200().body(request.path().as_bytes()).build().unwrap()
    });
    assert!(!step.close);
    assert_eq!(step.responses.len(), 14);
    for (i, response) in step.responses.iter().enumerate() {
        assert_eq!(response.body_as_string().unwrap(), format!("/{}", i));
    }
}

#[test]
fn an_interrupted_request_is_answered_once() {
    let message = b"GET / HTTP/1.1\r\nHost: x\r\n\r\n";
    let (first, second) = message.split_at(message.len() / 2);
    let mut connection = Connection::new(1);
    let step = connection.on_read(Ok(first), &reflect);
    assert!(!step.close);
    assert!(step.responses.is_empty());
    let step = connection.on_read(Err(ReadFailure::WouldBlock), &reflect);
    assert!(!step.close);
    assert!(step.responses.is_empty());
    let step = connection.on_read(Ok(second), &reflect);
    assert!(!step.close);
    assert_eq!(texts(&step.responses), vec![String::from(GET_REPLY)]);
}

#[test]
fn a_request_written_byte_by_byte_is_answered_once() {
    let message = b"POST /p HTTP/1.1\r\nContent-Length: 5\r\n\r\nhello";
    let mut connection = Connection::new(1);
    let mut answered = Vec::new();
    for byte in message.iter() {
        let step = connection.on_read(Ok(&[*byte]), &reflect);
        assert!(!step.close);
        answered.extend(step.responses);
    }
    assert_eq!(answered.len(), 1);
    assert_eq!(answered[0].body_as_string().unwrap(), "POST");
    assert_eq!(connection.pending(), 0);
}

#[test]
fn a_close_header_closes_after_the_response() {
    let mut connection = Connection::new(1);
    let step = connection.on_read(
        Ok(b"POST / HTTP/1.1\r\nContent-length: 4\r\nCONNECTION: close\r\n\r\nTEST"),
        &reflect,
    );
    assert!(step.close);
    assert_eq!(step.responses.len(), 1);
    assert_eq!(step.responses[0].code(), 200);
    assert_eq!(step.responses[0].body_as_string().unwrap(), "POST");
}

#[test]
fn requests_behind_a_close_header_get_no_response() {
    let mut bytes = b"GET /1 HTTP/1.1\r\n\r\n".to_vec();
    bytes.extend_from_slice(b"GET /2 HTTP/1.1\r\nconnection: close\r\n\r\n");
    bytes.extend_from_slice(b"GET /3 HTTP/1.1\r\n\r\n");
    let mut connection = Connection::new(1);
    let step = connection.on_read(Ok(&bytes), &reflect);
    assert!(step.close);
    assert_eq!(step.responses.len(), 2);
}

#[test]
fn keep_alive_does_not_close() {
    let mut connection = Connection::new(1);
    let step = connection
        .on_read(Ok(b"GET / HTTP/1.1\r\nConnection: Keep-Alive\r\n\r\n"), &reflect);
    assert!(!step.close);
    assert_eq!(step.responses.len(), 1);
}

#[test]
fn only_the_exact_value_close_closes() {
    let mut connection = Connection::new(1);
    for other in ["Close", "CLOSE", "closed", "keep-alive"] {
        let bytes = format!("GET / HTTP/1.1\r\nConnection: {}\r\nX: y\r\n\r\n", other);
        let step = connection.on_read(Ok(bytes.as_bytes()), &reflect);
        assert!(!step.close);
        assert_eq!(step.responses.len(), 1);
    }
    let step = connection.on_read(Ok(b"GET / HTTP/1.1\r\nconnection: close\r\n\r\n"), &reflect);
    assert!(step.close);
}

#[test]
fn the_end_of_the_stream_and_failures_close_the_connection() {
    let mut connection = Connection::new(1);
    let step = connection.on_read(Ok(b""), &reflect);
    assert!(step.close && step.responses.is_empty());
    let step = connection.on_read(Err(ReadFailure::Broken), &reflect);
    assert!(step.close && step.responses.is_empty());
    let step = connection.on_read(Ok(b"\x00garbage\r\n\r\n"), &reflect);
    assert!(step.close && step.responses.is_empty());
}

#[test]
fn twenty_connections_of_twenty_requests_get_four_hundred_responses() {
    let mut connections: Vec<Connection> = (0..20).map(Connection::new).collect();
    let mut total = 0;
    for _round in 0..20 {
        for connection in connections.iter_mut() {
            let step = connection
                .on_read(Ok(b"GET / HTTP/1.1\r\nConnection: Keep-Alive\r\n\r\n"), &reflect);
            assert!(!step.close);
            for response in step.responses.iter() {
                assert_eq!(response.body_as_string().unwrap(), "GET");
                total += 1;
            }
        }
    }
    assert_eq!(total, 400);
}

#[test]
fn respond_answers_each_request_with_the_handlers_response() {
    let build = |method: Method, path: &str| {
        RequestBuilder::new()
            .method(method)
            .path(String::from(path))
            .version(Version::HTTP11)
            .build()
            .unwrap()
    };
    let requests = vec![build(Method::GET, "/a"), build(Method::DELETE, "/b")];
    let replies = respond(&requests, &reflect);
    assert!(!replies.close);
    assert_eq!(replies.responses.len(), 2);
    assert_eq!(replies.responses[0].body_as_string().unwrap(), "GET");
    assert_eq!(replies.responses[1].body_as_string().unwrap(), "DELETE");
    assert!(!closes_connection(&requests[0]));
    assert!(respond(&Vec::new(), &reflect).responses.is_empty());
}

#[test]
fn the_accept_loop_spawns_until_it_is_stopped() {
    let mut accept = AcceptLoop::new();
    assert!(accept.is_running());
    assert_eq!(accept.on_event(AcceptEvent::Accepted), AcceptAction::Spawn);
    assert_eq!(accept.on_event(AcceptEvent::Accepted), AcceptAction::Spawn);
    assert_eq!(accept.on_event(AcceptEvent::Stop), AcceptAction::Exit);
    assert!(!accept.is_running());
    assert_eq!(accept.on_event(AcceptEvent::Accepted), AcceptAction::Exit);
    assert_eq!(accept.on_event(AcceptEvent::Stop), AcceptAction::Exit);
    let mut failing = AcceptLoop::new();
    assert_eq!(failing.on_event(AcceptEvent::Failed), AcceptAction::Exit);
    assert_eq!(failing.on_event(AcceptEvent::Accepted), AcceptAction::Exit);
}

#[test]
fn a_read_is_taken_in_before_anything_is_answered() {
    let mut connection = Connection::new(4);
    let mut bytes = b"GET /1 HTTP/1.1\r\n\r\n".to_vec();
    bytes.extend_from_slice(b"GET /2 HTTP/1.1\r\nConnection: close\r\n\r\nGET /3 HT");
    let intake = connection.take_in(Ok(&bytes));
    assert!(!intake.close);
    assert_eq!(intake.requests.len(), 2);
    assert_eq!(connection.pending(), 9);
    let first = answer(&intake.requests[0], &reflect);
    assert!(!first.close);
    assert_eq!(first.response.to_string(), GET_REPLY);
    let second = answer(&intake.requests[1], &reflect);
    assert!(second.close);
    assert_eq!(second.response.body_as_string().unwrap(), "GET");
}

#[test]
fn a_read_that_ends_the_connection_brings_no_request() {
    let mut connection = Connection::new(4);
    let waiting = connection.take_in(Err(ReadFailure::WouldBlock));
    assert!(!waiting.close && waiting.requests.is_empty());
    let ended = connection.take_in(Ok(b""));
    assert!(ended.close && ended.requests.is_empty());
    let broken = connection.take_in(Err(ReadFailure::Broken));
    assert!(broken.close && broken.requests.is_empty());
    let nonsense = connection.take_in(Ok(b"GET / HTTP/1.1\r\n\r\n\x00\x01\r\n\r\n"));
    assert!(nonsense.close && nonsense.requests.is_empty());
}
