use mini_async_http::http::text::parse_code;
use mini_async_http::http::Parser;
use mini_async_http::response::ResponseParser;
use mini_async_http::{ParseError, Version};

fn response_bytes() -> Vec<u8> {
    b"HTTP/1.1 200 OK\r\nContent-Type: text/plain\r\nContent-Length: 5\r\n\r\nHello".to_vec()
}

#[test]
fn parse() {
    let parser = ResponseParser::new_parser();
    let input = response_bytes();

    let a = parser.parse(&input).unwrap();

    let reader = a.to_string().into_bytes();

    let b = parser.parse(&reader).unwrap();

    assert_eq!(a, b);
}

#[test]
fn a_response_is_read_with_its_status_headers_and_body() {
    let response = ResponseParser::new_parser().parse(&response_bytes()).unwrap();
    assert_eq!(response.code(), 200);
    assert_eq!(response.reason(), "OK");
    assert_eq!(*response.version(), Version::HTTP11);
    assert_eq!(response.headers().get_header("content-type").unwrap(), "text/plain");
    assert_eq!(response.headers().get_header("content-length").unwrap(), "5");
    assert_eq!(response.body().unwrap(), b"Hello");
    assert_eq!(
        response.to_string(),
        "HTTP/1.1 200 OK\r\nContent-Type: text/plain\r\nContent-Length: 5\r\n\r\nHello"
    );
}

#[test]
fn a_reason_may_hold_spaces_and_a_response_may_have_no_body() {
    let response =
        ResponseParser::new_parser().parse(b"HTTP/1.1 404 Not Found\r\n\r\n").unwrap();
    assert_eq!(response.code(), 404);
    assert_eq!(response.reason(), "Not Found");
    assert!(response.body().is_none());
    assert_eq!(response.headers().len(), 0);
}

#[test]
fn the_status_is_read_from_the_first_place_that_fits() {
    let parser = ResponseParser::new_parser();
    let response = parser.parse(b" x  HTTP/1.1 -3 r\r\n\r\n").unwrap();
    assert_eq!(response.code(), -3);
    assert_eq!(response.reason(), "r");
}

#[test]
fn a_first_line_without_three_fields_is_refused() {
    let parser = ResponseParser::new_parser();
    for bad in [
        &b""[..],
        &b"\r\n"[..],
        &b"HTTP/1.1 200\r\n\r\n"[..],
        &b"HTTP/1.1 200 \r\n\r\n"[..],
        &b"HTTP/1.1 200 OK\n\r\n"[..],
        &b"HTTP/1.1 200 OK"[..],
        &b"HTTP/1.1  200  OK\r\n\r\n"[..],
    ] {
        assert_eq!(parser.parse(bad).unwrap_err(), ParseError::FirstLine);
    }
}

#[test]
fn a_bad_code_comes_before_a_bad_version() {
    let parser = ResponseParser::new_parser();
    assert_eq!(parser.parse(b"HTTP/1.0 2x0 OK\r\n\r\n").unwrap_err(), ParseError::CodeParseError);
    assert_eq!(parser.parse(b"HTTP/1.0 200 OK\r\n\r\n").unwrap_err(), ParseError::WrongVersion);
    assert_eq!(
        parser.parse(b"HTTP/1.1 2147483648 OK\r\n\r\n").unwrap_err(),
        ParseError::CodeParseError
    );
    assert_eq!(parser.parse(b"HTTP/1.1 200 \xff\r\n\r\n").unwrap_err(), ParseError::ReadError);
}

#[test]
fn errors_of_the_header_block_are_passed_on() {
    let parser = ResponseParser::new_parser();
    assert_eq!(parser.parse(b"HTTP/1.1 200 OK\r\n").unwrap_err(), ParseError::UnexpectedEnd);
    assert_eq!(
        parser.parse(b"HTTP/1.1 200 OK\r\nnocolon\r\n\r\n").unwrap_err(),
        ParseError::HeaderError
    );
    assert_eq!(
        parser.parse(b"HTTP/1.1 200 OK\r\nContent-Length: 9\r\n\r\nshort").unwrap_err(),
        ParseError::UnexpectedEnd
    );
}

#[test]
fn codes_are_read_as_signed_numbers_of_32_bits() {
    assert_eq!(parse_code("200"), Some(200));
    assert_eq!(parse_code("+200"), Some(200));
    assert_eq!(parse_code("-200"), Some(-200));
    assert_eq!(parse_code("007"), Some(7));
    assert_eq!(parse_code("-0"), Some(0));
    assert_eq!(parse_code("2147483647"), Some(i32::MAX));
    assert_eq!(parse_code("-2147483648"), Some(i32::MIN));
    assert_eq!(parse_code("2147483648"), None);
    assert_eq!(parse_code("-2147483649"), None);
    assert_eq!(parse_code("99999999999999999999999"), None);
    assert_eq!(parse_code(""), None);
    assert_eq!(parse_code("-"), None);
    assert_eq!(parse_code("+"), None);
    assert_eq!(parse_code("+-1"), None);
    assert_eq!(parse_code("12a"), None);
}

#[test]
fn a_header_block_ends_at_the_empty_line() {
    let (headers, body, taken) =
        Parser::new().parse(b"Host: Example\r\nAccept: */*\r\n\r\nrest").unwrap();
    assert_eq!(headers.len(), 2);
    assert_eq!(headers.get_header("host").unwrap(), "Example");
    assert_eq!(headers.get_header("ACCEPT").unwrap(), "*/*");
    assert!(body.is_none());
    assert_eq!(taken, 15 + 13 + 2);
}

#[test]
fn a_declared_length_brings_the_body() {
    let (headers, body, taken) =
        Parser::new().parse(b"Content-Length: 4\r\n\r\nbodyMORE").unwrap();
    assert_eq!(headers.get_header("content-length").unwrap(), "4");
    assert_eq!(body.unwrap(), b"body");
    assert_eq!(taken, 19 + 2 + 4);
    let (_, empty, taken) = Parser::new().parse(b"content-length: 0\r\n\r\n").unwrap();
    assert_eq!(empty.unwrap(), b"");
    assert_eq!(taken, 21);
}

#[test]
fn the_name_ends_at_the_first_colon_that_a_space_follows() {
    let (headers, _, _) = Parser::new().parse(b"a:b: c: d\r\n\r\n").unwrap();
    assert_eq!(headers.len(), 1);
    assert_eq!(headers.get_header("b").unwrap(), "c: d");
    let (headers, _, _) = Parser::new().parse(b":: x: y\r\n\r\n").unwrap();
    assert_eq!(headers.get_header(" x").unwrap(), "y");
    let (headers, _, _) = Parser::new().parse(b"Empty: \r\n\r\n").unwrap();
    assert_eq!(headers.get_header("empty").unwrap(), "");
}

#[test]
fn lines_without_fields_are_refused() {
    let parser = Parser::new();
    for bad in [&b"nocolon\r\n\r\n"[..], &b"name:value\r\n\r\n"[..], &b": value\r\n\r\n"[..]] {
        assert_eq!(parser.parse(bad).unwrap_err(), ParseError::HeaderError);
    }
}

#[test]
fn a_block_that_stops_early_asks_for_more() {
    let parser = Parser::new();
    for short in [
        &b""[..],
        &b"Host: x"[..],
        &b"Host: x\r\n"[..],
        &b"Host: x\n\r\n"[..],
        &b"\n"[..],
        &b"Content-Length: 3\r\n\r\nab"[..],
    ] {
        assert_eq!(parser.parse(short).unwrap_err(), ParseError::UnexpectedEnd);
    }
}

#[test]
fn lines_that_are_not_text_and_lengths_that_are_no_numbers_are_refused() {
    let parser = Parser::new();
    assert_eq!(parser.parse(b"Host: \xff\r\n\r\n").unwrap_err(), ParseError::ReadError);
    assert_eq!(parser.parse(b"\xff").unwrap_err(), ParseError::ReadError);
    assert_eq!(
        parser.parse(b"Content-Length: four\r\n\r\nbody").unwrap_err(),
        ParseError::LengthParse
    );
}
